use attractor::image::Palette;
use attractor::image::PixelBuffer;
use attractor::image::Scaling;
use attractor::image_widget::ImageWidget;

#[test]
fn scaling_all_lists_each_curve_once() {
    let all = Scaling::all();
    assert_eq!(all.len(), 7);
    assert_eq!(all[0], Scaling::Binary);
    assert_eq!(all[1], Scaling::Linear);
    assert_eq!(all[6], Scaling::FifthRoot);
    for i in 0..all.len() {
        for j in 0..i {
            assert_ne!(all[i], all[j]);
        }
    }
}

#[test]
fn palette_all_lists_each_palette_once() {
    let all = Palette::all();
    assert_eq!(all.len(), 37);
    assert_eq!(all[0], Palette::Greys);
    assert_eq!(all[36], Palette::Sinebow);
    for i in 0..all.len() {
        for j in 0..i {
            assert_ne!(all[i], all[j]);
        }
    }
}

#[test]
fn pixel_buffer_starts_blank() {
    let b = PixelBuffer::new(2, 3);
    assert_eq!(b.width(), 2);
    assert_eq!(b.height(), 3);
    assert_eq!(b.as_bytes().len(), 24);
    assert!(b.as_bytes().iter().all(|&c| c == 0));
}

#[test]
fn pixel_buffer_set_pixel_writes_four_bytes() {
    let mut b = PixelBuffer::new(2, 3);
    b.set_pixel(1, 2, 10, 20, 30, 40);
    let bytes = b.as_bytes();
    let base = 4 * (1 + 2 * 2);
    assert_eq!(&bytes[base..base + 4], &[10, 20, 30, 40]);
    // every other byte is untouched
    for (i, &c) in bytes.iter().enumerate() {
        if !(base..base + 4).contains(&i) {
            assert_eq!(c, 0);
        }
    }
}

#[test]
fn pixel_buffer_zero_size_is_empty() {
    let b = PixelBuffer::new(0, 5);
    assert_eq!(b.width(), 0);
    assert_eq!(b.height(), 5);
    assert_eq!(b.as_bytes().len(), 0);
}

#[test]
fn image_widget_wraps_an_optional_image() {
    let none: Option<PixelBuffer> = None;
    let w = ImageWidget::new(&none);
    assert!(w.image.is_none());

    let some = Some(PixelBuffer::new(1, 1));
    let w = ImageWidget::new(&some);
    assert!(w.image.is_some());
    assert_eq!(w.image.as_ref().unwrap().width(), 1);
}
