use vstd::prelude::*;

use crate::image::PixelBuffer;

verus! {

/// The display widget's model: the optional rendered image it shows.
///
/// The windowing shell wraps this in its own widget type to draw it; while
/// `image` is `None` there is nothing to show yet.
pub struct ImageWidget<'a> {
    pub image: &'a Option<PixelBuffer>,
}

impl<'a> ImageWidget<'a> {
    pub fn new(image: &'a Option<PixelBuffer>) -> (w: ImageWidget<'a>)
        ensures
            w.image == image,
    {
        ImageWidget { image }
    }
}

} // verus!
