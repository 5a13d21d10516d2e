use vstd::prelude::*;

verus! {

/// The intensity-scaling curves the rendering layer can apply to a raster
/// before palette lookup.
#[derive(Clone, Copy, Debug, PartialEq, Eq, Structural)]
pub enum Scaling {
    Binary,
    Linear,
    Log,
    Sqrt,
    CubeRoot,
    FourthRoot,
    FifthRoot,
}

/// Every scaling curve, in display order.
pub open spec fn scaling_list() -> Seq<Scaling> {
    seq![
        Scaling::Binary,
        Scaling::Linear,
        Scaling::Log,
        Scaling::Sqrt,
        Scaling::CubeRoot,
        Scaling::FourthRoot,
        Scaling::FifthRoot,
    ]
}

impl Scaling {
    /// Every scaling curve, in display order.
    pub fn all() -> (v: Vec<Scaling>)
        ensures
            v@ == scaling_list(),
    {
        let mut v: Vec<Scaling> = Vec::new();
        v.push(Scaling::Binary);
        v.push(Scaling::Linear);
        v.push(Scaling::Log);
        v.push(Scaling::Sqrt);
        v.push(Scaling::CubeRoot);
        v.push(Scaling::FourthRoot);
        v.push(Scaling::FifthRoot);
        proof {
            assert(v@ =~= scaling_list());
        }
        v
    }
}

/// The named color palettes the rendering layer can look intensities up in.
#[derive(Clone, Copy, Debug, PartialEq, Eq, Structural)]
pub enum Palette {
    Greys,
    Blues,
    Greens,
    Organges,
    Purples,
    Reds,
    BrBg,
    PrGn,
    PiYg,
    PuOr,
    RdBu,
    RdGy,
    RdYlBu,
    RdYlGn,
    BuGn,
    BuPu,
    GnBu,
    OrRd,
    PuBuGn,
    PuBu,
    PuRd,
    YlGnBu,
    YlGn,
    YlOrBr,
    YlOrRd,
    Turbo,
    Viridis,
    Inferno,
    Magma,
    Plasma,
    Cividis,
    Warm,
    Cool,
    CubehelixDefault,
    Spectral,
    Rainbow,
    Sinebow,
}

/// Every palette, in display order.
pub open spec fn palette_list() -> Seq<Palette> {
    seq![
        Palette::Greys,
        Palette::Blues,
        Palette::Greens,
        Palette::Organges,
        Palette::Purples,
        Palette::Reds,
        Palette::BrBg,
        Palette::PrGn,
        Palette::PiYg,
        Palette::PuOr,
        Palette::RdBu,
        Palette::RdGy,
        Palette::RdYlBu,
        Palette::RdYlGn,
        Palette::BuGn,
        Palette::BuPu,
        Palette::GnBu,
        Palette::OrRd,
        Palette::PuBuGn,
        Palette::PuBu,
        Palette::PuRd,
        Palette::YlGnBu,
        Palette::YlGn,
        Palette::YlOrBr,
        Palette::YlOrRd,
        Palette::Turbo,
        Palette::Viridis,
        Palette::Inferno,
        Palette::Magma,
        Palette::Plasma,
        Palette::Cividis,
        Palette::Warm,
        Palette::Cool,
        Palette::CubehelixDefault,
        Palette::Spectral,
        Palette::Rainbow,
        Palette::Sinebow,
    ]
}

impl Palette {
    /// Every palette, in display order.
    pub fn all() -> (v: Vec<Palette>)
        ensures
            v@ == palette_list(),
    {
        let mut v: Vec<Palette> = Vec::new();
        v.push(Palette::Greys);
        v.push(Palette::Blues);
        v.push(Palette::Greens);
        v.push(Palette::Organges);
        v.push(Palette::Purples);
        v.push(Palette::Reds);
        v.push(Palette::BrBg);
        v.push(Palette::PrGn);
        v.push(Palette::PiYg);
        v.push(Palette::PuOr);
        v.push(Palette::RdBu);
        v.push(Palette::RdGy);
        v.push(Palette::RdYlBu);
        v.push(Palette::RdYlGn);
        v.push(Palette::BuGn);
        v.push(Palette::BuPu);
        v.push(Palette::GnBu);
        v.push(Palette::OrRd);
        v.push(Palette::PuBuGn);
        v.push(Palette::PuBu);
        v.push(Palette::PuRd);
        v.push(Palette::YlGnBu);
        v.push(Palette::YlGn);
        v.push(Palette::YlOrBr);
        v.push(Palette::YlOrRd);
        v.push(Palette::Turbo);
        v.push(Palette::Viridis);
        v.push(Palette::Inferno);
        v.push(Palette::Magma);
        v.push(Palette::Plasma);
        v.push(Palette::Cividis);
        v.push(Palette::Warm);
        v.push(Palette::Cool);
        v.push(Palette::CubehelixDefault);
        v.push(Palette::Spectral);
        v.push(Palette::Rainbow);
        v.push(Palette::Sinebow);
        proof {
            assert(v@ =~= palette_list());
        }
        v
    }
}

/// An RGBA pixel buffer, row-major, four bytes per pixel: the shape of
/// image the rendering layer produces from a raster and the display shell
/// uploads as a texture.
#[derive(Debug)]
pub struct PixelBuffer {
    width: usize,
    height: usize,
    pixels: Vec<u8>,
}

impl PixelBuffer {
    pub closed spec fn spec_width(&self) -> int {
        self.width as int
    }

    pub closed spec fn spec_height(&self) -> int {
        self.height as int
    }

    /// The raw bytes, row-major, `[r, g, b, a]` per pixel.
    pub closed spec fn bytes(&self) -> Seq<u8> {
        self.pixels@
    }

    /// Well-formedness: the byte vector has exactly four bytes per cell.
    /// `new` establishes it and `set_pixel` keeps it.
    pub open spec fn wf(self) -> bool {
        self.bytes().len() == 4 * self.spec_width() * self.spec_height()
    }

    /// A fully transparent black buffer of the given dimensions.
    pub fn new(width: usize, height: usize) -> (b: PixelBuffer)
        requires
            4 * width * height <= usize::MAX,
        ensures
            b.wf(),
            b.spec_width() == width,
            b.spec_height() == height,
            b.bytes().len() == 4 * width * height,
            forall|i: int| 0 <= i < b.bytes().len() ==> #[trigger] b.bytes()[i] == 0,
    {
        proof {
            assert(width * height * 4 == 4 * width * height) by (nonlinear_arith);
        }
        let size = width * height * 4;
        let mut pixels: Vec<u8> = Vec::new();
        while pixels.len() < size
            invariant
                pixels@.len() <= size,
                forall|i: int| 0 <= i < pixels@.len() ==> #[trigger] pixels@[i] == 0,
            decreases size - pixels@.len(),
        {
            pixels.push(0);
        }
        PixelBuffer { width, height, pixels }
    }

    pub fn width(&self) -> (w: usize)
        ensures
            w == self.spec_width(),
    {
        self.width
    }

    pub fn height(&self) -> (h: usize)
        ensures
            h == self.spec_height(),
    {
        self.height
    }

    /// The raw bytes, row-major, `[r, g, b, a]` per pixel.
    pub fn as_bytes(&self) -> (v: &Vec<u8>)
        ensures
            v@ == self.bytes(),
    {
        &self.pixels
    }

    /// Writes one pixel's four channel bytes.
    pub fn set_pixel(&mut self, x: usize, y: usize, r: u8, g: u8, b: u8, a: u8)
        requires
            old(self).wf(),
            x < old(self).spec_width(),
            y < old(self).spec_height(),
        ensures
            final(self).wf(),
            final(self).spec_width() == old(self).spec_width(),
            final(self).spec_height() == old(self).spec_height(),
            final(self).bytes() == old(self).bytes().update(
                4 * (x + y * old(self).spec_width()),
                r,
            ).update(4 * (x + y * old(self).spec_width()) + 1, g).update(
                4 * (x + y * old(self).spec_width()) + 2,
                b,
            ).update(4 * (x + y * old(self).spec_width()) + 3, a),
    {
        proof {
            assert(4 * (x + y * self.spec_width()) + 3 < 4 * self.spec_width()
                * self.spec_height()) by (nonlinear_arith)
                requires
                    x < self.spec_width(),
                    y < self.spec_height(),
            ;
        }
        // ties the byte vector's length, and so the pixel index, to usize
        let _len: usize = self.pixels.len();
        let base: usize = 4 * (x + y * self.width);
        self.pixels.set(base, r);
        self.pixels.set(base + 1, g);
        self.pixels.set(base + 2, b);
        self.pixels.set(base + 3, a);
    }
}

} // verus!
