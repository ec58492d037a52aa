//! Pixels and their channels. A pixel is a 32-bit word `0xRRGGBB`; its top
//! byte is not looked at.

use vstd::prelude::*;

verus! {

/// The red channel of a pixel.
pub open spec fn red(pixel: u32) -> int {
    pixel as int / 65536 % 256
}

/// The green channel of a pixel.
pub open spec fn green(pixel: u32) -> int {
    pixel as int / 256 % 256
}

/// The blue channel of a pixel.
pub open spec fn blue(pixel: u32) -> int {
    pixel as int % 256
}

/// Luma of the BT.601-style conversion, `16 + (65.738 R + 129.057 G + 25.064 B) / 256`
/// cut off towards zero. The coefficients have three decimals, so the value is
/// the integer quotient of the thousandfold numerator by 256 000.
pub open spec fn luma(r: int, g: int, b: int) -> int {
    (4096000 + 65738 * r + 129057 * g + 25064 * b) / 256000
}

/// Blue-difference chroma, `128 + (-37.945 R - 74.494 G + 112.439 B) / 256`
/// cut off towards zero. The value is positive for all channels.
pub open spec fn chroma_blue(r: int, g: int, b: int) -> int {
    (32768000 - 37945 * r - 74494 * g + 112439 * b) / 256000
}

/// Red-difference chroma, `128 + (112.439 R - 94.154 G - 18.285 B) / 256`
/// cut off towards zero. The value is positive for all channels.
pub open spec fn chroma_red(r: int, g: int, b: int) -> int {
    (32768000 + 112439 * r - 94154 * g - 18285 * b) / 256000
}

/// Byte `k` of a pixel in BGR order: blue, green, red.
pub open spec fn bgr_byte(pixel: u32, k: int) -> u8 {
    if k == 0 {
        blue(pixel) as u8
    } else if k == 1 {
        green(pixel) as u8
    } else {
        red(pixel) as u8
    }
}

/// A canvas as BGR24 bytes: three bytes a pixel, in raster order, no scaling.
pub open spec fn bgr24(canvas: Seq<u32>) -> Seq<u8> {
    Seq::new(3 * canvas.len(), |i: int| bgr_byte(canvas[i / 3], i % 3))
}

/// The luma plane of a canvas.
pub open spec fn y_plane(canvas: Seq<u32>) -> Seq<u8> {
    Seq::new(canvas.len(), |i: int| luma(red(canvas[i]), green(canvas[i]), blue(canvas[i])) as u8)
}

/// The blue-difference plane of a canvas.
pub open spec fn cb_plane(canvas: Seq<u32>) -> Seq<u8> {
    Seq::new(
        canvas.len(),
        |i: int| chroma_blue(red(canvas[i]), green(canvas[i]), blue(canvas[i])) as u8,
    )
}

/// The red-difference plane of a canvas.
pub open spec fn cr_plane(canvas: Seq<u32>) -> Seq<u8> {
    Seq::new(
        canvas.len(),
        |i: int| chroma_red(red(canvas[i]), green(canvas[i]), blue(canvas[i])) as u8,
    )
}

/// A pixel in the YCbCr colour space.
#[derive(Clone, Copy, PartialEq, Eq, Debug)]
pub struct YCbCr {
    pub y: u8,
    pub cb: u8,
    pub cr: u8,
}

impl YCbCr {
    /// Converts a pixel by the truncating BT.601-style formulas.
    pub fn from_rgb(pixel: u32) -> (c: YCbCr)
        ensures
            c.y == luma(red(pixel), green(pixel), blue(pixel)),
            c.cb == chroma_blue(red(pixel), green(pixel), blue(pixel)),
            c.cr == chroma_red(red(pixel), green(pixel), blue(pixel)),
            16 <= c.y <= 235,
            16 <= c.cb <= 239,
            16 <= c.cr <= 239,
    {
        let r: u32 = pixel / 65536 % 256;
        let g: u32 = pixel / 256 % 256;
        let b: u32 = pixel % 256;
        let y: u32 = (4096000 + 65738 * r + 129057 * g + 25064 * b) / 256000;
        let cb: u32 = (32768000 + 112439 * b - 37945 * r - 74494 * g) / 256000;
        let cr: u32 = (32768000 + 112439 * r - 94154 * g - 18285 * b) / 256000;
        YCbCr { y: y as u8, cb: cb as u8, cr: cr as u8 }
    }
}

/// A frame as BGR24 bytes.
#[derive(Debug)]
pub struct FrameBGR24 {
    pub pixels: Vec<u8>,
}

impl FrameBGR24 {
    /// An empty frame.
    pub fn new() -> (frame: FrameBGR24)
        ensures
            frame.pixels@.len() == 0,
    {
        FrameBGR24 { pixels: Vec::new() }
    }

    /// Replaces the frame by the canvas in BGR order: byte order reversed, no scaling.
    pub fn from_canvas(&mut self, canvas: &[u32])
        ensures
            final(self).pixels@ == bgr24(canvas@),
    {
        self.pixels.clear();
        let mut i: usize = 0;
        while i < canvas.len()
            invariant
                i <= canvas@.len(),
                self.pixels@.len() == 3 * i,
                forall|j: int|
                    0 <= j < 3 * i ==> #[trigger] self.pixels@[j] == bgr_byte(canvas@[j / 3], j % 3),
            decreases canvas@.len() - i,
        {
            let pixel: u32 = canvas[i];
            let r: u8 = (pixel / 65536 % 256) as u8;
            let b: u8 = (pixel % 256) as u8;
            let g: u8 = (pixel / 256 % 256) as u8;
            self.pixels.push(b);
            self.pixels.push(g);
            self.pixels.push(r);
            i += 1;
        }
        assert(self.pixels@ =~= bgr24(canvas@));
    }
}

/// A frame as three planes.
#[derive(Debug)]
pub struct FrameYCbCr {
    pub y_plane: Vec<u8>,
    pub cb_plane: Vec<u8>,
    pub cr_plane: Vec<u8>,
}

impl FrameYCbCr {
    /// An empty frame.
    pub fn new() -> (frame: FrameYCbCr)
        ensures
            frame.y_plane@.len() == 0,
            frame.cb_plane@.len() == 0,
            frame.cr_plane@.len() == 0,
    {
        FrameYCbCr { y_plane: Vec::new(), cb_plane: Vec::new(), cr_plane: Vec::new() }
    }

    /// Replaces the planes by those of the canvas, each in raster order.
    pub fn from_canvas(&mut self, canvas: &[u32])
        ensures
            final(self).y_plane@ == y_plane(canvas@),
            final(self).cb_plane@ == cb_plane(canvas@),
            final(self).cr_plane@ == cr_plane(canvas@),
    {
        self.y_plane.clear();
        self.cb_plane.clear();
        self.cr_plane.clear();
        let mut i: usize = 0;
        while i < canvas.len()
            invariant
                i <= canvas@.len(),
                self.y_plane@ == y_plane(canvas@.take(i as int)),
                self.cb_plane@ == cb_plane(canvas@.take(i as int)),
                self.cr_plane@ == cr_plane(canvas@.take(i as int)),
            decreases canvas@.len() - i,
        {
            let c = YCbCr::from_rgb(canvas[i]);
            self.y_plane.push(c.y);
            self.cb_plane.push(c.cb);
            self.cr_plane.push(c.cr);
            i += 1;
            assert(self.y_plane@ =~= y_plane(canvas@.take(i as int)));
            assert(self.cb_plane@ =~= cb_plane(canvas@.take(i as int)));
            assert(self.cr_plane@ =~= cr_plane(canvas@.take(i as int)));
        }
        assert(canvas@.take(i as int) =~= canvas@);
    }
}

} // verus!
