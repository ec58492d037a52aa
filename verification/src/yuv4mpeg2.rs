//! The YUV4MPEG2 muxer: one text header line, then frame after frame.

use vstd::prelude::*;
use vstd::array::array_as_slice;
use crate::color::{FrameYCbCr, y_plane, cb_plane, cr_plane};
use crate::le::put_bytes;

verus! {

/// The decimal digits of `n` in ASCII, most significant first, no leading zero.
pub open spec fn decimal(n: nat) -> Seq<u8>
    decreases n,
{
    if n < 10 {
        seq![(48 + n) as u8]
    } else {
        decimal(n / 10).push((48 + n % 10) as u8)
    }
}

/// `"YUV4MPEG2 W"`.
pub open spec fn magic() -> Seq<u8> {
    seq![89u8, 85u8, 86u8, 52u8, 77u8, 80u8, 69u8, 71u8, 50u8, 32u8, 87u8]
}

/// `" H"`.
pub open spec fn height_mark() -> Seq<u8> {
    seq![32u8, 72u8]
}

/// `" F"`.
pub open spec fn rate_mark() -> Seq<u8> {
    seq![32u8, 70u8]
}

/// `":1 Ip A1:1 C444\n"`: frames per one second, progressive scan, square
/// pixels, 4:4:4 chroma, end of line.
pub open spec fn header_tail() -> Seq<u8> {
    seq![
        58u8, 49u8, 32u8, 73u8, 112u8, 32u8, 65u8, 49u8, 58u8, 49u8, 32u8, 67u8, 52u8, 52u8, 52u8,
        10u8,
    ]
}

/// `"FRAME\n"`.
pub open spec fn frame_mark() -> Seq<u8> {
    seq![70u8, 82u8, 65u8, 77u8, 69u8, 10u8]
}

/// The header line `YUV4MPEG2 W<width> H<height> F<fps>:1 Ip A1:1 C444\n`.
pub open spec fn header_line(width: nat, height: nat, fps: nat) -> Seq<u8> {
    magic() + decimal(width) + height_mark() + decimal(height) + rate_mark() + decimal(fps)
        + header_tail()
}

/// The bytes of one frame: the frame line, then the Y, Cb and Cr planes, each
/// in raster order, nothing between or within them.
pub open spec fn frame_bytes(canvas: Seq<u32>) -> Seq<u8> {
    frame_mark() + y_plane(canvas) + cb_plane(canvas) + cr_plane(canvas)
}

/// A stream: the header line, then the frames of the canvases in order.
pub open spec fn stream(width: nat, height: nat, fps: nat, canvases: Seq<Seq<u32>>) -> Seq<u8>
    decreases canvases.len(),
{
    if canvases.len() == 0 {
        header_line(width, height, fps)
    } else {
        stream(width, height, fps, canvases.drop_last()) + frame_bytes(canvases.last())
    }
}

/// Byte accounting: a stream of `N` frames of `W` by `H` pixels is as long as
/// its header line and `N` times `6 + 3 * W * H` bytes.
pub proof fn lemma_byte_accounting(width: nat, height: nat, fps: nat, canvases: Seq<Seq<u32>>)
    requires
        forall|i: int| 0 <= i < canvases.len() ==> (#[trigger] canvases[i]).len() == width * height,
    ensures
        stream(width, height, fps, canvases).len() == header_line(width, height, fps).len()
            + canvases.len() * (6 + 3 * width * height),
    decreases canvases.len(),
{
    let k: int = 6 + 3 * (width as int * height as int);
    if canvases.len() > 0 {
        let n = canvases.len() as int;
        lemma_byte_accounting(width, height, fps, canvases.drop_last());
        assert(frame_bytes(canvases.last()).len() == k);
        assert((n - 1) * k + k == n * k) by (nonlinear_arith);
        assert(3 * (width * height) == 3 * width * height) by (nonlinear_arith);
    } else {
        assert(0 * k == 0);
    }
}

/// Appends the decimal digits of `n`.
pub fn put_decimal(out: &mut Vec<u8>, n: usize)
    ensures
        final(out)@ == old(out)@ + decimal(n as nat),
    decreases n,
{
    if n >= 10 {
        put_decimal(out, n / 10);
    }
    out.push((48 + n % 10) as u8);
    assert(out@ =~= old(out)@ + decimal(n as nat));
}

/// The YUV4MPEG2 muxer. It keeps nothing from call to call but the capture
/// parameters and a scratch frame.
#[derive(Debug)]
pub struct Container {
    frame: FrameYCbCr,
    started: bool,
    width: usize,
    height: usize,
    fps: usize,
}

/// What a muxer is: whether its header line is written, and with which parameters.
pub struct StreamView {
    pub started: bool,
    pub width: nat,
    pub height: nat,
    pub fps: nat,
}

impl View for Container {
    type V = StreamView;

    closed spec fn view(&self) -> StreamView {
        StreamView {
            started: self.started,
            width: self.width as nat,
            height: self.height as nat,
            fps: self.fps as nat,
        }
    }
}

impl Container {
    /// A muxer that has written nothing.
    pub fn new() -> (muxer: Container)
        ensures
            muxer@ == (StreamView { started: false, width: 0, height: 0, fps: 0 }),
    {
        Container { frame: FrameYCbCr::new(), started: false, width: 0, height: 0, fps: 0 }
    }

    /// Whether the header line is written.
    pub fn started(&self) -> (b: bool)
        ensures
            b == self@.started,
    {
        self.started
    }

    /// Writes the header line, which fixes the size of every frame behind it.
    /// It is written once.
    pub fn start(&mut self, sink: &mut Vec<u8>, width: usize, height: usize, fps: usize)
        requires
            !old(self)@.started,
        ensures
            final(self)@ == (StreamView {
                started: true,
                width: width as nat,
                height: height as nat,
                fps: fps as nat,
            }),
            final(sink)@ == old(sink)@ + header_line(width as nat, height as nat, fps as nat),
    {
        let head: [u8; 11] = [89, 85, 86, 52, 77, 80, 69, 71, 50, 32, 87];
        let mid: [u8; 2] = [32, 72];
        let rate: [u8; 2] = [32, 70];
        let tail: [u8; 16] = [58, 49, 32, 73, 112, 32, 65, 49, 58, 49, 32, 67, 52, 52, 52, 10];
        proof {
            assert(head@ =~= magic());
            assert(mid@ =~= height_mark());
            assert(rate@ =~= rate_mark());
            assert(tail@ =~= header_tail());
        }
        put_bytes(sink, array_as_slice(&head));
        put_decimal(sink, width);
        put_bytes(sink, array_as_slice(&mid));
        put_decimal(sink, height);
        put_bytes(sink, array_as_slice(&rate));
        put_decimal(sink, fps);
        put_bytes(sink, array_as_slice(&tail));
        assert(sink@ =~= old(sink)@ + header_line(width as nat, height as nat, fps as nat));
        self.started = true;
        self.width = width;
        self.height = height;
        self.fps = fps;
    }

    /// Writes one frame behind the header line: the frame line, then the Y,
    /// Cb and Cr planes of the canvas.
    pub fn frame(&mut self, sink: &mut Vec<u8>, canvas: &[u32])
        requires
            old(self)@.started,
        ensures
            final(self)@ == old(self)@,
            final(sink)@ == old(sink)@ + frame_bytes(canvas@),
            final(sink)@.len() == old(sink)@.len() + 6 + 3 * canvas@.len(),
    {
        self.frame.from_canvas(canvas);
        save_frame(sink, &self.frame);
    }
}

impl Default for Container {
    fn default() -> (muxer: Container)
        ensures
            muxer@ == (StreamView { started: false, width: 0, height: 0, fps: 0 }),
    {
        Container::new()
    }
}

/// Writes the frame line and the three planes of a frame.
pub fn save_frame(sink: &mut Vec<u8>, frame: &FrameYCbCr)
    ensures
        final(sink)@ == old(sink)@ + frame_mark() + frame.y_plane@ + frame.cb_plane@
            + frame.cr_plane@,
{
    let mark: [u8; 6] = [70, 82, 65, 77, 69, 10];
    proof {
        assert(mark@ =~= frame_mark());
    }
    put_bytes(sink, array_as_slice(&mark));
    put_bytes(sink, frame.y_plane.as_slice());
    put_bytes(sink, frame.cb_plane.as_slice());
    put_bytes(sink, frame.cr_plane.as_slice());
}

} // verus!
