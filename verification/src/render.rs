//! The steps of an offline render: a canvas becomes a frame of each kind, and
//! each frame is written to the sink of its container.

use vstd::prelude::*;
use crate::avi::{sound_bytes, words_le};
use crate::color::{FrameBGR24, FrameYCbCr, YCbCr, bgr24, y_plane, cb_plane, cr_plane};
use crate::color::{luma, chroma_blue, chroma_red, red, green, blue};
use crate::fourcc::{FOURCC, VIDEO_CHUNK, AUDIO_CHUNK};
use crate::riff::{Chunk, ChunkView, serialize_chunk, write_chunk};
use crate::yuv4mpeg2::{frame_mark, save_frame};

verus! {

/// Converts a pixel to YCbCr by the truncating BT.601-style formulas.
pub fn rgb_to_ycrcb(pixel: u32) -> (c: YCbCr)
    ensures
        c.y == luma(red(pixel), green(pixel), blue(pixel)),
        c.cb == chroma_blue(red(pixel), green(pixel), blue(pixel)),
        c.cr == chroma_red(red(pixel), green(pixel), blue(pixel)),
{
    YCbCr::from_rgb(pixel)
}

/// Replaces `frame` by the canvas as BGR24 bytes.
pub fn canvas_as_frame_bgr24(canvas: &[u32], frame: &mut FrameBGR24)
    ensures
        final(frame).pixels@ == bgr24(canvas@),
{
    frame.from_canvas(canvas);
}

/// Replaces `frame` by the three planes of the canvas.
pub fn canvas_as_frame_ycbcr(canvas: &[u32], frame: &mut FrameYCbCr)
    ensures
        final(frame).y_plane@ == y_plane(canvas@),
        final(frame).cb_plane@ == cb_plane(canvas@),
        final(frame).cr_plane@ == cr_plane(canvas@),
{
    frame.from_canvas(canvas);
}

/// Appends a frame as a `00dc` chunk.
pub fn save_video_frame_avi(sink: &mut Vec<u8>, frame: &FrameBGR24)
    requires
        frame.pixels@.len() <= u32::MAX,
    ensures
        final(sink)@ == old(sink)@ + serialize_chunk(
            ChunkView { id: VIDEO_CHUNK, content: frame.pixels@ },
        ),
{
    let chunk = Chunk { id: FOURCC::from_u32(VIDEO_CHUNK), content: frame.pixels.as_slice() };
    write_chunk(sink, &chunk);
}

/// Appends samples, given as the bit patterns of 32-bit floats, as a `01wb` chunk.
pub fn save_audio_frame_avi(sink: &mut Vec<u8>, sound: &[u32])
    requires
        4 * sound@.len() <= u32::MAX,
    ensures
        final(sink)@ == old(sink)@ + serialize_chunk(
            ChunkView { id: AUDIO_CHUNK, content: words_le(sound@) },
        ),
{
    let samples = sound_bytes(sound);
    let chunk = Chunk { id: FOURCC::from_u32(AUDIO_CHUNK), content: samples.as_slice() };
    write_chunk(sink, &chunk);
}

/// Appends a frame to a YUV4MPEG2 stream: the frame line, then the Y, Cb and
/// Cr planes.
pub fn save_frame_yuv4mpeg2(sink: &mut Vec<u8>, frame: &FrameYCbCr)
    ensures
        final(sink)@ == old(sink)@ + frame_mark() + frame.y_plane@ + frame.cb_plane@
            + frame.cr_plane@,
{
    save_frame(sink, frame);
}

} // verus!
