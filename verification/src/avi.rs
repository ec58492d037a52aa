//! The AVI muxer: header fabrication and the recording state machine.

use vstd::prelude::*;
use crate::fourcc::{
    FOURCC, RIFF, AVI_, HDRL, AVIH, STRH, STRF, STRL, VIDS, AUDS, MOVI, VIDEO_CHUNK, AUDIO_CHUNK,
};
use crate::headers::{
    AVIMainHeader, AVIStreamHeader, BITMAPINFOHEADER, WAVEFORMATEX, WAVEFORMATEXTENSIBLE, GUID,
    RECT,
};
use crate::color::{FrameBGR24, bgr24};
use crate::le::{le_bytes_u32, put_u32, lemma_u32_of_le_bytes};
use crate::riff::{
    Chunk, List, ChunkView, ListView, serialize_chunk, serialize_list, write_chunk, write_list,
    lemma_chunk_layout, lemma_list_layout,
};

verus! {

// The canonical capture configuration: 800 by 600 pixels of 24 bits, 60 frames
// a second, one channel of 32-bit float samples at 48 kHz. The constants below
// are the header values that this configuration gives.

/// The frame period at 60 frames a second, in microseconds, rounded down.
pub const FRAME_PERIOD_MICROS: u32 = 16666;

/// One second of canonical video and audio: 60 frames of 1 440 000 bytes and
/// 192 000 bytes of samples.
pub const MAX_BYTES_PER_SEC: u32 = 86592000;

/// Main header flags: the file has an index, is interleaved, and its chunk
/// types can be trusted.
pub const MAIN_HEADER_FLAGS: u32 = 2320;

/// The streams of a file: video, then audio.
pub const STREAM_COUNT: u32 = 2;

/// The buffer size suggested for the whole file: one mebibyte.
pub const FILE_BUFFER_SIZE: u32 = 1048576;

/// The bytes of one canonical frame: 800 * 600 * 3.
pub const VIDEO_FRAME_BYTES: u32 = 1440000;

/// The quality of a stream where none is specified: all ones.
pub const QUALITY_UNSPECIFIED: u32 = 4294967295;

/// The handler recorded for the audio stream.
pub const AUDIO_HANDLER: u32 = 1;

/// Audio samples per second.
pub const SAMPLE_RATE: u32 = 48000;

/// The bytes of the samples of one canonical tick: 800 samples of 4 bytes.
pub const AUDIO_TICK_BYTES: u32 = 3200;

/// The bytes of one sample: a 32-bit float.
pub const SAMPLE_SIZE: u32 = 4;

/// The size of a bitmap header.
pub const BITMAP_HEADER_SIZE: u32 = 40;

/// Bits per pixel.
pub const BITS_PER_PIXEL: u16 = 24;

/// The format tag of an extensible wave format.
pub const WAVE_FORMAT_EXTENSIBLE: u16 = 65534;

/// Audio channels.
pub const CHANNELS: u16 = 1;

/// Audio bytes per second: the sample rate times the sample size.
pub const AUDIO_BYTES_PER_SEC: u32 = 192000;

/// The bytes of one sample of every channel.
pub const BLOCK_ALIGN: u16 = 4;

/// Bits per sample.
pub const BITS_PER_SAMPLE: u16 = 32;

/// The bytes of a wave format behind its base part.
pub const WAVE_EXTRA_SIZE: u16 = 22;

/// The speaker position of the one channel: front centre.
pub const CHANNEL_MASK: u32 = 4;

/// The largest width or height that the frame rectangle of a stream header holds.
pub const MAX_DIMENSION: usize = 32767;

/// The length of the header list's content.
pub const HDRL_LEN: usize = 312;

/// The bytes of a file around the content of its `movi` list.
pub const FILE_OVERHEAD: usize = 348;

/// The main header of a file of `total_frames` frames of `width` by `height`.
pub open spec fn main_header(total_frames: u32, width: u32, height: u32) -> AVIMainHeader {
    AVIMainHeader {
        dwMicroSecPerFrame: FRAME_PERIOD_MICROS,
        dwMaxBytesPerSec: MAX_BYTES_PER_SEC,
        dwPaddingGranularity: 0,
        dwFlags: MAIN_HEADER_FLAGS,
        dwTotalFrames: total_frames,
        dwInitialFrames: 0,
        dwStreams: STREAM_COUNT,
        dwSuggestedBufferSize: FILE_BUFFER_SIZE,
        dwWidth: width,
        dwHeight: height,
        dwReserved0: 0,
        dwReserved1: 0,
        dwReserved2: 0,
        dwReserved3: 0,
    }
}

/// The header of the video stream: `rate` frames a second, `length` frames.
pub open spec fn video_stream_header(length: u32, rate: u32, width: i16, height: i16)
    -> AVIStreamHeader {
    AVIStreamHeader {
        fccType: FOURCC::of_code(VIDS),
        fccHandler: FOURCC::of_code(0),
        dwFlags: 0,
        wPriority: 0,
        wLanguage: 0,
        dwInitialFrames: 0,
        dwScale: 1,
        dwRate: rate,
        dwStart: 0,
        dwLength: length,
        dwSuggestedBufferSize: VIDEO_FRAME_BYTES,
        dwQuality: QUALITY_UNSPECIFIED,
        dwSampleSize: 0,
        rcFrame: RECT { left: 0, top: 0, right: width, bottom: height },
    }
}

/// The format of the video stream: uncompressed, 24 bits a pixel, rows top-down.
pub open spec fn bitmap_info(width: i16, height: i16) -> BITMAPINFOHEADER {
    BITMAPINFOHEADER {
        biSize: BITMAP_HEADER_SIZE,
        biWidth: width as i32,
        biHeight: (-(height as int)) as i32,
        biPlanes: 1,
        biBitCount: BITS_PER_PIXEL,
        biCompression: 0,
        biSizeImage: VIDEO_FRAME_BYTES,
        biXPelsPerMeter: 0,
        biYPelsPerMeter: 0,
        biClrUsed: 0,
        biClrImportant: 0,
    }
}

/// The header of the audio stream: `length` samples at the sample rate.
pub open spec fn audio_stream_header(length: u32) -> AVIStreamHeader {
    AVIStreamHeader {
        fccType: FOURCC::of_code(AUDS),
        fccHandler: FOURCC::of_code(AUDIO_HANDLER),
        dwFlags: 0,
        wPriority: 0,
        wLanguage: 0,
        dwInitialFrames: 0,
        dwScale: 1,
        dwRate: SAMPLE_RATE,
        dwStart: 0,
        dwLength: length,
        dwSuggestedBufferSize: AUDIO_TICK_BYTES,
        dwQuality: QUALITY_UNSPECIFIED,
        dwSampleSize: SAMPLE_SIZE,
        rcFrame: RECT { left: 0, top: 0, right: 0, bottom: 0 },
    }
}

/// The sub-format of IEEE float samples: `00000003-0000-0010-8000-00aa00389b71`.
pub open spec fn ieee_float_subformat() -> GUID {
    GUID {
        Data1: 3,
        Data2: 0,
        Data3: 16,
        Data4: [128u8, 0u8, 0u8, 170u8, 0u8, 56u8, 155u8, 113u8],
    }
}

/// The format of the audio stream: one channel of 32-bit IEEE float samples.
pub open spec fn wave_format() -> WAVEFORMATEXTENSIBLE {
    WAVEFORMATEXTENSIBLE {
        Format: WAVEFORMATEX {
            wFormatTag: WAVE_FORMAT_EXTENSIBLE,
            nChannels: CHANNELS,
            nSamplesPerSec: SAMPLE_RATE,
            nAvgBytesPerSec: AUDIO_BYTES_PER_SEC,
            nBlockAlign: BLOCK_ALIGN,
            wBitsPerSample: BITS_PER_SAMPLE,
            cbSize: WAVE_EXTRA_SIZE,
        },
        Samples: BITS_PER_SAMPLE,
        dwChannelMask: CHANNEL_MASK,
        SubFormat: ieee_float_subformat(),
    }
}

/// Builds the main header.
pub fn hardcoded_avi_main_header(dwTotalFrames: u32, dwWidth: u32, dwHeight: u32) -> (h:
    AVIMainHeader)
    ensures
        h == main_header(dwTotalFrames, dwWidth, dwHeight),
{
    AVIMainHeader {
        dwMicroSecPerFrame: FRAME_PERIOD_MICROS,
        dwMaxBytesPerSec: MAX_BYTES_PER_SEC,
        dwPaddingGranularity: 0,
        dwFlags: MAIN_HEADER_FLAGS,
        dwTotalFrames,
        dwInitialFrames: 0,
        dwStreams: STREAM_COUNT,
        dwSuggestedBufferSize: FILE_BUFFER_SIZE,
        dwWidth,
        dwHeight,
        dwReserved0: 0,
        dwReserved1: 0,
        dwReserved2: 0,
        dwReserved3: 0,
    }
}

/// Builds the header of the video stream.
pub fn hardcoded_avi_stream_header_vids(dwLength: u32, dwRate: u32, width: i16, height: i16) -> (h:
    AVIStreamHeader)
    ensures
        h == video_stream_header(dwLength, dwRate, width, height),
{
    AVIStreamHeader {
        fccType: FOURCC::from_u32(VIDS),
        fccHandler: FOURCC::from_u32(0),
        dwFlags: 0,
        wPriority: 0,
        wLanguage: 0,
        dwInitialFrames: 0,
        dwScale: 1,
        dwRate,
        dwStart: 0,
        dwLength,
        dwSuggestedBufferSize: VIDEO_FRAME_BYTES,
        dwQuality: QUALITY_UNSPECIFIED,
        dwSampleSize: 0,
        rcFrame: RECT { left: 0, top: 0, right: width, bottom: height },
    }
}

/// Builds the format of the video stream.
pub fn hardcoded_bitmap_info_header(width: i16, height: i16) -> (h: BITMAPINFOHEADER)
    ensures
        h == bitmap_info(width, height),
{
    BITMAPINFOHEADER {
        biSize: BITMAP_HEADER_SIZE,
        biWidth: width as i32,
        biHeight: -(height as i32),
        biPlanes: 1,
        biBitCount: BITS_PER_PIXEL,
        biCompression: 0,
        biSizeImage: VIDEO_FRAME_BYTES,
        biXPelsPerMeter: 0,
        biYPelsPerMeter: 0,
        biClrUsed: 0,
        biClrImportant: 0,
    }
}

/// Builds the header of the audio stream.
pub fn hardcoded_avi_stream_header_auds(dwLength: u32) -> (h: AVIStreamHeader)
    ensures
        h == audio_stream_header(dwLength),
{
    AVIStreamHeader {
        fccType: FOURCC::from_u32(AUDS),
        fccHandler: FOURCC::from_u32(AUDIO_HANDLER),
        dwFlags: 0,
        wPriority: 0,
        wLanguage: 0,
        dwInitialFrames: 0,
        dwScale: 1,
        dwRate: SAMPLE_RATE,
        dwStart: 0,
        dwLength,
        dwSuggestedBufferSize: AUDIO_TICK_BYTES,
        dwQuality: QUALITY_UNSPECIFIED,
        dwSampleSize: SAMPLE_SIZE,
        rcFrame: RECT { left: 0, top: 0, right: 0, bottom: 0 },
    }
}

/// Builds the format of the audio stream.
pub fn hardcoded_wave_format() -> (h: WAVEFORMATEXTENSIBLE)
    ensures
        h == wave_format(),
{
    let h = WAVEFORMATEXTENSIBLE {
        Format: WAVEFORMATEX {
            wFormatTag: WAVE_FORMAT_EXTENSIBLE,
            nChannels: CHANNELS,
            nSamplesPerSec: SAMPLE_RATE,
            nAvgBytesPerSec: AUDIO_BYTES_PER_SEC,
            nBlockAlign: BLOCK_ALIGN,
            wBitsPerSample: BITS_PER_SAMPLE,
            cbSize: WAVE_EXTRA_SIZE,
        },
        Samples: BITS_PER_SAMPLE,
        dwChannelMask: CHANNEL_MASK,
        SubFormat: GUID { Data1: 3, Data2: 0, Data3: 16, Data4: [128, 0, 0, 170, 0, 56, 155, 113] },
    };
    assert(h.SubFormat.Data4 =~= ieee_float_subformat().Data4);
    h
}

/// Whether the header fields can hold the parameters of a recording.
pub open spec fn capture_fits(frames: nat, samples: nat, width: nat, height: nat, fps: nat)
    -> bool {
    &&& frames <= u32::MAX
    &&& samples <= u32::MAX
    &&& width <= MAX_DIMENSION
    &&& height <= MAX_DIMENSION
    &&& fps <= u32::MAX
}

/// The content of the video stream's list: its header chunk, then its format chunk.
#[verifier::opaque]
pub open spec fn video_strl(frames: nat, width: nat, height: nat, fps: nat) -> Seq<u8> {
    serialize_chunk(
        ChunkView {
            id: STRH,
            content: video_stream_header(
                frames as u32,
                fps as u32,
                width as i16,
                height as i16,
            ).encoding(),
        },
    ) + serialize_chunk(
        ChunkView { id: STRF, content: bitmap_info(width as i16, height as i16).encoding() },
    )
}

/// The content of the audio stream's list: its header chunk, then its format chunk.
#[verifier::opaque]
pub open spec fn audio_strl(samples: nat) -> Seq<u8> {
    serialize_chunk(
        ChunkView { id: STRH, content: audio_stream_header(samples as u32).encoding() },
    ) + serialize_chunk(ChunkView { id: STRF, content: wave_format().encoding() })
}

/// The content of the header list: the main header chunk, the video stream's
/// list, the audio stream's list.
#[verifier::opaque]
pub open spec fn hdrl_body(frames: nat, samples: nat, width: nat, height: nat, fps: nat) -> Seq<
    u8,
> {
    serialize_chunk(
        ChunkView {
            id: AVIH,
            content: main_header(frames as u32, width as u32, height as u32).encoding(),
        },
    ) + serialize_list(ListView { list_type: STRL, content: video_strl(frames, width, height, fps) })
        + serialize_list(ListView { list_type: STRL, content: audio_strl(samples) })
}

/// The content of the top-level chunk: the form type, the header list, the
/// `movi` list around the media chunks.
#[verifier::opaque]
pub open spec fn avi_body(
    movi: Seq<u8>,
    frames: nat,
    samples: nat,
    width: nat,
    height: nat,
    fps: nat,
) -> Seq<u8> {
    le_bytes_u32(AVI_) + serialize_list(
        ListView { list_type: HDRL, content: hdrl_body(frames, samples, width, height, fps) },
    ) + serialize_list(ListView { list_type: MOVI, content: movi })
}

/// The bytes of a whole file: one `RIFF` chunk.
pub open spec fn avi_file(
    movi: Seq<u8>,
    frames: nat,
    samples: nat,
    width: nat,
    height: nat,
    fps: nat,
) -> Seq<u8> {
    serialize_chunk(
        ChunkView { id: RIFF, content: avi_body(movi, frames, samples, width, height, fps) },
    )
}

/// Builds the content of the video stream's list.
pub fn fabrivate_video_strl(dwLength: u32, dwRate: u32, width: i16, height: i16) -> (out: Vec<u8>)
    requires
        width >= 0,
        height >= 0,
    ensures
        out@ == video_strl(dwLength as nat, width as nat, height as nat, dwRate as nat),
        out@.len() == 112,
{
    let mut result: Vec<u8> = Vec::new();
    let header = hardcoded_avi_stream_header_vids(dwLength, dwRate, width, height).encode();
    let format = hardcoded_bitmap_info_header(width, height).encode();
    let first = Chunk { id: FOURCC::from_u32(STRH), content: header.as_slice() };
    let second = Chunk { id: FOURCC::from_u32(STRF), content: format.as_slice() };
    write_chunk(&mut result, &first);
    write_chunk(&mut result, &second);
    proof {
        reveal(video_strl);
        lemma_chunk_layout(first@);
        lemma_chunk_layout(second@);
        assert(Seq::<u8>::empty() + serialize_chunk(first@) =~= serialize_chunk(first@));
    }
    result
}

/// Builds the content of the audio stream's list.
pub fn fabrivate_audio_strl(dwLength: u32) -> (out: Vec<u8>)
    ensures
        out@ == audio_strl(dwLength as nat),
        out@.len() == 112,
{
    let mut result: Vec<u8> = Vec::new();
    let header = hardcoded_avi_stream_header_auds(dwLength).encode();
    let format = hardcoded_wave_format().encode();
    let first = Chunk { id: FOURCC::from_u32(STRH), content: header.as_slice() };
    let second = Chunk { id: FOURCC::from_u32(STRF), content: format.as_slice() };
    write_chunk(&mut result, &first);
    write_chunk(&mut result, &second);
    proof {
        reveal(audio_strl);
        lemma_chunk_layout(first@);
        lemma_chunk_layout(second@);
        assert(Seq::<u8>::empty() + serialize_chunk(first@) =~= serialize_chunk(first@));
    }
    result
}

/// Builds the content of the header list from the final counts: innermost
/// contents first, each size taken from what was built.
pub fn fabricate_hdrl(
    frames_count: usize,
    samples_count: usize,
    width: usize,
    height: usize,
    fps: usize,
) -> (out: Vec<u8>)
    requires
        capture_fits(
            frames_count as nat,
            samples_count as nat,
            width as nat,
            height as nat,
            fps as nat,
        ),
    ensures
        out@ == hdrl_body(
            frames_count as nat,
            samples_count as nat,
            width as nat,
            height as nat,
            fps as nat,
        ),
        out@.len() == HDRL_LEN,
{
    let mut result: Vec<u8> = Vec::new();
    let main = hardcoded_avi_main_header(frames_count as u32, width as u32, height as u32).encode();
    let video = fabrivate_video_strl(frames_count as u32, fps as u32, width as i16, height as i16);
    let audio = fabrivate_audio_strl(samples_count as u32);
    let first = Chunk { id: FOURCC::from_u32(AVIH), content: main.as_slice() };
    let second = List { list_type: FOURCC::from_u32(STRL), content: video.as_slice() };
    let third = List { list_type: FOURCC::from_u32(STRL), content: audio.as_slice() };
    write_chunk(&mut result, &first);
    write_list(&mut result, &second);
    write_list(&mut result, &third);
    proof {
        reveal(hdrl_body);
        lemma_chunk_layout(first@);
        lemma_list_layout(second@);
        lemma_list_layout(third@);
        assert(Seq::<u8>::empty() + serialize_chunk(first@) =~= serialize_chunk(first@));
    }
    result
}

/// Builds the content of the top-level chunk around the media chunks.
pub fn fabricate_avi(
    movi_bytes: &[u8],
    frames_count: usize,
    samples_count: usize,
    width: usize,
    height: usize,
    fps: usize,
) -> (out: Vec<u8>)
    requires
        capture_fits(
            frames_count as nat,
            samples_count as nat,
            width as nat,
            height as nat,
            fps as nat,
        ),
        movi_bytes@.len() + 4 <= u32::MAX,
    ensures
        out@ == avi_body(
            movi_bytes@,
            frames_count as nat,
            samples_count as nat,
            width as nat,
            height as nat,
            fps as nat,
        ),
        out@.len() == 340 + movi_bytes@.len(),
{
    let mut avi: Vec<u8> = Vec::new();
    put_u32(&mut avi, AVI_);
    let headers = fabricate_hdrl(frames_count, samples_count, width, height, fps);
    let first = List { list_type: FOURCC::from_u32(HDRL), content: headers.as_slice() };
    let second = List { list_type: FOURCC::from_u32(MOVI), content: movi_bytes };
    write_list(&mut avi, &first);
    write_list(&mut avi, &second);
    proof {
        reveal(avi_body);
        lemma_u32_of_le_bytes(AVI_);
        lemma_list_layout(first@);
        lemma_list_layout(second@);
        assert(Seq::<u8>::empty() + le_bytes_u32(AVI_) =~= le_bytes_u32(AVI_));
    }
    avi
}

/// Builds the bytes of a whole file: the top-level `RIFF` chunk, whose size is
/// that of everything built below it.
pub fn fabricate_avi_file(
    movi_bytes: &[u8],
    frames_count: usize,
    samples_count: usize,
    width: usize,
    height: usize,
    fps: usize,
) -> (out: Vec<u8>)
    requires
        capture_fits(
            frames_count as nat,
            samples_count as nat,
            width as nat,
            height as nat,
            fps as nat,
        ),
        movi_bytes@.len() + 340 <= u32::MAX,
    ensures
        out@ == avi_file(
            movi_bytes@,
            frames_count as nat,
            samples_count as nat,
            width as nat,
            height as nat,
            fps as nat,
        ),
        out@.len() == FILE_OVERHEAD + movi_bytes@.len() + movi_bytes@.len() % 2,
{
    let mut riff: Vec<u8> = Vec::new();
    let body = fabricate_avi(movi_bytes, frames_count, samples_count, width, height, fps);
    let top = Chunk { id: FOURCC::from_u32(RIFF), content: body.as_slice() };
    write_chunk(&mut riff, &top);
    proof {
        lemma_chunk_layout(top@);
        assert(Seq::<u8>::empty() + serialize_chunk(top@) =~= serialize_chunk(top@));
    }
    riff
}

/// Samples as bytes: each 32-bit pattern little-endian, in order.
pub open spec fn words_le(words: Seq<u32>) -> Seq<u8> {
    Seq::new(4 * words.len(), |i: int| le_bytes_u32(words[i / 4])[i % 4])
}

/// Writes samples out as bytes, each 32-bit pattern little-endian.
pub fn sound_bytes(sound: &[u32]) -> (out: Vec<u8>)
    ensures
        out@ == words_le(sound@),
        out@.len() == 4 * sound@.len(),
{
    let mut out: Vec<u8> = Vec::new();
    let mut i: usize = 0;
    while i < sound.len()
        invariant
            i <= sound@.len(),
            out@.len() == 4 * i,
            forall|j: int|
                0 <= j < 4 * i ==> #[trigger] out@[j] == le_bytes_u32(sound@[j / 4])[j % 4],
        decreases sound@.len() - i,
    {
        proof {
            lemma_u32_of_le_bytes(sound@[i as int]);
        }
        put_u32(&mut out, sound[i]);
        i += 1;
    }
    assert(out@ =~= words_le(sound@));
    out
}

/// Where a muxer stands: before `start`, between `start` and `finish`, after `finish`.
#[derive(Clone, Copy, PartialEq, Eq, Structural, Debug)]
pub enum Phase {
    Idle,
    Recording,
    Finished,
}

/// What a muxer is: its phase, the capture parameters it remembers, its
/// counters and the media chunks gathered so far.
pub struct MuxerView {
    pub phase: Phase,
    pub width: nat,
    pub height: nat,
    pub fps: nat,
    pub frame_count: nat,
    pub sample_count: nat,
    pub movi: Seq<u8>,
}

impl MuxerView {
    /// The muxer after one more tick: a `00dc` chunk of the canvas as BGR24,
    /// then a `01wb` chunk of the samples, behind what was gathered; one more
    /// frame and that many more samples counted.
    pub open spec fn recorded(self, canvas: Seq<u32>, sound: Seq<u32>) -> MuxerView {
        MuxerView {
            frame_count: self.frame_count + 1,
            sample_count: self.sample_count + sound.len(),
            movi: self.movi + serialize_chunk(
                ChunkView { id: VIDEO_CHUNK, content: bgr24(canvas) },
            ) + serialize_chunk(ChunkView { id: AUDIO_CHUNK, content: words_le(sound) }),
            ..self
        }
    }

    /// Whether one more tick of this canvas and these samples can be recorded:
    /// the muxer records, and every size field and counter can hold its value.
    pub open spec fn accepts(self, canvas: Seq<u32>, sound: Seq<u32>) -> bool {
        &&& self.phase == Phase::Recording
        &&& 3 * canvas.len() <= u32::MAX
        &&& 4 * sound.len() <= u32::MAX
        &&& self.frame_count < u32::MAX
        &&& self.sample_count + sound.len() <= u32::MAX
    }

    /// Whether the file can be assembled: the muxer records, and the size
    /// field of the top-level chunk can hold the file.
    pub open spec fn can_finish(self) -> bool {
        &&& self.phase == Phase::Recording
        &&& self.movi.len() + 340 <= u32::MAX
    }

    /// The bytes of the file that the muxer assembles.
    pub open spec fn file(self) -> Seq<u8> {
        avi_file(self.movi, self.frame_count, self.sample_count, self.width, self.height, self.fps)
    }
}

/// One tick of a recording: a canvas and the samples that go with it.
pub struct Tick {
    pub canvas: Seq<u32>,
    pub sound: Seq<u32>,
}

/// The muxer after the ticks were recorded in order.
pub open spec fn recorded_all(start: MuxerView, ticks: Seq<Tick>) -> MuxerView
    decreases ticks.len(),
{
    if ticks.len() == 0 {
        start
    } else {
        recorded_all(start, ticks.drop_last()).recorded(ticks.last().canvas, ticks.last().sound)
    }
}

/// The number of samples of all ticks.
pub open spec fn total_samples(ticks: Seq<Tick>) -> nat
    decreases ticks.len(),
{
    if ticks.len() == 0 {
        0
    } else {
        total_samples(ticks.drop_last()) + ticks.last().sound.len()
    }
}

/// Frame-count consistency: after `N` ticks with `M` samples in all, the
/// main header of the file holds `N` frames, the video stream header `N`, and
/// the audio stream header `M` samples, as far as 32 bits hold them.
pub proof fn lemma_frame_count_consistency(start: MuxerView, ticks: Seq<Tick>)
    requires
        start.frame_count == 0,
        start.sample_count == 0,
        ticks.len() <= u32::MAX,
        total_samples(ticks) <= u32::MAX,
    ensures
        recorded_all(start, ticks).frame_count == ticks.len(),
        recorded_all(start, ticks).sample_count == total_samples(ticks),
        recorded_all(start, ticks).phase == start.phase,
        recorded_all(start, ticks).width == start.width,
        recorded_all(start, ticks).height == start.height,
        recorded_all(start, ticks).fps == start.fps,
        main_header(
            recorded_all(start, ticks).frame_count as u32,
            start.width as u32,
            start.height as u32,
        ).dwTotalFrames == ticks.len(),
        video_stream_header(
            recorded_all(start, ticks).frame_count as u32,
            start.fps as u32,
            start.width as i16,
            start.height as i16,
        ).dwLength == ticks.len(),
        audio_stream_header(recorded_all(start, ticks).sample_count as u32).dwLength
            == total_samples(ticks),
    decreases ticks.len(),
{
    lemma_counts(start, ticks);
}

/// The counters after the ticks, whatever their size.
pub proof fn lemma_counts(start: MuxerView, ticks: Seq<Tick>)
    ensures
        recorded_all(start, ticks).frame_count == start.frame_count + ticks.len(),
        recorded_all(start, ticks).sample_count == start.sample_count + total_samples(ticks),
        recorded_all(start, ticks).phase == start.phase,
        recorded_all(start, ticks).width == start.width,
        recorded_all(start, ticks).height == start.height,
        recorded_all(start, ticks).fps == start.fps,
    decreases ticks.len(),
{
    if ticks.len() > 0 {
        lemma_counts(start, ticks.drop_last());
    }
}

/// The AVI muxer: it gathers the chunks of every tick and assembles the file.
#[derive(Debug)]
pub struct Container {
    frame_bgr24: FrameBGR24,
    movi: Vec<u8>,
    frame_count: usize,
    sample_count: usize,
    width: usize,
    height: usize,
    fps: usize,
    phase: Phase,
}

impl View for Container {
    type V = MuxerView;

    closed spec fn view(&self) -> MuxerView {
        MuxerView {
            phase: self.phase,
            width: self.width as nat,
            height: self.height as nat,
            fps: self.fps as nat,
            frame_count: self.frame_count as nat,
            sample_count: self.sample_count as nat,
            movi: self.movi@,
        }
    }
}

impl Container {
    /// The invariant of a muxer: while it records or has finished, every
    /// header field can hold what it remembers and has counted.
    pub closed spec fn wf(&self) -> bool {
        self.phase != Phase::Idle ==> capture_fits(
            self.frame_count as nat,
            self.sample_count as nat,
            self.width as nat,
            self.height as nat,
            self.fps as nat,
        )
    }

    /// An idle muxer that has gathered nothing.
    pub fn new() -> (muxer: Container)
        ensures
            muxer.wf(),
            muxer@ == (MuxerView {
                phase: Phase::Idle,
                width: 0,
                height: 0,
                fps: 0,
                frame_count: 0,
                sample_count: 0,
                movi: Seq::empty(),
            }),
    {
        Container {
            frame_bgr24: FrameBGR24::new(),
            movi: Vec::new(),
            frame_count: 0,
            sample_count: 0,
            width: 0,
            height: 0,
            fps: 0,
            phase: Phase::Idle,
        }
    }

    /// Begins a recording: the counters are reset, what was gathered is
    /// dropped, and the capture parameters are remembered for the headers.
    pub fn start(&mut self, width: usize, height: usize, fps: usize)
        requires
            width <= MAX_DIMENSION,
            height <= MAX_DIMENSION,
            fps <= u32::MAX,
        ensures
            final(self).wf(),
            final(self)@ == (MuxerView {
                phase: Phase::Recording,
                width: width as nat,
                height: height as nat,
                fps: fps as nat,
                frame_count: 0,
                sample_count: 0,
                movi: Seq::empty(),
            }),
    {
        self.frame_count = 0;
        self.sample_count = 0;
        self.movi.clear();
        self.width = width;
        self.height = height;
        self.fps = fps;
        self.phase = Phase::Recording;
    }

    /// Whether `frame` may be called with this canvas and these samples.
    pub fn accepts(&self, canvas: &[u32], sound: &[u32]) -> (b: bool)
        requires
            self.wf(),
        ensures
            b == self@.accepts(canvas@, sound@),
    {
        let most: usize = u32::MAX as usize;
        self.phase == Phase::Recording && canvas.len() <= most / 3 && sound.len() <= most / 4
            && self.frame_count < most && sound.len() <= most - self.sample_count
    }

    /// Records one tick: the canvas as a `00dc` chunk of BGR24 bytes, then the
    /// samples, given as the bit patterns of 32-bit floats, as a `01wb` chunk.
    /// Nothing is written anywhere but to the muxer's own buffer.
    pub fn frame(&mut self, canvas: &[u32], sound: &[u32])
        requires
            old(self).wf(),
            old(self)@.accepts(canvas@, sound@),
        ensures
            final(self).wf(),
            final(self)@ == old(self)@.recorded(canvas@, sound@),
    {
        self.frame_count += 1;
        self.sample_count += sound.len();
        self.frame_bgr24.from_canvas(canvas);
        let video = Chunk {
            id: FOURCC::from_u32(VIDEO_CHUNK),
            content: self.frame_bgr24.pixels.as_slice(),
        };
        write_chunk(&mut self.movi, &video);
        let samples = sound_bytes(sound);
        let audio = Chunk { id: FOURCC::from_u32(AUDIO_CHUNK), content: samples.as_slice() };
        write_chunk(&mut self.movi, &audio);
    }

    /// Whether `finish` may be called.
    pub fn can_finish(&self) -> (b: bool)
        ensures
            b == self@.can_finish(),
    {
        self.phase == Phase::Recording && self.movi.len() <= u32::MAX as usize - 340
    }

    /// Ends the recording and assembles the file from the final counts. The
    /// muxer is finished afterwards: it records no more and assembles no more.
    pub fn finish(&mut self) -> (file: Vec<u8>)
        requires
            old(self).wf(),
            old(self)@.can_finish(),
        ensures
            final(self).wf(),
            final(self)@ == (MuxerView { phase: Phase::Finished, ..old(self)@ }),
            file@ == old(self)@.file(),
            file@.len() == FILE_OVERHEAD + old(self)@.movi.len() + old(self)@.movi.len() % 2,
    {
        self.phase = Phase::Finished;
        fabricate_avi_file(
            self.movi.as_slice(),
            self.frame_count,
            self.sample_count,
            self.width,
            self.height,
            self.fps,
        )
    }

    /// The phase of the muxer.
    pub fn phase(&self) -> (p: Phase)
        ensures
            p == self@.phase,
    {
        self.phase
    }

    /// The number of ticks recorded.
    pub fn frame_count(&self) -> (n: usize)
        ensures
            n == self@.frame_count,
    {
        self.frame_count
    }

    /// The number of samples recorded.
    pub fn sample_count(&self) -> (n: usize)
        ensures
            n == self@.sample_count,
    {
        self.sample_count
    }

    /// The media chunks gathered so far.
    pub fn movi(&self) -> (bytes: &[u8])
        ensures
            bytes@ == self@.movi,
    {
        self.movi.as_slice()
    }
}

impl Default for Container {
    fn default() -> (muxer: Container)
        ensures
            muxer.wf(),
            muxer@ == (MuxerView {
                phase: Phase::Idle,
                width: 0,
                height: 0,
                fps: 0,
                frame_count: 0,
                sample_count: 0,
                movi: Seq::empty(),
            }),
    {
        Container::new()
    }
}

} // verus!
