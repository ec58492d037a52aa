//! The fixed-layout header records of an AVI file, written and read field by
//! field at their declared offsets.

use vstd::prelude::*;
use vstd::array::array_as_slice;
use crate::fourcc::{FOURCC, lemma_fourcc_identity};
use crate::le::{
    le_bytes_u32, le_bytes_u16, u32_at, u16_at, bits_of_i32, i32_of_bits, bits_of_i16,
    i16_of_bits, read_u32, read_u16, read_i32, read_i16, put_u32, put_u16, put_i32, put_i16,
    put_bytes, lemma_u32_at_is, lemma_u16_at_is, lemma_u32_of_le_bytes,
};

verus! {

/// Reads eight bytes at `off`.
fn read_bytes8(content: &[u8], off: usize) -> (a: [u8; 8])
    requires
        off + 8 <= content@.len(),
    ensures
        a == [
            content@[off as int],
            content@[off + 1],
            content@[off + 2],
            content@[off + 3],
            content@[off + 4],
            content@[off + 5],
            content@[off + 6],
            content@[off + 7],
        ],
{
    let a: [u8; 8] = [
        content[off],
        content[off + 1],
        content[off + 2],
        content[off + 3],
        content[off + 4],
        content[off + 5],
        content[off + 6],
        content[off + 7],
    ];
    assert(a =~= [
        content@[off as int],
        content@[off + 1],
        content@[off + 2],
        content@[off + 3],
        content@[off + 4],
        content@[off + 5],
        content@[off + 6],
        content@[off + 7],
    ]);
    a
}

/// A frame rectangle: four signed 16-bit edges.
#[derive(Clone, Copy, PartialEq, Eq, Debug)]
pub struct RECT {
    pub left: i16,
    pub top: i16,
    pub right: i16,
    pub bottom: i16,
}

impl RECT {
    /// The bytes of the record in a file: each field little-endian, in order, with
    /// nothing between them.
    #[verifier::opaque]
    pub open spec fn encoding(&self) -> Seq<u8> {
        le_bytes_u16(bits_of_i16(self.left))
            + le_bytes_u16(bits_of_i16(self.top))
            + le_bytes_u16(bits_of_i16(self.right))
            + le_bytes_u16(bits_of_i16(self.bottom))
    }

    /// The record that the first 8 bytes of `s` hold, field by field.
    #[verifier::opaque]
    pub open spec fn decoding(s: Seq<u8>) -> RECT {
        RECT {
            left: i16_of_bits(u16_at(s, 0)),
            top: i16_of_bits(u16_at(s, 2)),
            right: i16_of_bits(u16_at(s, 4)),
            bottom: i16_of_bits(u16_at(s, 6)),
        }
    }

    /// Writes the record out field by field.
    pub fn encode(&self) -> (out: Vec<u8>)
        ensures
            out@ == self.encoding(),
            out@.len() == 8,
    {
        reveal(RECT::encoding);
        let mut out: Vec<u8> = Vec::new();
        put_i16(&mut out, self.left);
        assert(out@ =~= le_bytes_u16(bits_of_i16(self.left)));
        put_i16(&mut out, self.top);
        put_i16(&mut out, self.right);
        put_i16(&mut out, self.bottom);
        out
    }

    /// Reads the record from the first 8 bytes of `content`, field by field.
    pub fn decode(content: &[u8]) -> (h: RECT)
        requires
            content@.len() >= 8,
        ensures
            h == RECT::decoding(content@),
    {
        reveal(RECT::decoding);
        RECT {
            left: read_i16(content, 0),
            top: read_i16(content, 2),
            right: read_i16(content, 4),
            bottom: read_i16(content, 6),
        }
    }
}

/// Round trip: the written record, followed by anything, decodes to the record.
pub proof fn lemma_decode_encoded_rect(h: RECT, rest: Seq<u8>)
    ensures
        h.encoding().len() == 8,
        RECT::decoding(h.encoding() + rest) == h,
{
    reveal(RECT::encoding);
    reveal(RECT::decoding);
    let s = h.encoding() + rest;
    lemma_u16_at_is(s, 0, bits_of_i16(h.left));
    lemma_u16_at_is(s, 2, bits_of_i16(h.top));
    lemma_u16_at_is(s, 4, bits_of_i16(h.right));
    lemma_u16_at_is(s, 6, bits_of_i16(h.bottom));
}

/// The main header of an AVI file: ten fields and four reserved words, 56
/// bytes. The order of the fields is the order in the file.
#[derive(Clone, Copy, PartialEq, Eq, Debug)]
pub struct AVIMainHeader {
    /// Frame period in microseconds.
    pub dwMicroSecPerFrame: u32,
    pub dwMaxBytesPerSec: u32,
    pub dwPaddingGranularity: u32,
    pub dwFlags: u32,
    /// The number of video chunks in `movi`.
    pub dwTotalFrames: u32,
    pub dwInitialFrames: u32,
    pub dwStreams: u32,
    pub dwSuggestedBufferSize: u32,
    pub dwWidth: u32,
    pub dwHeight: u32,
    pub dwReserved0: u32,
    pub dwReserved1: u32,
    pub dwReserved2: u32,
    pub dwReserved3: u32,
}

impl AVIMainHeader {
    /// The bytes of the record in a file: each field little-endian, in order, with
    /// nothing between them.
    #[verifier::opaque]
    pub open spec fn encoding(&self) -> Seq<u8> {
        le_bytes_u32(self.dwMicroSecPerFrame)
            + le_bytes_u32(self.dwMaxBytesPerSec)
            + le_bytes_u32(self.dwPaddingGranularity)
            + le_bytes_u32(self.dwFlags)
            + le_bytes_u32(self.dwTotalFrames)
            + le_bytes_u32(self.dwInitialFrames)
            + le_bytes_u32(self.dwStreams)
            + le_bytes_u32(self.dwSuggestedBufferSize)
            + le_bytes_u32(self.dwWidth)
            + le_bytes_u32(self.dwHeight)
            + le_bytes_u32(self.dwReserved0)
            + le_bytes_u32(self.dwReserved1)
            + le_bytes_u32(self.dwReserved2)
            + le_bytes_u32(self.dwReserved3)
    }

    /// The record that the first 56 bytes of `s` hold, field by field.
    #[verifier::opaque]
    pub open spec fn decoding(s: Seq<u8>) -> AVIMainHeader {
        AVIMainHeader {
            dwMicroSecPerFrame: u32_at(s, 0),
            dwMaxBytesPerSec: u32_at(s, 4),
            dwPaddingGranularity: u32_at(s, 8),
            dwFlags: u32_at(s, 12),
            dwTotalFrames: u32_at(s, 16),
            dwInitialFrames: u32_at(s, 20),
            dwStreams: u32_at(s, 24),
            dwSuggestedBufferSize: u32_at(s, 28),
            dwWidth: u32_at(s, 32),
            dwHeight: u32_at(s, 36),
            dwReserved0: u32_at(s, 40),
            dwReserved1: u32_at(s, 44),
            dwReserved2: u32_at(s, 48),
            dwReserved3: u32_at(s, 52),
        }
    }

    /// Writes the record out field by field.
    pub fn encode(&self) -> (out: Vec<u8>)
        ensures
            out@ == self.encoding(),
            out@.len() == 56,
    {
        reveal(AVIMainHeader::encoding);
        let mut out: Vec<u8> = Vec::new();
        put_u32(&mut out, self.dwMicroSecPerFrame);
        assert(out@ =~= le_bytes_u32(self.dwMicroSecPerFrame));
        put_u32(&mut out, self.dwMaxBytesPerSec);
        put_u32(&mut out, self.dwPaddingGranularity);
        put_u32(&mut out, self.dwFlags);
        put_u32(&mut out, self.dwTotalFrames);
        put_u32(&mut out, self.dwInitialFrames);
        put_u32(&mut out, self.dwStreams);
        put_u32(&mut out, self.dwSuggestedBufferSize);
        put_u32(&mut out, self.dwWidth);
        put_u32(&mut out, self.dwHeight);
        put_u32(&mut out, self.dwReserved0);
        put_u32(&mut out, self.dwReserved1);
        put_u32(&mut out, self.dwReserved2);
        put_u32(&mut out, self.dwReserved3);
        out
    }

    /// Reads the record from the first 56 bytes of `content`, field by field.
    pub fn decode(content: &[u8]) -> (h: AVIMainHeader)
        requires
            content@.len() >= 56,
        ensures
            h == AVIMainHeader::decoding(content@),
    {
        reveal(AVIMainHeader::decoding);
        AVIMainHeader {
            dwMicroSecPerFrame: read_u32(content, 0),
            dwMaxBytesPerSec: read_u32(content, 4),
            dwPaddingGranularity: read_u32(content, 8),
            dwFlags: read_u32(content, 12),
            dwTotalFrames: read_u32(content, 16),
            dwInitialFrames: read_u32(content, 20),
            dwStreams: read_u32(content, 24),
            dwSuggestedBufferSize: read_u32(content, 28),
            dwWidth: read_u32(content, 32),
            dwHeight: read_u32(content, 36),
            dwReserved0: read_u32(content, 40),
            dwReserved1: read_u32(content, 44),
            dwReserved2: read_u32(content, 48),
            dwReserved3: read_u32(content, 52),
        }
    }
}

/// Round trip: the written record, followed by anything, decodes to the record.
pub proof fn lemma_decode_encoded_main_header(h: AVIMainHeader, rest: Seq<u8>)
    ensures
        h.encoding().len() == 56,
        AVIMainHeader::decoding(h.encoding() + rest) == h,
{
    reveal(AVIMainHeader::encoding);
    reveal(AVIMainHeader::decoding);
    let s = h.encoding() + rest;
    lemma_u32_of_le_bytes(h.dwMicroSecPerFrame);
    lemma_u32_of_le_bytes(h.dwMaxBytesPerSec);
    lemma_u32_of_le_bytes(h.dwPaddingGranularity);
    lemma_u32_of_le_bytes(h.dwFlags);
    lemma_u32_of_le_bytes(h.dwTotalFrames);
    lemma_u32_of_le_bytes(h.dwInitialFrames);
    lemma_u32_of_le_bytes(h.dwStreams);
    lemma_u32_of_le_bytes(h.dwSuggestedBufferSize);
    lemma_u32_of_le_bytes(h.dwWidth);
    lemma_u32_of_le_bytes(h.dwHeight);
    lemma_u32_of_le_bytes(h.dwReserved0);
    lemma_u32_of_le_bytes(h.dwReserved1);
    lemma_u32_of_le_bytes(h.dwReserved2);
    lemma_u32_of_le_bytes(h.dwReserved3);
    lemma_u32_at_is(s, 0, h.dwMicroSecPerFrame);
    lemma_u32_at_is(s, 4, h.dwMaxBytesPerSec);
    lemma_u32_at_is(s, 8, h.dwPaddingGranularity);
    lemma_u32_at_is(s, 12, h.dwFlags);
    lemma_u32_at_is(s, 16, h.dwTotalFrames);
    lemma_u32_at_is(s, 20, h.dwInitialFrames);
    lemma_u32_at_is(s, 24, h.dwStreams);
    lemma_u32_at_is(s, 28, h.dwSuggestedBufferSize);
    lemma_u32_at_is(s, 32, h.dwWidth);
    lemma_u32_at_is(s, 36, h.dwHeight);
    lemma_u32_at_is(s, 40, h.dwReserved0);
    lemma_u32_at_is(s, 44, h.dwReserved1);
    lemma_u32_at_is(s, 48, h.dwReserved2);
    lemma_u32_at_is(s, 52, h.dwReserved3);
}

/// The header of one stream, 56 bytes. `dwRate / dwScale` is the stream's time base.
#[derive(Clone, Copy, PartialEq, Eq, Debug)]
pub struct AVIStreamHeader {
    pub fccType: FOURCC,
    pub fccHandler: FOURCC,
    pub dwFlags: u32,
    pub wPriority: u16,
    pub wLanguage: u16,
    pub dwInitialFrames: u32,
    pub dwScale: u32,
    pub dwRate: u32,
    pub dwStart: u32,
    /// The length of the stream, in units of its time base.
    pub dwLength: u32,
    pub dwSuggestedBufferSize: u32,
    pub dwQuality: u32,
    pub dwSampleSize: u32,
    pub rcFrame: RECT,
}

impl AVIStreamHeader {
    /// The bytes of the record in a file: each field little-endian, in order, with
    /// nothing between them.
    #[verifier::opaque]
    pub open spec fn encoding(&self) -> Seq<u8> {
        le_bytes_u32(self.fccType.code())
            + le_bytes_u32(self.fccHandler.code())
            + le_bytes_u32(self.dwFlags)
            + le_bytes_u16(self.wPriority)
            + le_bytes_u16(self.wLanguage)
            + le_bytes_u32(self.dwInitialFrames)
            + le_bytes_u32(self.dwScale)
            + le_bytes_u32(self.dwRate)
            + le_bytes_u32(self.dwStart)
            + le_bytes_u32(self.dwLength)
            + le_bytes_u32(self.dwSuggestedBufferSize)
            + le_bytes_u32(self.dwQuality)
            + le_bytes_u32(self.dwSampleSize)
            + le_bytes_u16(bits_of_i16(self.rcFrame.left))
            + le_bytes_u16(bits_of_i16(self.rcFrame.top))
            + le_bytes_u16(bits_of_i16(self.rcFrame.right))
            + le_bytes_u16(bits_of_i16(self.rcFrame.bottom))
    }

    /// The record that the first 56 bytes of `s` hold, field by field.
    #[verifier::opaque]
    pub open spec fn decoding(s: Seq<u8>) -> AVIStreamHeader {
        AVIStreamHeader {
            fccType: FOURCC::of_code(u32_at(s, 0)),
            fccHandler: FOURCC::of_code(u32_at(s, 4)),
            dwFlags: u32_at(s, 8),
            wPriority: u16_at(s, 12),
            wLanguage: u16_at(s, 14),
            dwInitialFrames: u32_at(s, 16),
            dwScale: u32_at(s, 20),
            dwRate: u32_at(s, 24),
            dwStart: u32_at(s, 28),
            dwLength: u32_at(s, 32),
            dwSuggestedBufferSize: u32_at(s, 36),
            dwQuality: u32_at(s, 40),
            dwSampleSize: u32_at(s, 44),
            rcFrame: RECT {
                left: i16_of_bits(u16_at(s, 48)),
                top: i16_of_bits(u16_at(s, 50)),
                right: i16_of_bits(u16_at(s, 52)),
                bottom: i16_of_bits(u16_at(s, 54)),
            },
        }
    }

    /// Writes the record out field by field.
    pub fn encode(&self) -> (out: Vec<u8>)
        ensures
            out@ == self.encoding(),
            out@.len() == 56,
    {
        reveal(AVIStreamHeader::encoding);
        let mut out: Vec<u8> = Vec::new();
        put_u32(&mut out, self.fccType.to_u32());
        assert(out@ =~= le_bytes_u32(self.fccType.code()));
        put_u32(&mut out, self.fccHandler.to_u32());
        put_u32(&mut out, self.dwFlags);
        put_u16(&mut out, self.wPriority);
        put_u16(&mut out, self.wLanguage);
        put_u32(&mut out, self.dwInitialFrames);
        put_u32(&mut out, self.dwScale);
        put_u32(&mut out, self.dwRate);
        put_u32(&mut out, self.dwStart);
        put_u32(&mut out, self.dwLength);
        put_u32(&mut out, self.dwSuggestedBufferSize);
        put_u32(&mut out, self.dwQuality);
        put_u32(&mut out, self.dwSampleSize);
        put_i16(&mut out, self.rcFrame.left);
        put_i16(&mut out, self.rcFrame.top);
        put_i16(&mut out, self.rcFrame.right);
        put_i16(&mut out, self.rcFrame.bottom);
        out
    }

    /// Reads the record from the first 56 bytes of `content`, field by field.
    pub fn decode(content: &[u8]) -> (h: AVIStreamHeader)
        requires
            content@.len() >= 56,
        ensures
            h == AVIStreamHeader::decoding(content@),
    {
        reveal(AVIStreamHeader::decoding);
        AVIStreamHeader {
            fccType: FOURCC::from_u32(read_u32(content, 0)),
            fccHandler: FOURCC::from_u32(read_u32(content, 4)),
            dwFlags: read_u32(content, 8),
            wPriority: read_u16(content, 12),
            wLanguage: read_u16(content, 14),
            dwInitialFrames: read_u32(content, 16),
            dwScale: read_u32(content, 20),
            dwRate: read_u32(content, 24),
            dwStart: read_u32(content, 28),
            dwLength: read_u32(content, 32),
            dwSuggestedBufferSize: read_u32(content, 36),
            dwQuality: read_u32(content, 40),
            dwSampleSize: read_u32(content, 44),
            rcFrame: RECT {
                left: read_i16(content, 48),
                top: read_i16(content, 50),
                right: read_i16(content, 52),
                bottom: read_i16(content, 54),
            },
        }
    }
}

/// Round trip: the written record, followed by anything, decodes to the record.
pub proof fn lemma_decode_encoded_stream_header(h: AVIStreamHeader, rest: Seq<u8>)
    ensures
        h.encoding().len() == 56,
        AVIStreamHeader::decoding(h.encoding() + rest) == h,
{
    reveal(AVIStreamHeader::encoding);
    reveal(AVIStreamHeader::decoding);
    let s = h.encoding() + rest;
    lemma_u32_of_le_bytes(h.fccType.code());
    lemma_u32_of_le_bytes(h.fccHandler.code());
    lemma_u32_of_le_bytes(h.dwFlags);
    lemma_u32_of_le_bytes(h.dwInitialFrames);
    lemma_u32_of_le_bytes(h.dwScale);
    lemma_u32_of_le_bytes(h.dwRate);
    lemma_u32_of_le_bytes(h.dwStart);
    lemma_u32_of_le_bytes(h.dwLength);
    lemma_u32_of_le_bytes(h.dwSuggestedBufferSize);
    lemma_u32_of_le_bytes(h.dwQuality);
    lemma_u32_of_le_bytes(h.dwSampleSize);
    lemma_u32_at_is(s, 0, h.fccType.code());
    lemma_fourcc_identity(h.fccType, 0);
    lemma_u32_at_is(s, 4, h.fccHandler.code());
    lemma_fourcc_identity(h.fccHandler, 0);
    lemma_u32_at_is(s, 8, h.dwFlags);
    lemma_u16_at_is(s, 12, h.wPriority);
    lemma_u16_at_is(s, 14, h.wLanguage);
    lemma_u32_at_is(s, 16, h.dwInitialFrames);
    lemma_u32_at_is(s, 20, h.dwScale);
    lemma_u32_at_is(s, 24, h.dwRate);
    lemma_u32_at_is(s, 28, h.dwStart);
    lemma_u32_at_is(s, 32, h.dwLength);
    lemma_u32_at_is(s, 36, h.dwSuggestedBufferSize);
    lemma_u32_at_is(s, 40, h.dwQuality);
    lemma_u32_at_is(s, 44, h.dwSampleSize);
    lemma_u16_at_is(s, 48, bits_of_i16(h.rcFrame.left));
    lemma_u16_at_is(s, 50, bits_of_i16(h.rcFrame.top));
    lemma_u16_at_is(s, 52, bits_of_i16(h.rcFrame.right));
    lemma_u16_at_is(s, 54, bits_of_i16(h.rcFrame.bottom));
}

/// The format of a video stream, 40 bytes. A negative height says that rows run top-down.
#[derive(Clone, Copy, PartialEq, Eq, Debug)]
pub struct BITMAPINFOHEADER {
    pub biSize: u32,
    pub biWidth: i32,
    pub biHeight: i32,
    pub biPlanes: u16,
    pub biBitCount: u16,
    pub biCompression: u32,
    pub biSizeImage: u32,
    pub biXPelsPerMeter: i32,
    pub biYPelsPerMeter: i32,
    pub biClrUsed: u32,
    pub biClrImportant: u32,
}

impl BITMAPINFOHEADER {
    /// The bytes of the record in a file: each field little-endian, in order, with
    /// nothing between them.
    #[verifier::opaque]
    pub open spec fn encoding(&self) -> Seq<u8> {
        le_bytes_u32(self.biSize)
            + le_bytes_u32(bits_of_i32(self.biWidth))
            + le_bytes_u32(bits_of_i32(self.biHeight))
            + le_bytes_u16(self.biPlanes)
            + le_bytes_u16(self.biBitCount)
            + le_bytes_u32(self.biCompression)
            + le_bytes_u32(self.biSizeImage)
            + le_bytes_u32(bits_of_i32(self.biXPelsPerMeter))
            + le_bytes_u32(bits_of_i32(self.biYPelsPerMeter))
            + le_bytes_u32(self.biClrUsed)
            + le_bytes_u32(self.biClrImportant)
    }

    /// The record that the first 40 bytes of `s` hold, field by field.
    #[verifier::opaque]
    pub open spec fn decoding(s: Seq<u8>) -> BITMAPINFOHEADER {
        BITMAPINFOHEADER {
            biSize: u32_at(s, 0),
            biWidth: i32_of_bits(u32_at(s, 4)),
            biHeight: i32_of_bits(u32_at(s, 8)),
            biPlanes: u16_at(s, 12),
            biBitCount: u16_at(s, 14),
            biCompression: u32_at(s, 16),
            biSizeImage: u32_at(s, 20),
            biXPelsPerMeter: i32_of_bits(u32_at(s, 24)),
            biYPelsPerMeter: i32_of_bits(u32_at(s, 28)),
            biClrUsed: u32_at(s, 32),
            biClrImportant: u32_at(s, 36),
        }
    }

    /// Writes the record out field by field.
    pub fn encode(&self) -> (out: Vec<u8>)
        ensures
            out@ == self.encoding(),
            out@.len() == 40,
    {
        reveal(BITMAPINFOHEADER::encoding);
        let mut out: Vec<u8> = Vec::new();
        put_u32(&mut out, self.biSize);
        assert(out@ =~= le_bytes_u32(self.biSize));
        put_i32(&mut out, self.biWidth);
        put_i32(&mut out, self.biHeight);
        put_u16(&mut out, self.biPlanes);
        put_u16(&mut out, self.biBitCount);
        put_u32(&mut out, self.biCompression);
        put_u32(&mut out, self.biSizeImage);
        put_i32(&mut out, self.biXPelsPerMeter);
        put_i32(&mut out, self.biYPelsPerMeter);
        put_u32(&mut out, self.biClrUsed);
        put_u32(&mut out, self.biClrImportant);
        out
    }

    /// Reads the record from the first 40 bytes of `content`, field by field.
    pub fn decode(content: &[u8]) -> (h: BITMAPINFOHEADER)
        requires
            content@.len() >= 40,
        ensures
            h == BITMAPINFOHEADER::decoding(content@),
    {
        reveal(BITMAPINFOHEADER::decoding);
        BITMAPINFOHEADER {
            biSize: read_u32(content, 0),
            biWidth: read_i32(content, 4),
            biHeight: read_i32(content, 8),
            biPlanes: read_u16(content, 12),
            biBitCount: read_u16(content, 14),
            biCompression: read_u32(content, 16),
            biSizeImage: read_u32(content, 20),
            biXPelsPerMeter: read_i32(content, 24),
            biYPelsPerMeter: read_i32(content, 28),
            biClrUsed: read_u32(content, 32),
            biClrImportant: read_u32(content, 36),
        }
    }
}

/// Round trip: the written record, followed by anything, decodes to the record.
pub proof fn lemma_decode_encoded_bitmap_info(h: BITMAPINFOHEADER, rest: Seq<u8>)
    ensures
        h.encoding().len() == 40,
        BITMAPINFOHEADER::decoding(h.encoding() + rest) == h,
{
    reveal(BITMAPINFOHEADER::encoding);
    reveal(BITMAPINFOHEADER::decoding);
    let s = h.encoding() + rest;
    lemma_u32_of_le_bytes(h.biSize);
    lemma_u32_of_le_bytes(bits_of_i32(h.biWidth));
    lemma_u32_of_le_bytes(bits_of_i32(h.biHeight));
    lemma_u32_of_le_bytes(h.biCompression);
    lemma_u32_of_le_bytes(h.biSizeImage);
    lemma_u32_of_le_bytes(bits_of_i32(h.biXPelsPerMeter));
    lemma_u32_of_le_bytes(bits_of_i32(h.biYPelsPerMeter));
    lemma_u32_of_le_bytes(h.biClrUsed);
    lemma_u32_of_le_bytes(h.biClrImportant);
    lemma_u32_at_is(s, 0, h.biSize);
    lemma_u32_at_is(s, 4, bits_of_i32(h.biWidth));
    lemma_u32_at_is(s, 8, bits_of_i32(h.biHeight));
    lemma_u16_at_is(s, 12, h.biPlanes);
    lemma_u16_at_is(s, 14, h.biBitCount);
    lemma_u32_at_is(s, 16, h.biCompression);
    lemma_u32_at_is(s, 20, h.biSizeImage);
    lemma_u32_at_is(s, 24, bits_of_i32(h.biXPelsPerMeter));
    lemma_u32_at_is(s, 28, bits_of_i32(h.biYPelsPerMeter));
    lemma_u32_at_is(s, 32, h.biClrUsed);
    lemma_u32_at_is(s, 36, h.biClrImportant);
}

/// The base wave format: 18 bytes, packed.
#[derive(Clone, Copy, PartialEq, Eq, Debug)]
pub struct WAVEFORMATEX {
    pub wFormatTag: u16,
    pub nChannels: u16,
    pub nSamplesPerSec: u32,
    pub nAvgBytesPerSec: u32,
    pub nBlockAlign: u16,
    pub wBitsPerSample: u16,
    pub cbSize: u16,
}

/// A 16-byte identifier of a sub-format.
#[derive(Clone, Copy, PartialEq, Eq, Debug)]
pub struct GUID {
    pub Data1: u32,
    pub Data2: u16,
    pub Data3: u16,
    pub Data4: [u8; 8],
}

/// The format of an audio stream, 40 bytes, packed. `Samples` is valid bits
/// per sample, samples per block or reserved, as the consumer reads the stream:
/// the file says nothing of which.
#[derive(Clone, Copy, PartialEq, Eq, Debug)]
pub struct WAVEFORMATEXTENSIBLE {
    pub Format: WAVEFORMATEX,
    pub Samples: u16,
    pub dwChannelMask: u32,
    pub SubFormat: GUID,
}

impl WAVEFORMATEXTENSIBLE {
    /// The bytes of the record in a file: each field little-endian, in order, with
    /// nothing between them.
    #[verifier::opaque]
    pub open spec fn encoding(&self) -> Seq<u8> {
        le_bytes_u16(self.Format.wFormatTag)
            + le_bytes_u16(self.Format.nChannels)
            + le_bytes_u32(self.Format.nSamplesPerSec)
            + le_bytes_u32(self.Format.nAvgBytesPerSec)
            + le_bytes_u16(self.Format.nBlockAlign)
            + le_bytes_u16(self.Format.wBitsPerSample)
            + le_bytes_u16(self.Format.cbSize)
            + le_bytes_u16(self.Samples)
            + le_bytes_u32(self.dwChannelMask)
            + le_bytes_u32(self.SubFormat.Data1)
            + le_bytes_u16(self.SubFormat.Data2)
            + le_bytes_u16(self.SubFormat.Data3)
            + self.SubFormat.Data4@
    }

    /// The record that the first 40 bytes of `s` hold, field by field.
    #[verifier::opaque]
    pub open spec fn decoding(s: Seq<u8>) -> WAVEFORMATEXTENSIBLE {
        WAVEFORMATEXTENSIBLE {
            Format: WAVEFORMATEX {
                wFormatTag: u16_at(s, 0),
                nChannels: u16_at(s, 2),
                nSamplesPerSec: u32_at(s, 4),
                nAvgBytesPerSec: u32_at(s, 8),
                nBlockAlign: u16_at(s, 12),
                wBitsPerSample: u16_at(s, 14),
                cbSize: u16_at(s, 16),
            },
            Samples: u16_at(s, 18),
            dwChannelMask: u32_at(s, 20),
            SubFormat: GUID {
                Data1: u32_at(s, 24),
                Data2: u16_at(s, 28),
                Data3: u16_at(s, 30),
                Data4: [s[32], s[33], s[34], s[35], s[36], s[37], s[38], s[39]],
            },
        }
    }

    /// Writes the record out field by field.
    pub fn encode(&self) -> (out: Vec<u8>)
        ensures
            out@ == self.encoding(),
            out@.len() == 40,
    {
        reveal(WAVEFORMATEXTENSIBLE::encoding);
        let mut out: Vec<u8> = Vec::new();
        put_u16(&mut out, self.Format.wFormatTag);
        assert(out@ =~= le_bytes_u16(self.Format.wFormatTag));
        put_u16(&mut out, self.Format.nChannels);
        put_u32(&mut out, self.Format.nSamplesPerSec);
        put_u32(&mut out, self.Format.nAvgBytesPerSec);
        put_u16(&mut out, self.Format.nBlockAlign);
        put_u16(&mut out, self.Format.wBitsPerSample);
        put_u16(&mut out, self.Format.cbSize);
        put_u16(&mut out, self.Samples);
        put_u32(&mut out, self.dwChannelMask);
        put_u32(&mut out, self.SubFormat.Data1);
        put_u16(&mut out, self.SubFormat.Data2);
        put_u16(&mut out, self.SubFormat.Data3);
        put_bytes(&mut out, array_as_slice(&self.SubFormat.Data4));
        out
    }

    /// Reads the record from the first 40 bytes of `content`, field by field.
    pub fn decode(content: &[u8]) -> (h: WAVEFORMATEXTENSIBLE)
        requires
            content@.len() >= 40,
        ensures
            h == WAVEFORMATEXTENSIBLE::decoding(content@),
    {
        reveal(WAVEFORMATEXTENSIBLE::decoding);
        WAVEFORMATEXTENSIBLE {
            Format: WAVEFORMATEX {
                wFormatTag: read_u16(content, 0),
                nChannels: read_u16(content, 2),
                nSamplesPerSec: read_u32(content, 4),
                nAvgBytesPerSec: read_u32(content, 8),
                nBlockAlign: read_u16(content, 12),
                wBitsPerSample: read_u16(content, 14),
                cbSize: read_u16(content, 16),
            },
            Samples: read_u16(content, 18),
            dwChannelMask: read_u32(content, 20),
            SubFormat: GUID {
                Data1: read_u32(content, 24),
                Data2: read_u16(content, 28),
                Data3: read_u16(content, 30),
                Data4: read_bytes8(content, 32),
            },
        }
    }
}

/// Round trip: the written record, followed by anything, decodes to the record.
pub proof fn lemma_decode_encoded_wave_format(h: WAVEFORMATEXTENSIBLE, rest: Seq<u8>)
    ensures
        h.encoding().len() == 40,
        WAVEFORMATEXTENSIBLE::decoding(h.encoding() + rest) == h,
{
    reveal(WAVEFORMATEXTENSIBLE::encoding);
    reveal(WAVEFORMATEXTENSIBLE::decoding);
    let s = h.encoding() + rest;
    lemma_u32_of_le_bytes(h.Format.nSamplesPerSec);
    lemma_u32_of_le_bytes(h.Format.nAvgBytesPerSec);
    lemma_u32_of_le_bytes(h.dwChannelMask);
    lemma_u32_of_le_bytes(h.SubFormat.Data1);
    lemma_u16_at_is(s, 0, h.Format.wFormatTag);
    lemma_u16_at_is(s, 2, h.Format.nChannels);
    lemma_u32_at_is(s, 4, h.Format.nSamplesPerSec);
    lemma_u32_at_is(s, 8, h.Format.nAvgBytesPerSec);
    lemma_u16_at_is(s, 12, h.Format.nBlockAlign);
    lemma_u16_at_is(s, 14, h.Format.wBitsPerSample);
    lemma_u16_at_is(s, 16, h.Format.cbSize);
    lemma_u16_at_is(s, 18, h.Samples);
    lemma_u32_at_is(s, 20, h.dwChannelMask);
    lemma_u32_at_is(s, 24, h.SubFormat.Data1);
    lemma_u16_at_is(s, 28, h.SubFormat.Data2);
    lemma_u16_at_is(s, 30, h.SubFormat.Data3);
    assert(WAVEFORMATEXTENSIBLE::decoding(s).SubFormat.Data4 =~= h.SubFormat.Data4);
}

} // verus!
