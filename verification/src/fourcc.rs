//! Four-character codes: the tags that name every node of a RIFF tree.

use vstd::prelude::*;
use vstd::string::StringSliceAdditionalSpecFns;
use crate::le::{le_bytes_u32, u32_of_le, lemma_u32_of_le_bytes, lemma_le_bytes_of_u32};

verus! {

/// `"RIFF"`: the tag of the one top-level chunk of a file.
pub const RIFF: u32 = 0x46464952;

/// `"AVI "`: the form type of an AVI file.
pub const AVI_: u32 = 0x20495641;

/// `"LIST"`: the reserved tag that marks a node as a list.
pub const LIST: u32 = 0x5453494c;

/// `"hdrl"`: the list of headers.
pub const HDRL: u32 = 0x6c726468;

/// `"avih"`: the main header chunk.
pub const AVIH: u32 = 0x68697661;

/// `"strh"`: a stream header chunk.
pub const STRH: u32 = 0x68727473;

/// `"strf"`: a stream format chunk.
pub const STRF: u32 = 0x66727473;

/// `"strl"`: the list that describes one stream.
pub const STRL: u32 = 0x6c727473;

/// `"vids"`: the type of a video stream.
pub const VIDS: u32 = 0x73646976;

/// `"auds"`: the type of an audio stream.
pub const AUDS: u32 = 0x73647561;

/// `"movi"`: the list of interleaved media chunks.
pub const MOVI: u32 = 0x69766f6d;

/// `"00dc"`: a video chunk of stream 0.
pub const VIDEO_CHUNK: u32 = 0x63643030;

/// `"01wb"`: a waveform chunk of stream 1.
pub const AUDIO_CHUNK: u32 = 0x62773130;

/// A four-byte tag. Its integer reading is little-endian; two tags are equal
/// when their bytes are.
#[derive(Clone, Copy, PartialEq, Eq, Debug)]
pub struct FOURCC(pub [u8; 4]);

impl FOURCC {
    /// The tag's four bytes.
    pub open spec fn bytes(&self) -> Seq<u8> {
        self.0@
    }

    /// The tag read as a little-endian integer.
    pub open spec fn code(&self) -> u32 {
        u32_of_le(self.0@)
    }

    /// The tag whose integer reading is `x`.
    pub open spec fn of_code(x: u32) -> FOURCC {
        FOURCC(
            [(x % 256) as u8, (x / 256 % 256) as u8, (x / 65536 % 256) as u8, (x / 16777216) as u8],
        )
    }

    /// The tag spelled by a string of exactly four bytes; `None` for any other length.
    pub fn from_str(s: &str) -> (r: Option<FOURCC>)
        ensures
            r.is_some() <==> s.spec_bytes().len() == 4,
            r.is_some() ==> r.unwrap().bytes() == s.spec_bytes(),
    {
        let b = s.as_bytes();
        if b.len() == 4 {
            let tag = FOURCC([b[0], b[1], b[2], b[3]]);
            assert(tag.0@ =~= b@);
            Some(tag)
        } else {
            None
        }
    }

    /// Decodes a tag from its integer reading.
    pub fn from_u32(x: u32) -> (tag: FOURCC)
        ensures
            tag == FOURCC::of_code(x),
            tag.bytes() == le_bytes_u32(x),
            tag.code() == x,
    {
        let b0: u8 = (x % 256) as u8;
        let b1: u8 = (x / 256 % 256) as u8;
        let b2: u8 = (x / 65536 % 256) as u8;
        let b3: u8 = (x / 16777216) as u8;
        let tag = FOURCC([b0, b1, b2, b3]);
        proof {
            reveal(le_bytes_u32);
            assert(tag.0 =~= FOURCC::of_code(x).0);
            assert(tag.0@ =~= le_bytes_u32(x));
            lemma_u32_of_le_bytes(x);
        }
        tag
    }

    /// Encodes the tag as its integer reading.
    pub fn to_u32(&self) -> (x: u32)
        ensures
            x == self.code(),
            le_bytes_u32(x) == self.bytes(),
    {
        proof {
            lemma_le_bytes_of_u32(self.0@);
        }
        self.0[0] as u32 + self.0[1] as u32 * 256 + self.0[2] as u32 * 65536 + self.0[3] as u32
            * 16777216
    }
}

/// Identity: decoding what a tag encodes to gives the tag back, for every four
/// bytes, and encoding what an integer decodes to gives the integer back.
pub proof fn lemma_fourcc_identity(tag: FOURCC, x: u32)
    ensures
        FOURCC::of_code(tag.code()) == tag,
        FOURCC::of_code(x).code() == x,
        FOURCC::of_code(x).bytes() == le_bytes_u32(x),
        le_bytes_u32(tag.code()) == tag.bytes(),
{
    reveal(le_bytes_u32);
    lemma_le_bytes_of_u32(tag.0@);
    lemma_u32_of_le_bytes(x);
    assert(FOURCC::of_code(x).0@ =~= le_bytes_u32(x));
    assert(FOURCC::of_code(tag.code()).0@ =~= le_bytes_u32(tag.code()));
    assert(FOURCC::of_code(tag.code()).0 =~= tag.0);
}

} // verus!
