//! Codecs for two multimedia containers, with machine-checked contracts.
//!
//! - `le`, `fourcc`: little-endian integers and four-character codes.
//! - `riff`: the chunk/list tree codec that every RIFF format shares.
//! - `headers`: the fixed-layout header records of an AVI file.
//! - `color`: pixels, BGR24 frames and YCbCr planes.
//! - `avi`: header fabrication and the AVI muxer.
//! - `parser`: the AVI parser and extractor, and the structure dumper.
//! - `yuv4mpeg2`: the YUV4MPEG2 muxer.
//! - `render`: the steps of an offline render.
//! - `roundtrip`: what the parser reads from what the muxer wrote.
#![allow(non_snake_case)]
#![allow(non_camel_case_types)]

pub mod le;
pub mod fourcc;
pub mod riff;
pub mod color;
pub mod headers;
pub mod avi;
pub mod yuv4mpeg2;
pub mod parser;
pub mod render;
pub mod roundtrip;
