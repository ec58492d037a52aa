use riff_mux::color::{FrameBGR24, FrameYCbCr, YCbCr};
use riff_mux::fourcc::{
    FOURCC, AUDIO_CHUNK, AUDS, AVIH, AVI_, HDRL, LIST, MOVI, RIFF, STRF, STRH, STRL, VIDEO_CHUNK,
    VIDS,
};
use riff_mux::le::{put_bytes, put_i16, put_i32, put_u16, put_u32, read_i16, read_i32, read_u16, read_u32};
use riff_mux::riff::{
    chop_chunk, chop_entries, chop_entry, chop_list, chop_u32, entry_fits, entry_is_list,
    pad_size, write_chunk, write_list, Chunk, Entry, List,
};

fn tag(s: &str) -> FOURCC {
    FOURCC::from_str(s).unwrap()
}

#[test]
fn fourcc_from_str_takes_exactly_four_bytes() {
    assert_eq!(FOURCC::from_str("RIFF").unwrap().0, [b'R', b'I', b'F', b'F']);
    assert!(FOURCC::from_str("").is_none());
    assert!(FOURCC::from_str("RIF").is_none());
    assert!(FOURCC::from_str("RIFFX").is_none());
    // two characters of two bytes each are four bytes
    assert_eq!(FOURCC::from_str("\u{e9}\u{e9}").unwrap().0, [0xc3, 0xa9, 0xc3, 0xa9]);
}

#[test]
fn fourcc_integer_reading_is_little_endian() {
    assert_eq!(tag("RIFF").to_u32(), 0x46464952);
    assert_eq!(FOURCC::from_u32(0x46464952).0, *b"RIFF");
    assert_eq!(FOURCC::from_u32(0x01020304).0, [4, 3, 2, 1]);
    assert_eq!(FOURCC([0xff, 0xff, 0xff, 0xff]).to_u32(), u32::MAX);
    assert_eq!(FOURCC::from_u32(0).0, [0, 0, 0, 0]);
}

#[test]
fn fourcc_reserved_tags_spell_their_names() {
    assert_eq!(tag("RIFF").to_u32(), RIFF);
    assert_eq!(tag("AVI ").to_u32(), AVI_);
    assert_eq!(tag("LIST").to_u32(), LIST);
    assert_eq!(tag("hdrl").to_u32(), HDRL);
    assert_eq!(tag("avih").to_u32(), AVIH);
    assert_eq!(tag("strl").to_u32(), STRL);
    assert_eq!(tag("strh").to_u32(), STRH);
    assert_eq!(tag("strf").to_u32(), STRF);
    assert_eq!(tag("vids").to_u32(), VIDS);
    assert_eq!(tag("auds").to_u32(), AUDS);
    assert_eq!(tag("movi").to_u32(), MOVI);
    assert_eq!(tag("00dc").to_u32(), VIDEO_CHUNK);
    assert_eq!(tag("01wb").to_u32(), AUDIO_CHUNK);
}

#[test]
fn fourcc_identity_on_sample_values() {
    for x in [0u32, 1, 0xff, 0x100, 0xdeadbeef, 0x7fffffff, 0x80000000, u32::MAX] {
        assert_eq!(FOURCC::from_u32(x).to_u32(), x);
    }
    for b in [[0u8, 0, 0, 0], [1, 2, 3, 4], [255, 0, 255, 0], *b"LIST", [255, 255, 255, 255]] {
        assert_eq!(FOURCC::from_u32(FOURCC(b).to_u32()).0, b);
    }
}

#[test]
fn little_endian_integers_write_and_read_back() {
    let mut out = vec![9u8];
    put_u32(&mut out, 0x11223344);
    put_u16(&mut out, 0xabcd);
    put_i32(&mut out, -600);
    put_i16(&mut out, -2);
    put_i32(&mut out, i32::MIN);
    put_i16(&mut out, i16::MIN);
    put_bytes(&mut out, &[7, 8]);
    assert_eq!(
        out,
        vec![
            9, 0x44, 0x33, 0x22, 0x11, 0xcd, 0xab, 0xa8, 0xfd, 0xff, 0xff, 0xfe, 0xff, 0, 0, 0,
            0x80, 0, 0x80, 7, 8
        ]
    );
    assert_eq!(read_u32(&out, 1), 0x11223344);
    assert_eq!(read_u16(&out, 5), 0xabcd);
    assert_eq!(read_i32(&out, 7), -600);
    assert_eq!(read_i16(&out, 11), -2);
    assert_eq!(read_i32(&out, 13), i32::MIN);
    assert_eq!(read_i16(&out, 17), i16::MIN);
    assert_eq!(read_i32(&[0xff, 0xff, 0xff, 0x7f], 0), i32::MAX);
    assert_eq!(read_i16(&[0xff, 0x7f], 0), i16::MAX);
}

#[test]
fn pad_size_rounds_up_to_a_multiple() {
    assert_eq!(pad_size(0, 2), 0);
    assert_eq!(pad_size(1, 2), 2);
    assert_eq!(pad_size(2, 2), 2);
    assert_eq!(pad_size(3, 2), 4);
    assert_eq!(pad_size(5, 4), 8);
    assert_eq!(pad_size(8, 4), 8);
    assert_eq!(pad_size(7, 1), 7);
}

#[test]
fn chop_u32_takes_four_bytes_off_the_front() {
    let bytes = [0x52u8, 0x49, 0x46, 0x46, 1, 2];
    let mut content: &[u8] = &bytes;
    assert_eq!(chop_u32(&mut content), RIFF);
    assert_eq!(content, &[1, 2]);
}

#[test]
fn even_chunk_is_written_without_padding() {
    let mut sink = vec![0xeeu8];
    write_chunk(&mut sink, &Chunk { id: tag("abcd"), content: &[1, 2, 3, 4] });
    assert_eq!(sink, vec![0xee, b'a', b'b', b'c', b'd', 4, 0, 0, 0, 1, 2, 3, 4]);
}

#[test]
fn odd_chunk_is_written_with_one_zero_byte_and_parsed_without_it() {
    let mut sink = Vec::new();
    write_chunk(&mut sink, &Chunk { id: tag("abcd"), content: &[1, 2, 3] });
    assert_eq!(sink, vec![b'a', b'b', b'c', b'd', 3, 0, 0, 0, 1, 2, 3, 0]);
    sink.extend_from_slice(&[0xaa, 0xbb]);
    let mut content: &[u8] = &sink;
    assert!(entry_fits(content));
    let chunk = chop_chunk(&mut content);
    assert_eq!(chunk.id.0, *b"abcd");
    assert_eq!(chunk.content, &[1, 2, 3]);
    assert_eq!(content, &[0xaa, 0xbb]);
}

#[test]
fn empty_chunk_is_eight_bytes() {
    let mut sink = Vec::new();
    write_chunk(&mut sink, &Chunk { id: tag("JUNK"), content: &[] });
    assert_eq!(sink, vec![b'J', b'U', b'N', b'K', 0, 0, 0, 0]);
    let mut content: &[u8] = &sink;
    let chunk = chop_chunk(&mut content);
    assert!(chunk.content.is_empty());
    assert!(content.is_empty());
}

#[test]
fn list_is_written_with_its_type_counted_and_never_padded() {
    let mut sink = Vec::new();
    write_list(&mut sink, &List { list_type: tag("movi"), content: &[1, 2, 3] });
    assert_eq!(sink, vec![b'L', b'I', b'S', b'T', 7, 0, 0, 0, b'm', b'o', b'v', b'i', 1, 2, 3]);
    sink.push(0x55);
    let mut content: &[u8] = &sink;
    assert!(entry_fits(content));
    let list = chop_list(&mut content);
    assert_eq!(list.list_type.0, *b"movi");
    assert_eq!(list.content, &[1, 2, 3]);
    assert_eq!(content, &[0x55]);
}

#[test]
fn entry_fits_refuses_what_ends_too_early() {
    assert!(!entry_fits(&[]));
    assert!(!entry_fits(&[b'a', b'b', b'c', b'd', 1, 0, 0]));
    // declared one byte, none there
    assert!(!entry_fits(&[b'a', b'b', b'c', b'd', 1, 0, 0, 0]));
    // the byte is there, its pad is not
    assert!(!entry_fits(&[b'a', b'b', b'c', b'd', 1, 0, 0, 0, 9]));
    assert!(entry_fits(&[b'a', b'b', b'c', b'd', 1, 0, 0, 0, 9, 0]));
    // a list must declare at least its type tag
    assert!(!entry_fits(&[b'L', b'I', b'S', b'T', 3, 0, 0, 0, 1, 2, 3, 4]));
    assert!(entry_fits(&[b'L', b'I', b'S', b'T', 4, 0, 0, 0, 1, 2, 3, 4]));
    assert!(!entry_fits(&[b'L', b'I', b'S', b'T', 5, 0, 0, 0, 1, 2, 3, 4]));
    assert!(!entry_fits(&[b'a', b'b', b'c', b'd', 0xff, 0xff, 0xff, 0xff, 1, 2]));
}

#[test]
fn tree_round_trip_keeps_tags_types_and_contents() {
    // LIST(outr){ CHUNK(one_)[1,2,3], LIST(innr){ CHUNK(two_)[] }, CHUNK(thre)[9,8] }
    let mut inner = Vec::new();
    write_chunk(&mut inner, &Chunk { id: tag("two_"), content: &[] });
    let mut outer = Vec::new();
    write_chunk(&mut outer, &Chunk { id: tag("one_"), content: &[1, 2, 3] });
    write_list(&mut outer, &List { list_type: tag("innr"), content: &inner });
    write_chunk(&mut outer, &Chunk { id: tag("thre"), content: &[9, 8] });
    let mut bytes = Vec::new();
    write_list(&mut bytes, &List { list_type: tag("outr"), content: &outer });

    let mut content: &[u8] = &bytes;
    let top = chop_list(&mut content);
    assert!(content.is_empty());
    assert_eq!(top.list_type.0, *b"outr");
    assert_eq!(top.content, &outer[..]);

    let mut below = top.content;
    match chop_entry(&mut below) {
        Entry::Chunk(c) => {
            assert_eq!(c.id.0, *b"one_");
            assert_eq!(c.content, &[1, 2, 3]);
        }
        Entry::List(_) => panic!("a list where a chunk was written"),
    }
    match chop_entry(&mut below) {
        Entry::List(l) => {
            assert_eq!(l.list_type.0, *b"innr");
            let mut deepest = l.content;
            let c = chop_chunk(&mut deepest);
            assert_eq!(c.id.0, *b"two_");
            assert!(c.content.is_empty());
            assert!(deepest.is_empty());
        }
        Entry::Chunk(_) => panic!("a chunk where a list was written"),
    }
    let last = chop_chunk(&mut below);
    assert_eq!(last.id.0, *b"thre");
    assert_eq!(last.content, &[9, 8]);
    assert!(below.is_empty());
}

#[test]
fn pixel_0000ff_converts_by_the_truncating_formulas() {
    // Y = 16 + 25.064 * 255 / 256 = 40.96..., Cb = 128 + 112.439 * 255 / 256 = 239.99...,
    // Cr = 128 - 18.285 * 255 / 256 = 109.78...
    let c = YCbCr::from_rgb(0x0000FF);
    assert_eq!((c.y, c.cb, c.cr), (40, 239, 109));
}

#[test]
fn conversion_of_the_corners_of_the_colour_cube() {
    let c = YCbCr::from_rgb(0x000000);
    assert_eq!((c.y, c.cb, c.cr), (16, 128, 128));
    let c = YCbCr::from_rgb(0xFFFFFF);
    assert_eq!((c.y, c.cb, c.cr), (235, 128, 128));
    let c = YCbCr::from_rgb(0x112233);
    assert_eq!((c.y, c.cb, c.cr), (42, 137, 119));
    let c = YCbCr::from_rgb(0xFF0000);
    assert_eq!((c.y, c.cb, c.cr), (81, 90, 239));
    let c = YCbCr::from_rgb(0x00FF00);
    assert_eq!((c.y, c.cb, c.cr), (144, 53, 34));
    // the top byte is not looked at
    let c = YCbCr::from_rgb(0xAB0000FF);
    assert_eq!((c.y, c.cb, c.cr), (40, 239, 109));
}

#[test]
fn conversion_is_within_one_of_single_precision_on_a_grid() {
    let mut worst: i32 = 0;
    let mut r = 0u32;
    while r < 256 {
        let mut g = 0u32;
        while g < 256 {
            let mut b = 0u32;
            while b < 256 {
                let (rf, gf, bf) = (r as f32, g as f32, b as f32);
                let y = (16.0 + 65.738 * rf / 256.0 + 129.057 * gf / 256.0 + 25.064 * bf / 256.0) as u8;
                let cb = (128.0 - 37.945 * rf / 256.0 - 74.494 * gf / 256.0 + 112.439 * bf / 256.0) as u8;
                let cr = (128.0 + 112.439 * rf / 256.0 - 94.154 * gf / 256.0 - 18.285 * bf / 256.0) as u8;
                let c = YCbCr::from_rgb(r << 16 | g << 8 | b);
                worst = worst.max((c.y as i32 - y as i32).abs());
                worst = worst.max((c.cb as i32 - cb as i32).abs());
                worst = worst.max((c.cr as i32 - cr as i32).abs());
                b += 5;
            }
            g += 3;
        }
        r += 1;
    }
    assert!(worst <= 1);
}

#[test]
fn bgr24_reverses_the_byte_order() {
    let mut frame = FrameBGR24::new();
    frame.from_canvas(&[0x112233, 0xAABBCC]);
    assert_eq!(frame.pixels, vec![0x33, 0x22, 0x11, 0xCC, 0xBB, 0xAA]);
    frame.from_canvas(&[0xFF0000FF]);
    assert_eq!(frame.pixels, vec![0xFF, 0x00, 0x00]);
    frame.from_canvas(&[]);
    assert!(frame.pixels.is_empty());
}

#[test]
fn planes_hold_one_byte_a_pixel_in_raster_order() {
    let mut frame = FrameYCbCr::new();
    frame.from_canvas(&[0x0000FF, 0x000000, 0xFFFFFF]);
    assert_eq!(frame.y_plane, vec![40, 16, 235]);
    assert_eq!(frame.cb_plane, vec![239, 128, 128]);
    assert_eq!(frame.cr_plane, vec![109, 128, 128]);
    frame.from_canvas(&[0x00FF00]);
    assert_eq!(frame.y_plane, vec![144]);
    assert_eq!(frame.cb_plane, vec![53]);
    assert_eq!(frame.cr_plane, vec![34]);
}

#[test]
fn all_entries_of_a_level_come_out_in_order() {
    let mut bytes = Vec::new();
    write_chunk(&mut bytes, &Chunk { id: tag("one_"), content: &[1] });
    write_list(&mut bytes, &List { list_type: tag("two_"), content: &[2, 2] });
    write_chunk(&mut bytes, &Chunk { id: tag("thre"), content: &[] });
    let entries = chop_entries(&bytes).unwrap();
    assert_eq!(entries.len(), 3);
    match entries[0] {
        Entry::Chunk(c) => assert_eq!((c.id.0, c.content), (*b"one_", &[1u8][..])),
        Entry::List(_) => panic!("a list where a chunk was written"),
    }
    match entries[1] {
        Entry::List(l) => assert_eq!((l.list_type.0, l.content), (*b"two_", &[2u8, 2][..])),
        Entry::Chunk(_) => panic!("a chunk where a list was written"),
    }
    match entries[2] {
        Entry::Chunk(c) => assert_eq!((c.id.0, c.content.len()), (*b"thre", 0)),
        Entry::List(_) => panic!("a list where a chunk was written"),
    }
    assert!(!entry_is_list(&bytes));
    assert!(entry_is_list(&bytes[10..]));
    assert!(chop_entries(&[]).unwrap().is_empty());
    assert!(chop_entries(&bytes[..bytes.len() - 1]).is_none());
    assert!(chop_entries(&bytes[..3]).is_none());
}

#[test]
fn a_chunk_tagged_list_is_read_as_a_list() {
    let mut bytes = Vec::new();
    write_chunk(&mut bytes, &Chunk { id: tag("LIST"), content: &[b'a', b'b', b'c', b'd', 7, 8] });
    let mut content: &[u8] = &bytes;
    match chop_entry(&mut content) {
        Entry::List(l) => {
            assert_eq!(l.list_type.0, *b"abcd");
            assert_eq!(l.content, &[7, 8]);
        }
        Entry::Chunk(_) => panic!("the reserved tag was not seen"),
    }
}
