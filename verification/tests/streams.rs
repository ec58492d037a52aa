use riff_mux::fourcc::FOURCC;
use riff_mux::parser::{
    dump_all_chunks_with_id, dump_avi_as_tree, dump_chunk, dump_entry, dump_list, hack_avi_file,
    parse_avi, parse_hdrl, parse_movi, parse_strl, DumpLine, ParseError,
};
use riff_mux::avi::{
    fabricate_hdrl, fabrivate_audio_strl, fabrivate_video_strl, hardcoded_avi_stream_header_vids,
    Container,
};
use riff_mux::riff::{write_chunk, write_list, Chunk, Entry, List};
use riff_mux::yuv4mpeg2::{put_decimal, save_frame};
use riff_mux::color::FrameYCbCr;
use riff_mux::yuv4mpeg2;

fn tag(s: &str) -> FOURCC {
    FOURCC::from_str(s).unwrap()
}

fn chunk_bytes(id: &str, content: &[u8]) -> Vec<u8> {
    let mut out = Vec::new();
    write_chunk(&mut out, &Chunk { id: tag(id), content });
    out
}

fn list_bytes(list_type: &str, content: &[u8]) -> Vec<u8> {
    let mut out = Vec::new();
    write_list(&mut out, &List { list_type: tag(list_type), content });
    out
}

fn line(level: usize, is_list: bool, size: usize, name: &str) -> DumpLine {
    DumpLine { level, is_list, size, tag: tag(name) }
}

fn recorded_file() -> Vec<u8> {
    let mut muxer = Container::new();
    muxer.start(1, 1, 60);
    muxer.frame(&[0x010203], &[7]);
    muxer.frame(&[0x040506], &[8, 9]);
    muxer.finish()
}

#[test]
fn header_line_is_the_exact_text() {
    let mut sink = Vec::new();
    let mut muxer = yuv4mpeg2::Container::default();
    muxer.start(&mut sink, 800, 600, 60);
    assert_eq!(sink, b"YUV4MPEG2 W800 H600 F60:1 Ip A1:1 C444\n".to_vec());
    assert!(muxer.started());
    let mut sink = vec![1u8];
    let mut muxer = yuv4mpeg2::Container::new();
    assert!(!muxer.started());
    muxer.start(&mut sink, 0, 7, 1000);
    assert_eq!(sink[0], 1);
    assert_eq!(&sink[1..], b"YUV4MPEG2 W0 H7 F1000:1 Ip A1:1 C444\n");
    let mut sink = Vec::new();
    let mut muxer = yuv4mpeg2::Container::new();
    muxer.start(&mut sink, usize::MAX, 10, 9);
    assert_eq!(
        sink,
        format!("YUV4MPEG2 W{} H10 F9:1 Ip A1:1 C444\n", usize::MAX).into_bytes()
    );
}

#[test]
fn decimal_digits_have_no_leading_zero() {
    for n in [0usize, 1, 9, 10, 11, 99, 100, 101, 12345, 1000000, usize::MAX] {
        let mut out = vec![b'x'];
        put_decimal(&mut out, n);
        assert_eq!(out, format!("x{}", n).into_bytes());
    }
}

#[test]
fn frame_is_the_frame_line_and_the_planes_y_cb_cr() {
    let mut header = Vec::new();
    let mut sink = Vec::new();
    let mut muxer = yuv4mpeg2::Container::new();
    muxer.start(&mut header, 2, 1, 60);
    muxer.frame(&mut sink, &[0x0000FF, 0x000000]);
    assert_eq!(sink, vec![b'F', b'R', b'A', b'M', b'E', b'\n', 40, 16, 239, 128, 109, 128]);
    muxer.frame(&mut sink, &[]);
    assert_eq!(sink.len(), 18);
    assert_eq!(&sink[12..], b"FRAME\n");
    assert!(muxer.started());
}

#[test]
fn save_frame_writes_the_planes_it_is_given() {
    let frame = FrameYCbCr { y_plane: vec![1, 2], cb_plane: vec![3], cr_plane: vec![4, 5, 6] };
    let mut sink = vec![0u8];
    save_frame(&mut sink, &frame);
    assert_eq!(sink, vec![0, b'F', b'R', b'A', b'M', b'E', b'\n', 1, 2, 3, 4, 5, 6]);
}

#[test]
fn stream_size_is_the_header_line_and_the_frames() {
    let (width, height, fps, frames) = (5usize, 3usize, 24usize, 7usize);
    let canvas = vec![0x336699u32; width * height];
    let mut sink = Vec::new();
    let mut muxer = yuv4mpeg2::Container::new();
    muxer.start(&mut sink, width, height, fps);
    let header_len = sink.len();
    assert_eq!(header_len, "YUV4MPEG2 W5 H3 F24:1 Ip A1:1 C444\n".len());
    for done in 0..frames {
        assert_eq!(sink.len(), header_len + done * (6 + 3 * width * height));
        muxer.frame(&mut sink, &canvas);
    }
    assert_eq!(sink.len(), header_len + frames * (6 + 3 * width * height));
    assert_eq!((sink.len() - header_len) / (6 + 3 * width * height), frames);
}

#[test]
fn dump_lines_of_single_nodes() {
    let chunk = Chunk { id: tag("avih"), content: &[1, 2, 3] };
    let list = List { list_type: tag("movi"), content: &[0; 8] };
    assert_eq!(dump_chunk(&chunk, 2), line(2, false, 3, "avih"));
    assert_eq!(dump_list(&list, 0), line(0, true, 8, "movi"));
    assert_eq!(dump_entry(&Entry::Chunk(chunk), 1), line(1, false, 3, "avih"));
    assert_eq!(dump_entry(&Entry::List(list), 5), line(5, true, 8, "movi"));
}

#[test]
fn dump_of_a_recorded_file_shows_every_node_and_its_depth() {
    let file = recorded_file();
    let lines = dump_avi_as_tree(&file[12..], 0).unwrap();
    assert_eq!(
        lines,
        vec![
            line(0, true, 312, "hdrl"),
            line(1, false, 56, "avih"),
            line(1, true, 112, "strl"),
            line(2, false, 56, "strh"),
            line(2, false, 40, "strf"),
            line(1, true, 112, "strl"),
            line(2, false, 56, "strh"),
            line(2, false, 40, "strf"),
            line(0, true, 52, "movi"),
            line(1, false, 3, "00dc"),
            line(1, false, 4, "01wb"),
            line(1, false, 3, "00dc"),
            line(1, false, 8, "01wb"),
        ]
    );
    assert_eq!(dump_avi_as_tree(&file, 3).unwrap(), vec![line(3, false, file.len() - 8, "RIFF")]);
    assert_eq!(dump_avi_as_tree(&[], 0).unwrap(), Vec::<DumpLine>::new());
}

#[test]
fn dump_refuses_a_tree_with_a_node_that_does_not_fit() {
    let file = recorded_file();
    assert_eq!(dump_avi_as_tree(&file[12..file.len() - 1], 0).unwrap_err(), ParseError::Truncated);
    let broken = list_bytes("outr", &[b'a', b'b', b'c', b'd', 9, 0, 0, 0]);
    assert_eq!(dump_avi_as_tree(&broken, 0).unwrap_err(), ParseError::Truncated);
}

#[test]
fn extraction_gathers_the_chunks_of_one_tag_in_order() {
    let mut movi = chunk_bytes("00dc", &[1, 2, 3]);
    movi.extend(chunk_bytes("01wb", &[9, 9]));
    movi.extend(chunk_bytes("00dc", &[]));
    movi.extend(chunk_bytes("00dc", &[4]));
    let video = dump_all_chunks_with_id(&movi, tag("00dc").to_u32()).unwrap();
    assert_eq!(video.bytes, vec![1, 2, 3, 4]);
    assert_eq!(video.chunk_count, 3);
    let audio = dump_all_chunks_with_id(&movi, tag("01wb").to_u32()).unwrap();
    assert_eq!(audio.bytes, vec![9, 9]);
    assert_eq!(audio.chunk_count, 1);
    let none = dump_all_chunks_with_id(&movi, tag("JUNK").to_u32()).unwrap();
    assert!(none.bytes.is_empty());
    assert_eq!(none.chunk_count, 0);
    let payload = parse_movi(&movi).unwrap();
    assert_eq!(payload.video.bytes, vec![1, 2, 3, 4]);
    assert_eq!(payload.audio.bytes, vec![9, 9]);
    let empty = parse_movi(&[]).unwrap();
    assert_eq!((empty.video.chunk_count, empty.audio.chunk_count), (0, 0));
}

#[test]
fn extraction_refuses_lists_and_truncated_chunks() {
    let mut movi = chunk_bytes("00dc", &[1, 2, 3]);
    movi.extend(list_bytes("rec ", &[]));
    assert_eq!(
        dump_all_chunks_with_id(&movi, tag("00dc").to_u32()).unwrap_err(),
        ParseError::NotChunk
    );
    assert_eq!(parse_movi(&movi).unwrap_err(), ParseError::NotChunk);
    let cut = chunk_bytes("00dc", &[1, 2, 3]);
    assert_eq!(
        dump_all_chunks_with_id(&cut[..11], tag("00dc").to_u32()).unwrap_err(),
        ParseError::Truncated
    );
    assert_eq!(parse_movi(&cut[..5]).unwrap_err(), ParseError::Truncated);
}

#[test]
fn file_must_begin_with_riff_its_size_and_the_form_type() {
    let file = recorded_file();
    assert!(hack_avi_file(&file).is_ok());
    assert_eq!(hack_avi_file(&[]).unwrap_err(), ParseError::Truncated);
    assert_eq!(hack_avi_file(&file[..3]).unwrap_err(), ParseError::Truncated);
    assert_eq!(hack_avi_file(&file[..4]).unwrap_err(), ParseError::Truncated);
    assert_eq!(hack_avi_file(b"RIFX").unwrap_err(), ParseError::NotRiff);
    let mut other = file.clone();
    other[0] = b'X';
    assert_eq!(hack_avi_file(&other).unwrap_err(), ParseError::NotRiff);
    assert_eq!(hack_avi_file(&file[..file.len() - 1]).unwrap_err(), ParseError::SizeMismatch);
    let mut longer = file.clone();
    longer.push(0);
    assert_eq!(hack_avi_file(&longer).unwrap_err(), ParseError::SizeMismatch);
    assert_eq!(hack_avi_file(&[b'R', b'I', b'F', b'F', 0, 0, 0, 0]).unwrap_err(), ParseError::Truncated);
    let mut wave = file.clone();
    wave[8..12].copy_from_slice(b"WAVE");
    assert_eq!(hack_avi_file(&wave).unwrap_err(), ParseError::NotAvi);
}

#[test]
fn nodes_must_begin_with_the_header_list() {
    assert_eq!(parse_avi(&[]).unwrap_err(), ParseError::Truncated);
    assert_eq!(parse_avi(&chunk_bytes("JUNK", &[])).unwrap_err(), ParseError::NotList);
    assert_eq!(parse_avi(&list_bytes("movi", &[])).unwrap_err(), ParseError::WrongTag);
}

#[test]
fn movi_list_is_found_behind_other_nodes_or_missed() {
    let hdrl = list_bytes("hdrl", &fabricate_hdrl(1, 1, 1, 1, 60));
    // no movi list at all: the nodes end first
    assert_eq!(parse_avi(&hdrl).unwrap_err(), ParseError::Truncated);
    let mut nodes = hdrl.clone();
    nodes.extend(chunk_bytes("JUNK", &[0; 5]));
    nodes.extend(list_bytes("INFO", &[]));
    assert_eq!(parse_avi(&nodes).unwrap_err(), ParseError::Truncated);
    nodes.extend(list_bytes("movi", &chunk_bytes("00dc", &[1, 2, 3])));
    nodes.extend(list_bytes("movi", &chunk_bytes("00dc", &[4, 5, 6])));
    let report = parse_avi(&nodes).unwrap();
    assert_eq!(report.payload.video.bytes, vec![1, 2, 3]);
    assert_eq!(report.payload.video.chunk_count, 1);
    assert_eq!(report.payload.audio.chunk_count, 0);
    assert_eq!(report.headers.main.dwTotalFrames, 1);
}

#[test]
fn header_list_must_begin_with_the_main_header() {
    assert_eq!(parse_hdrl(&[]).unwrap_err(), ParseError::Truncated);
    assert_eq!(parse_hdrl(&list_bytes("strl", &[])).unwrap_err(), ParseError::NotChunk);
    assert_eq!(parse_hdrl(&chunk_bytes("strh", &[0; 56])).unwrap_err(), ParseError::WrongTag);
    assert_eq!(parse_hdrl(&chunk_bytes("avih", &[0; 55])).unwrap_err(), ParseError::ShortHeader);
    let alone = parse_hdrl(&chunk_bytes("avih", &[0; 56])).unwrap();
    assert!(alone.streams.is_empty());
    assert_eq!(alone.main.dwStreams, 0);
}

#[test]
fn streams_end_at_the_first_node_that_is_no_stream_list() {
    let mut hdrl = fabricate_hdrl(1, 1, 1, 1, 60);
    assert_eq!(parse_hdrl(&hdrl).unwrap().streams.len(), 2);
    hdrl.extend(chunk_bytes("JUNK", &[]));
    hdrl.extend(list_bytes("strl", &fabrivate_audio_strl(5)));
    assert_eq!(parse_hdrl(&hdrl).unwrap().streams.len(), 2);
    let mut other = chunk_bytes("avih", &[0; 56]);
    other.extend(list_bytes("odml", &[1, 2, 3]));
    other.extend(list_bytes("strl", &fabrivate_audio_strl(5)));
    assert!(parse_hdrl(&other).unwrap().streams.is_empty());
    let mut cut = chunk_bytes("avih", &[0; 56]);
    cut.extend_from_slice(&[1, 2, 3]);
    assert_eq!(parse_hdrl(&cut).unwrap_err(), ParseError::Truncated);
    let mut bad = chunk_bytes("avih", &[0; 56]);
    bad.extend(list_bytes("strl", &[]));
    assert_eq!(parse_hdrl(&bad).unwrap_err(), ParseError::Truncated);
}

#[test]
fn stream_list_is_a_header_and_the_format_its_type_asks_for() {
    let video = parse_strl(&fabrivate_video_strl(9, 30, 4, 2)).unwrap();
    assert_eq!(video.header, hardcoded_avi_stream_header_vids(9, 30, 4, 2));
    assert_eq!(video.format_size, 40);
    assert_eq!(parse_strl(&[]).unwrap_err(), ParseError::Truncated);
    assert_eq!(parse_strl(&list_bytes("strl", &[])).unwrap_err(), ParseError::NotChunk);
    assert_eq!(parse_strl(&chunk_bytes("strf", &[0; 56])).unwrap_err(), ParseError::WrongTag);
    assert_eq!(parse_strl(&chunk_bytes("strh", &[0; 54])).unwrap_err(), ParseError::ShortHeader);

    let header = hardcoded_avi_stream_header_vids(9, 30, 4, 2).encode();
    let strh = chunk_bytes("strh", &header);
    assert_eq!(parse_strl(&strh).unwrap_err(), ParseError::Truncated);
    let mut nodes = strh.clone();
    nodes.extend(list_bytes("strf", &[]));
    assert_eq!(parse_strl(&nodes).unwrap_err(), ParseError::NotChunk);
    let mut nodes = strh.clone();
    nodes.extend(chunk_bytes("strd", &[0; 40]));
    assert_eq!(parse_strl(&nodes).unwrap_err(), ParseError::WrongTag);
    let mut nodes = strh.clone();
    nodes.extend(chunk_bytes("strf", &[0; 39]));
    assert_eq!(parse_strl(&nodes).unwrap_err(), ParseError::ShortHeader);

    let mut text = header.clone();
    text[0..4].copy_from_slice(b"txts");
    let mut nodes = chunk_bytes("strh", &text);
    nodes.extend(chunk_bytes("strf", &[0; 40]));
    assert_eq!(parse_strl(&nodes).unwrap_err(), ParseError::UnknownStreamType);
    // the tag of the format chunk is looked at before the stream type
    let mut nodes = chunk_bytes("strh", &text);
    nodes.extend(chunk_bytes("JUNK", &[0; 40]));
    assert_eq!(parse_strl(&nodes).unwrap_err(), ParseError::WrongTag);
}
