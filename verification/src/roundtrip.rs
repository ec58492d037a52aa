//! What the parser reads from what the muxer wrote.

use vstd::prelude::*;
use crate::avi::{
    MuxerView, Tick, recorded_all, total_samples, words_le, main_header,
    video_stream_header, audio_stream_header, bitmap_info, wave_format, video_strl, audio_strl,
    hdrl_body, avi_body, avi_file, lemma_counts,
};
use crate::color::bgr24;
use crate::fourcc::{
    RIFF, AVI_, LIST, HDRL, AVIH, STRH, STRF, STRL, VIDS, AUDS, MOVI, VIDEO_CHUNK, AUDIO_CHUNK,
    lemma_fourcc_identity,
};
use crate::headers::{
    lemma_decode_encoded_main_header, lemma_decode_encoded_stream_header,
    lemma_decode_encoded_bitmap_info, lemma_decode_encoded_wave_format,
};
use crate::le::{le_bytes_u32, u32_at, lemma_u32_of_le_bytes};
use crate::parser::{
    ExtractedView, PayloadView, HeaderListView, ReportView, StreamInfo, StreamFormat, ParseError,
    extract, extract_after, movi_payload, stream_info, stream_infos, header_list, avi_report,
    file_report,
};
use crate::riff::{
    ChunkView, ListView, EntryView, parse_entry, serialize_chunk, serialize_list,
    lemma_parse_serialized_entry, lemma_parse_entry_append, lemma_parse_entry_shrinks,
    lemma_chunk_layout, lemma_list_layout,
};

verus! {

/// Extraction goes through a concatenation: what the front gives, then what
/// the back gives.
pub proof fn lemma_extract_append(a: Seq<u8>, b: Seq<u8>, id: u32)
    requires
        extract(a, id).is_ok(),
    ensures
        extract(a + b, id) == extract_after(extract(a, id).unwrap(), extract(b, id)),
    decreases a.len(),
{
    if a.len() == 0 {
        assert(a + b =~= b);
        match extract(b, id) {
            Ok(x) => {
                assert(Seq::<u8>::empty() + x.bytes =~= x.bytes);
            },
            Err(_) => {},
        }
    } else {
        lemma_parse_entry_shrinks(a);
        lemma_parse_entry_append(a, b);
        let (e, rest) = parse_entry(a).unwrap();
        match e {
            EntryView::Chunk(c) => {
                lemma_extract_append(rest, b, id);
                let front = extract(rest, id).unwrap();
                match extract(b, id) {
                    Ok(x) => {
                        assert(c.content + (front.bytes + x.bytes) =~= (c.content + front.bytes)
                            + x.bytes);
                    },
                    Err(_) => {},
                }
            },
            EntryView::List(_) => {},
        }
    }
}

/// What one chunk gives to an extraction: its content where the tag is the
/// one asked for, nothing where it is another.
pub proof fn lemma_extract_chunk(c: ChunkView, id: u32)
    requires
        c.content.len() <= u32::MAX,
        c.id != LIST,
    ensures
        extract(serialize_chunk(c), id) == Ok::<ExtractedView, ParseError>(
            if c.id == id {
                ExtractedView { bytes: c.content, chunk_count: 1 }
            } else {
                ExtractedView { bytes: Seq::empty(), chunk_count: 0 }
            },
        ),
{
    lemma_parse_serialized_entry(EntryView::Chunk(c), Seq::empty());
    assert(serialize_chunk(c) + Seq::<u8>::empty() =~= serialize_chunk(c));
    assert(extract(Seq::<u8>::empty(), id) == Ok::<ExtractedView, ParseError>(
        ExtractedView { bytes: Seq::empty(), chunk_count: 0 },
    ));
    assert(c.content + Seq::<u8>::empty() =~= c.content);
}

/// The video of all ticks: their canvases as BGR24, one behind the other.
pub open spec fn video_payload(ticks: Seq<Tick>) -> Seq<u8>
    decreases ticks.len(),
{
    if ticks.len() == 0 {
        Seq::empty()
    } else {
        video_payload(ticks.drop_last()) + bgr24(ticks.last().canvas)
    }
}

/// The audio of all ticks: their samples as bytes, one behind the other.
pub open spec fn audio_payload(ticks: Seq<Tick>) -> Seq<u8>
    decreases ticks.len(),
{
    if ticks.len() == 0 {
        Seq::empty()
    } else {
        audio_payload(ticks.drop_last()) + words_le(ticks.last().sound)
    }
}

/// Whether the size field of a chunk can hold each tick's canvas and samples.
pub open spec fn ticks_fit(ticks: Seq<Tick>) -> bool {
    forall|i: int|
        0 <= i < ticks.len() ==> 3 * (#[trigger] ticks[i]).canvas.len() <= u32::MAX && 4
            * ticks[i].sound.len() <= u32::MAX
}

/// Extraction recovers what was recorded: from the media chunks of any number
/// of ticks, the canvases of all ticks in order as the video, their samples
/// in order as the audio, and one chunk of each for every tick.
pub proof fn lemma_movi_payload(start: MuxerView, ticks: Seq<Tick>)
    requires
        start.movi.len() == 0,
        ticks_fit(ticks),
    ensures
        recorded_all(start, ticks).movi.len() % 2 == 0,
        extract(recorded_all(start, ticks).movi, VIDEO_CHUNK) == Ok::<ExtractedView, ParseError>(
            ExtractedView { bytes: video_payload(ticks), chunk_count: ticks.len() },
        ),
        extract(recorded_all(start, ticks).movi, AUDIO_CHUNK) == Ok::<ExtractedView, ParseError>(
            ExtractedView { bytes: audio_payload(ticks), chunk_count: ticks.len() },
        ),
        movi_payload(recorded_all(start, ticks).movi) == Ok::<PayloadView, ParseError>(
            PayloadView {
                video: ExtractedView { bytes: video_payload(ticks), chunk_count: ticks.len() },
                audio: ExtractedView { bytes: audio_payload(ticks), chunk_count: ticks.len() },
            },
        ),
    decreases ticks.len(),
{
    if ticks.len() == 0 {
        assert(recorded_all(start, ticks).movi =~= Seq::<u8>::empty());
    } else {
        let before = ticks.drop_last();
        let last = ticks.last();
        assert(ticks_fit(before)) by {
            assert forall|i: int| 0 <= i < before.len() implies 3 * (
            #[trigger] before[i]).canvas.len() <= u32::MAX && 4 * before[i].sound.len()
                <= u32::MAX by {
                assert(before[i] == ticks[i]);
            }
        }
        lemma_movi_payload(start, before);
        assert(ticks[ticks.len() - 1] == last);
        lemma_extract_tick(
            recorded_all(start, before).movi,
            bgr24(last.canvas),
            words_le(last.sound),
        );
    }
}

/// What one more tick adds to an extraction: its video behind the video, its
/// audio behind the audio, one chunk more of each; and the media chunks stay
/// of even length.
pub proof fn lemma_extract_tick(movi: Seq<u8>, video: Seq<u8>, audio: Seq<u8>)
    requires
        extract(movi, VIDEO_CHUNK).is_ok(),
        extract(movi, AUDIO_CHUNK).is_ok(),
        movi.len() % 2 == 0,
        video.len() <= u32::MAX,
        audio.len() <= u32::MAX,
    ensures
        ({
            let after = movi + serialize_chunk(ChunkView { id: VIDEO_CHUNK, content: video })
                + serialize_chunk(ChunkView { id: AUDIO_CHUNK, content: audio });
            &&& after.len() % 2 == 0
            &&& extract(after, VIDEO_CHUNK) == Ok::<ExtractedView, ParseError>(
                ExtractedView {
                    bytes: extract(movi, VIDEO_CHUNK).unwrap().bytes + video,
                    chunk_count: extract(movi, VIDEO_CHUNK).unwrap().chunk_count + 1,
                },
            )
            &&& extract(after, AUDIO_CHUNK) == Ok::<ExtractedView, ParseError>(
                ExtractedView {
                    bytes: extract(movi, AUDIO_CHUNK).unwrap().bytes + audio,
                    chunk_count: extract(movi, AUDIO_CHUNK).unwrap().chunk_count + 1,
                },
            )
        }),
{
    let v = ChunkView { id: VIDEO_CHUNK, content: video };
    let w = ChunkView { id: AUDIO_CHUNK, content: audio };
    lemma_chunk_layout(v);
    lemma_chunk_layout(w);
    lemma_extract_push(movi, v, VIDEO_CHUNK);
    lemma_extract_push(movi, v, AUDIO_CHUNK);
    lemma_extract_push(movi + serialize_chunk(v), w, VIDEO_CHUNK);
    lemma_extract_push(movi + serialize_chunk(v), w, AUDIO_CHUNK);
}

/// What one more chunk adds to an extraction.
pub proof fn lemma_extract_push(movi: Seq<u8>, c: ChunkView, id: u32)
    requires
        extract(movi, id).is_ok(),
        c.content.len() <= u32::MAX,
        c.id != LIST,
    ensures
        extract(movi + serialize_chunk(c), id) == Ok::<ExtractedView, ParseError>(
            if c.id == id {
                ExtractedView {
                    bytes: extract(movi, id).unwrap().bytes + c.content,
                    chunk_count: extract(movi, id).unwrap().chunk_count + 1,
                }
            } else {
                extract(movi, id).unwrap()
            },
        ),
{
    lemma_extract_chunk(c, id);
    lemma_extract_append(movi, serialize_chunk(c), id);
    let before = extract(movi, id).unwrap();
    assert(before.bytes + Seq::<u8>::empty() =~= before.bytes);
}

/// The video stream as the parser reports it.
pub open spec fn video_info(frames: nat, width: nat, height: nat, fps: nat) -> StreamInfo {
    StreamInfo {
        header: video_stream_header(frames as u32, fps as u32, width as i16, height as i16),
        format_size: 40,
        format: StreamFormat::Video(bitmap_info(width as i16, height as i16)),
    }
}

/// The audio stream as the parser reports it.
pub open spec fn audio_info(samples: nat) -> StreamInfo {
    StreamInfo {
        header: audio_stream_header(samples as u32),
        format_size: 40,
        format: StreamFormat::Audio(wave_format()),
    }
}

/// The headers as the parser reports them.
pub open spec fn headers_written(frames: nat, samples: nat, width: nat, height: nat, fps: nat)
    -> HeaderListView {
    HeaderListView {
        main: main_header(frames as u32, width as u32, height as u32),
        streams: seq![video_info(frames, width, height, fps), audio_info(samples)],
    }
}

/// The parser reads the video stream that the fabricator wrote.
pub proof fn lemma_video_stream_info(frames: nat, width: nat, height: nat, fps: nat)
    ensures
        stream_info(video_strl(frames, width, height, fps)) == Ok::<StreamInfo, ParseError>(
            video_info(frames, width, height, fps),
        ),
        video_strl(frames, width, height, fps).len() == 112,
{
    reveal(stream_info);
    reveal(video_strl);
    let h = video_stream_header(frames as u32, fps as u32, width as i16, height as i16);
    let f = bitmap_info(width as i16, height as i16);
    let first = ChunkView { id: STRH, content: h.encoding() };
    let second = ChunkView { id: STRF, content: f.encoding() };
    lemma_decode_encoded_stream_header(h, Seq::empty());
    lemma_decode_encoded_bitmap_info(f, Seq::empty());
    assert(h.encoding() + Seq::<u8>::empty() =~= h.encoding());
    assert(f.encoding() + Seq::<u8>::empty() =~= f.encoding());
    lemma_chunk_layout(first);
    lemma_chunk_layout(second);
    lemma_parse_serialized_entry(EntryView::Chunk(first), serialize_chunk(second));
    lemma_parse_serialized_entry(EntryView::Chunk(second), Seq::empty());
    assert(serialize_chunk(second) + Seq::<u8>::empty() =~= serialize_chunk(second));
    lemma_fourcc_identity(h.fccType, VIDS);
}

/// The parser reads the audio stream that the fabricator wrote.
pub proof fn lemma_audio_stream_info(samples: nat)
    ensures
        stream_info(audio_strl(samples)) == Ok::<StreamInfo, ParseError>(audio_info(samples)),
        audio_strl(samples).len() == 112,
{
    reveal(stream_info);
    reveal(audio_strl);
    let h = audio_stream_header(samples as u32);
    let f = wave_format();
    let first = ChunkView { id: STRH, content: h.encoding() };
    let second = ChunkView { id: STRF, content: f.encoding() };
    lemma_decode_encoded_stream_header(h, Seq::empty());
    lemma_decode_encoded_wave_format(f, Seq::empty());
    assert(h.encoding() + Seq::<u8>::empty() =~= h.encoding());
    assert(f.encoding() + Seq::<u8>::empty() =~= f.encoding());
    lemma_chunk_layout(first);
    lemma_chunk_layout(second);
    lemma_parse_serialized_entry(EntryView::Chunk(first), serialize_chunk(second));
    lemma_parse_serialized_entry(EntryView::Chunk(second), Seq::empty());
    assert(serialize_chunk(second) + Seq::<u8>::empty() =~= serialize_chunk(second));
    lemma_fourcc_identity(h.fccType, AUDS);
}

/// The parser reads the headers that the fabricator wrote.
pub proof fn lemma_header_list(frames: nat, samples: nat, width: nat, height: nat, fps: nat)
    ensures
        header_list(hdrl_body(frames, samples, width, height, fps)) == Ok::<
            HeaderListView,
            ParseError,
        >(headers_written(frames, samples, width, height, fps)),
        hdrl_body(frames, samples, width, height, fps).len() == 312,
{
    reveal(hdrl_body);
    let m = main_header(frames as u32, width as u32, height as u32);
    let first = ChunkView { id: AVIH, content: m.encoding() };
    let video = ListView { list_type: STRL, content: video_strl(frames, width, height, fps) };
    let audio = ListView { list_type: STRL, content: audio_strl(samples) };
    lemma_decode_encoded_main_header(m, Seq::empty());
    assert(m.encoding() + Seq::<u8>::empty() =~= m.encoding());
    lemma_video_stream_info(frames, width, height, fps);
    lemma_audio_stream_info(samples);
    lemma_chunk_layout(first);
    lemma_list_layout(video);
    lemma_list_layout(audio);
    let lists = serialize_list(video) + serialize_list(audio);
    assert(serialize_chunk(first) + serialize_list(video) + serialize_list(audio)
        =~= serialize_chunk(first) + lists);
    lemma_parse_serialized_entry(EntryView::Chunk(first), lists);
    lemma_stream_lists(video, audio, video_info(frames, width, height, fps), audio_info(samples));
}

/// Two stream lists, one behind the other and nothing behind them, are read
/// as two streams.
pub proof fn lemma_stream_lists(a: ListView, b: ListView, x: StreamInfo, y: StreamInfo)
    requires
        a.list_type == STRL,
        b.list_type == STRL,
        a.content.len() + 4 <= u32::MAX,
        b.content.len() + 4 <= u32::MAX,
        stream_info(a.content) == Ok::<StreamInfo, ParseError>(x),
        stream_info(b.content) == Ok::<StreamInfo, ParseError>(y),
    ensures
        stream_infos(serialize_list(a) + serialize_list(b)) == Ok::<Seq<StreamInfo>, ParseError>(
            seq![x, y],
        ),
{
    lemma_list_layout(a);
    lemma_list_layout(b);
    lemma_parse_serialized_entry(EntryView::List(a), serialize_list(b));
    lemma_parse_serialized_entry(EntryView::List(b), Seq::empty());
    assert(serialize_list(b) + Seq::<u8>::empty() =~= serialize_list(b));
    assert(stream_infos(Seq::<u8>::empty()) == Ok::<Seq<StreamInfo>, ParseError>(Seq::empty()));
    assert(stream_infos(serialize_list(b)) == Ok::<Seq<StreamInfo>, ParseError>(
        seq![y] + Seq::empty(),
    ));
    assert(seq![x] + (seq![y] + Seq::<StreamInfo>::empty()) =~= seq![x, y]);
}

/// The parser reads the nodes that the fabricator wrote: the headers, and the
/// payload of the media chunks.
pub proof fn lemma_avi_report(
    movi: Seq<u8>,
    frames: nat,
    samples: nat,
    width: nat,
    height: nat,
    fps: nat,
)
    requires
        movi.len() + 4 <= u32::MAX,
    ensures
        avi_body(movi, frames, samples, width, height, fps).len() == 340 + movi.len(),
        u32_at(avi_body(movi, frames, samples, width, height, fps), 0) == AVI_,
        avi_report(
            avi_body(movi, frames, samples, width, height, fps).subrange(
                4,
                340 + movi.len() as int,
            ),
        ) == match movi_payload(movi) {
            Err(e) => Err::<ReportView, ParseError>(e),
            Ok(payload) => Ok(
                ReportView {
                    headers: headers_written(frames, samples, width, height, fps),
                    payload,
                },
            ),
        },
{
    reveal(avi_body);
    reveal(avi_report);
    let body = avi_body(movi, frames, samples, width, height, fps);
    let first = ListView {
        list_type: HDRL,
        content: hdrl_body(frames, samples, width, height, fps),
    };
    let second = ListView { list_type: MOVI, content: movi };
    lemma_header_list(frames, samples, width, height, fps);
    lemma_u32_of_le_bytes(AVI_);
    lemma_list_layout(first);
    lemma_list_layout(second);
    let tag = le_bytes_u32(AVI_);
    assert(body[0] == tag[0] && body[1] == tag[1] && body[2] == tag[2] && body[3] == tag[3]);
    assert(body.subrange(4, 340 + movi.len() as int) =~= serialize_list(first) + serialize_list(
        second,
    ));
    lemma_parse_serialized_entry(EntryView::List(first), serialize_list(second));
    lemma_parse_serialized_entry(EntryView::List(second), Seq::empty());
    assert(serialize_list(second) + Seq::<u8>::empty() =~= serialize_list(second));
}

/// The parser accepts the file that the muxer assembles, and reads from it
/// the headers that were fabricated and the payload of the media chunks.
pub proof fn lemma_file_report(
    movi: Seq<u8>,
    frames: nat,
    samples: nat,
    width: nat,
    height: nat,
    fps: nat,
)
    requires
        movi.len() % 2 == 0,
        movi.len() + 340 <= u32::MAX,
    ensures
        file_report(avi_file(movi, frames, samples, width, height, fps)) == match movi_payload(
            movi,
        ) {
            Err(e) => Err::<ReportView, ParseError>(e),
            Ok(payload) => Ok(
                ReportView {
                    headers: headers_written(frames, samples, width, height, fps),
                    payload,
                },
            ),
        },
{
    let body = avi_body(movi, frames, samples, width, height, fps);
    lemma_avi_report(movi, frames, samples, width, height, fps);
    lemma_riff_layout(body);
}

/// Where the parts of a top-level chunk of even length lie.
pub proof fn lemma_riff_layout(body: Seq<u8>)
    requires
        body.len() % 2 == 0,
        4 <= body.len() <= u32::MAX,
    ensures
        ({
            let file = serialize_chunk(ChunkView { id: RIFF, content: body });
            &&& file.len() == 8 + body.len()
            &&& u32_at(file, 0) == RIFF
            &&& u32_at(file, 4) == body.len()
            &&& u32_at(file, 8) == u32_at(body, 0)
            &&& file.subrange(12, file.len() as int) == body.subrange(4, body.len() as int)
        }),
{
    let top = ChunkView { id: RIFF, content: body };
    let file = serialize_chunk(top);
    lemma_chunk_layout(top);
    lemma_u32_of_le_bytes(RIFF);
    lemma_u32_of_le_bytes(body.len() as u32);
    let a = le_bytes_u32(RIFF);
    let b = le_bytes_u32(body.len() as u32);
    assert(file[0] == a[0] && file[1] == a[1] && file[2] == a[2] && file[3] == a[3]);
    assert(file[4] == b[0] && file[5] == b[1] && file[6] == b[2] && file[7] == b[3]);
    assert(file[8] == body[0] && file[9] == body[1] && file[10] == body[2] && file[11]
        == body[3]);
    assert(file.subrange(12, file.len() as int) =~= body.subrange(4, body.len() as int));
}

/// End to end: the parser accepts the file of any recording, and reads from
/// it the frame count and the sample count in the headers, the canvases of all
/// ticks in order as the video, and their samples in order as the audio.
pub proof fn lemma_parse_recorded(start: MuxerView, ticks: Seq<Tick>)
    requires
        start.movi.len() == 0,
        start.frame_count == 0,
        start.sample_count == 0,
        ticks_fit(ticks),
        recorded_all(start, ticks).movi.len() + 340 <= u32::MAX,
    ensures
        file_report(recorded_all(start, ticks).file()) == Ok::<ReportView, ParseError>(
            ReportView {
                headers: headers_written(
                    ticks.len(),
                    total_samples(ticks),
                    start.width,
                    start.height,
                    start.fps,
                ),
                payload: PayloadView {
                    video: ExtractedView { bytes: video_payload(ticks), chunk_count: ticks.len() },
                    audio: ExtractedView { bytes: audio_payload(ticks), chunk_count: ticks.len() },
                },
            },
        ),
{
    let end = recorded_all(start, ticks);
    lemma_counts(start, ticks);
    lemma_movi_payload(start, ticks);
    lemma_file_report(end.movi, end.frame_count, end.sample_count, end.width, end.height, end.fps);
}

} // verus!
