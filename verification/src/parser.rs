//! The AVI parser and extractor, and the structure dumper: the read path over
//! a finished file. Every structural assumption that fails is reported by the
//! error that names it.

use vstd::prelude::*;
use vstd::slice::slice_subrange;
use crate::fourcc::{
    FOURCC, RIFF, AVI_, HDRL, AVIH, STRH, STRF, STRL, VIDS, AUDS, MOVI, VIDEO_CHUNK, AUDIO_CHUNK,
    lemma_fourcc_identity,
};
use crate::headers::{AVIMainHeader, AVIStreamHeader, BITMAPINFOHEADER, WAVEFORMATEXTENSIBLE};
use crate::le::{u32_at, read_u32, put_bytes};
use crate::riff::{
    Chunk, List, Entry, EntryView, Node, parse_entry, entry_fits, chop_entry, tree_entry,
    tree_writable, forest_bytes, lemma_parse_entry_shrinks, lemma_parse_serialized_entry,
};

verus! {

/// Why a file was not accepted.
#[derive(Clone, Copy, PartialEq, Eq, Structural, Debug)]
pub enum ParseError {
    /// The bytes end before what they declare.
    Truncated,
    /// The file does not begin with `RIFF`.
    NotRiff,
    /// The declared file size is not the number of bytes behind it.
    SizeMismatch,
    /// The form type is not `AVI `.
    NotAvi,
    /// A chunk stands where a list must.
    NotList,
    /// A list stands where a chunk must.
    NotChunk,
    /// A node has another tag than its place asks for.
    WrongTag,
    /// A header chunk is shorter than its record.
    ShortHeader,
    /// A stream is neither video nor audio.
    UnknownStreamType,
}

/// One line of a structure dump: a node's kind, tag, content length and depth.
#[derive(Clone, Copy, PartialEq, Eq, Debug)]
pub struct DumpLine {
    pub level: usize,
    pub is_list: bool,
    pub size: usize,
    pub tag: FOURCC,
}

/// The format of a stream, read as its header's type says.
#[derive(Clone, Copy, PartialEq, Eq, Debug)]
pub enum StreamFormat {
    Video(BITMAPINFOHEADER),
    Audio(WAVEFORMATEXTENSIBLE),
}

/// One stream of a file: its header, the length of its format chunk, its format.
#[derive(Clone, Copy, PartialEq, Eq, Debug)]
pub struct StreamInfo {
    pub header: AVIStreamHeader,
    pub format_size: usize,
    pub format: StreamFormat,
}

/// The headers of a file.
#[derive(Debug)]
pub struct HeaderList {
    pub main: AVIMainHeader,
    pub streams: Vec<StreamInfo>,
}

/// What a header list is.
pub struct HeaderListView {
    pub main: AVIMainHeader,
    pub streams: Seq<StreamInfo>,
}

impl View for HeaderList {
    type V = HeaderListView;

    open spec fn view(&self) -> HeaderListView {
        HeaderListView { main: self.main, streams: self.streams@ }
    }
}

/// The payload of all chunks of one tag, one behind the other, and their number.
#[derive(Debug)]
pub struct Extracted {
    pub bytes: Vec<u8>,
    pub chunk_count: usize,
}

/// What an extraction is.
pub struct ExtractedView {
    pub bytes: Seq<u8>,
    pub chunk_count: nat,
}

impl View for Extracted {
    type V = ExtractedView;

    open spec fn view(&self) -> ExtractedView {
        ExtractedView { bytes: self.bytes@, chunk_count: self.chunk_count as nat }
    }
}

/// The raw streams of a file.
#[derive(Debug)]
pub struct Payload {
    pub video: Extracted,
    pub audio: Extracted,
}

/// What a payload is.
pub struct PayloadView {
    pub video: ExtractedView,
    pub audio: ExtractedView,
}

impl View for Payload {
    type V = PayloadView;

    open spec fn view(&self) -> PayloadView {
        PayloadView { video: self.video@, audio: self.audio@ }
    }
}

/// All that the parser reads from a file.
#[derive(Debug)]
pub struct Report {
    pub headers: HeaderList,
    pub payload: Payload,
}

/// What a report is.
pub struct ReportView {
    pub headers: HeaderListView,
    pub payload: PayloadView,
}

impl View for Report {
    type V = ReportView;

    open spec fn view(&self) -> ReportView {
        ReportView { headers: self.headers@, payload: self.payload@ }
    }
}

/// The dump line of an entry at a depth.
pub open spec fn line_of(e: EntryView, level: nat) -> DumpLine {
    match e {
        EntryView::Chunk(c) => DumpLine {
            level: level as usize,
            is_list: false,
            size: c.content.len() as usize,
            tag: FOURCC::of_code(c.id),
        },
        EntryView::List(l) => DumpLine {
            level: level as usize,
            is_list: true,
            size: l.content.len() as usize,
            tag: FOURCC::of_code(l.list_type),
        },
    }
}

/// The dump of a tree: every node in the order of the bytes, a list's nodes
/// behind the list and one level deeper; `None` where a node does not fit.
pub open spec fn tree_lines(s: Seq<u8>, level: nat) -> Option<Seq<DumpLine>>
    decreases s.len(),
{
    if s.len() == 0 {
        Some(Seq::empty())
    } else {
        match parse_entry(s) {
            None => None,
            Some((e, rest)) => {
                let below = match e {
                    EntryView::List(l) => tree_lines(l.content, level + 1),
                    EntryView::Chunk(_) => Some(Seq::empty()),
                };
                match (below, tree_lines(rest, level)) {
                    (Some(b), Some(behind)) => Some(seq![line_of(e, level)] + b + behind),
                    _ => None,
                }
            },
        }
    }
}

/// The dump of trees as they are constructed: every tree's line, then the
/// lines of its children one level deeper, then the trees behind it.
pub open spec fn forest_lines(ns: Seq<Node>, level: nat) -> Seq<DumpLine>
    decreases ns,
{
    if ns.len() == 0 {
        Seq::empty()
    } else {
        let below = match ns[0] {
            Node::Branch { list_type, children } => forest_lines(children, level + 1),
            Node::Leaf(_) => Seq::empty(),
        };
        seq![line_of(tree_entry(ns[0]), level)] + below + forest_lines(ns.skip(1), level)
    }
}

/// The dump of written trees shows every node of them: its tag, its content
/// length and its depth, parents before children and in the order written.
pub proof fn lemma_dump_of_trees(ns: Seq<Node>, level: nat)
    requires
        forall|i: int| 0 <= i < ns.len() ==> tree_writable(#[trigger] ns[i]),
    ensures
        tree_lines(forest_bytes(ns), level) == Some(forest_lines(ns, level)),
    decreases ns,
{
    if ns.len() > 0 {
        let behind = ns.skip(1);
        assert forall|i: int| 0 <= i < behind.len() implies tree_writable(
            #[trigger] behind[i],
        ) by {
            assert(behind[i] == ns[i + 1]);
        }
        lemma_dump_of_trees(behind, level);
        assert(tree_writable(ns[0]));
        lemma_parse_serialized_entry(tree_entry(ns[0]), forest_bytes(behind));
        match ns[0] {
            Node::Branch { list_type, children } => {
                lemma_dump_of_trees(children, level + 1);
            },
            Node::Leaf(_) => {},
        }
    }
}

/// The payload of the chunks tagged `id` among the chunks of `s`, and their
/// number. Every node of `s` must be a chunk.
pub open spec fn extract(s: Seq<u8>, id: u32) -> Result<ExtractedView, ParseError>
    decreases s.len(),
{
    if s.len() == 0 {
        Ok(ExtractedView { bytes: Seq::empty(), chunk_count: 0 })
    } else {
        match parse_entry(s) {
            None => Err(ParseError::Truncated),
            Some((EntryView::List(_), _)) => Err(ParseError::NotChunk),
            Some((EntryView::Chunk(c), rest)) => match extract(rest, id) {
                Err(e) => Err(e),
                Ok(x) => if c.id == id {
                    Ok(
                        ExtractedView {
                            bytes: c.content + x.bytes,
                            chunk_count: x.chunk_count + 1,
                        },
                    )
                } else {
                    Ok(x)
                },
            },
        }
    }
}

/// What is extracted from `s` behind what was extracted before.
pub open spec fn extract_after(done: ExtractedView, more: Result<ExtractedView, ParseError>)
    -> Result<ExtractedView, ParseError> {
    match more {
        Err(e) => Err(e),
        Ok(x) => Ok(
            ExtractedView {
                bytes: done.bytes + x.bytes,
                chunk_count: done.chunk_count + x.chunk_count,
            },
        ),
    }
}

/// The raw video and audio of the content of a `movi` list.
pub open spec fn movi_payload(s: Seq<u8>) -> Result<PayloadView, ParseError> {
    match extract(s, VIDEO_CHUNK) {
        Err(e) => Err(e),
        Ok(video) => match extract(s, AUDIO_CHUNK) {
            Err(e) => Err(e),
            Ok(audio) => Ok(PayloadView { video, audio }),
        },
    }
}

/// The stream that the content of a `strl` list describes: a `strh` chunk
/// with the stream header, then a `strf` chunk with the format that the
/// header's type asks for.
#[verifier::opaque]
pub open spec fn stream_info(s: Seq<u8>) -> Result<StreamInfo, ParseError> {
    match parse_entry(s) {
        None => Err(ParseError::Truncated),
        Some((EntryView::List(_), _)) => Err(ParseError::NotChunk),
        Some((EntryView::Chunk(c), rest)) => if c.id != STRH {
            Err(ParseError::WrongTag)
        } else if c.content.len() < 56 {
            Err(ParseError::ShortHeader)
        } else {
            let header = AVIStreamHeader::decoding(c.content);
            match parse_entry(rest) {
                None => Err(ParseError::Truncated),
                Some((EntryView::List(_), _)) => Err(ParseError::NotChunk),
                Some((EntryView::Chunk(f), _)) => if f.id != STRF {
                    Err(ParseError::WrongTag)
                } else if header.fccType.code() == VIDS {
                    if f.content.len() < 40 {
                        Err(ParseError::ShortHeader)
                    } else {
                        Ok(
                            StreamInfo {
                                header,
                                format_size: f.content.len() as usize,
                                format: StreamFormat::Video(BITMAPINFOHEADER::decoding(f.content)),
                            },
                        )
                    }
                } else if header.fccType.code() == AUDS {
                    if f.content.len() < 40 {
                        Err(ParseError::ShortHeader)
                    } else {
                        Ok(
                            StreamInfo {
                                header,
                                format_size: f.content.len() as usize,
                                format: StreamFormat::Audio(
                                    WAVEFORMATEXTENSIBLE::decoding(f.content),
                                ),
                            },
                        )
                    }
                } else {
                    Err(ParseError::UnknownStreamType)
                },
            }
        },
    }
}

/// The streams that the leading `strl` lists of `s` describe. The first node
/// that is no such list ends them.
pub open spec fn stream_infos(s: Seq<u8>) -> Result<Seq<StreamInfo>, ParseError>
    decreases s.len(),
{
    if s.len() == 0 {
        Ok(Seq::empty())
    } else {
        match parse_entry(s) {
            None => Err(ParseError::Truncated),
            Some((EntryView::Chunk(_), _)) => Ok(Seq::empty()),
            Some((EntryView::List(l), rest)) => if l.list_type != STRL {
                Ok(Seq::empty())
            } else {
                match stream_info(l.content) {
                    Err(e) => Err(e),
                    Ok(info) => match stream_infos(rest) {
                        Err(e) => Err(e),
                        Ok(more) => Ok(seq![info] + more),
                    },
                }
            },
        }
    }
}

/// The streams of `s` behind those that are done.
pub open spec fn streams_after(done: Seq<StreamInfo>, more: Result<Seq<StreamInfo>, ParseError>)
    -> Result<Seq<StreamInfo>, ParseError> {
    match more {
        Err(e) => Err(e),
        Ok(m) => Ok(done + m),
    }
}

/// The headers that the content of the `hdrl` list holds: an `avih` chunk
/// with the main header, then the streams.
pub open spec fn header_list(s: Seq<u8>) -> Result<HeaderListView, ParseError> {
    match parse_entry(s) {
        None => Err(ParseError::Truncated),
        Some((EntryView::List(_), _)) => Err(ParseError::NotChunk),
        Some((EntryView::Chunk(c), rest)) => if c.id != AVIH {
            Err(ParseError::WrongTag)
        } else if c.content.len() < 56 {
            Err(ParseError::ShortHeader)
        } else {
            match stream_infos(rest) {
                Err(e) => Err(e),
                Ok(streams) => Ok(
                    HeaderListView { main: AVIMainHeader::decoding(c.content), streams },
                ),
            }
        },
    }
}

/// The content of the first `movi` list among the nodes of `s`.
pub open spec fn movi_content(s: Seq<u8>) -> Result<Seq<u8>, ParseError>
    decreases s.len(),
{
    match parse_entry(s) {
        None => Err(ParseError::Truncated),
        Some((e, rest)) => if e matches EntryView::List(l) && l.list_type == MOVI {
            Ok(e->List_0.content)
        } else {
            movi_content(rest)
        },
    }
}

/// What the nodes behind the form type hold: the `hdrl` list first, then,
/// somewhere behind it, the `movi` list.
#[verifier::opaque]
pub open spec fn avi_report(s: Seq<u8>) -> Result<ReportView, ParseError> {
    match parse_entry(s) {
        None => Err(ParseError::Truncated),
        Some((EntryView::Chunk(_), _)) => Err(ParseError::NotList),
        Some((EntryView::List(l), rest)) => if l.list_type != HDRL {
            Err(ParseError::WrongTag)
        } else {
            match header_list(l.content) {
                Err(e) => Err(e),
                Ok(headers) => match movi_content(rest) {
                    Err(e) => Err(e),
                    Ok(m) => match movi_payload(m) {
                        Err(e) => Err(e),
                        Ok(payload) => Ok(ReportView { headers, payload }),
                    },
                },
            }
        },
    }
}

/// What a whole file holds: the `RIFF` tag, the number of bytes behind the
/// size field, the form type `AVI `, then the nodes.
pub open spec fn file_report(s: Seq<u8>) -> Result<ReportView, ParseError> {
    if s.len() < 4 {
        Err(ParseError::Truncated)
    } else if u32_at(s, 0) != RIFF {
        Err(ParseError::NotRiff)
    } else if s.len() < 8 {
        Err(ParseError::Truncated)
    } else if u32_at(s, 4) != s.len() - 8 {
        Err(ParseError::SizeMismatch)
    } else if s.len() < 12 {
        Err(ParseError::Truncated)
    } else if u32_at(s, 8) != AVI_ {
        Err(ParseError::NotAvi)
    } else {
        avi_report(s.subrange(12, s.len() as int))
    }
}

/// The dump line of a list.
pub fn dump_list<'a>(list: &List<'a>, level: usize) -> (line: DumpLine)
    ensures
        line == line_of(EntryView::List(list@), level as nat),
{
    proof {
        lemma_fourcc_identity(list.list_type, 0);
    }
    DumpLine { level, is_list: true, size: list.content.len(), tag: list.list_type }
}

/// The dump line of a chunk.
pub fn dump_chunk<'a>(chunk: &Chunk<'a>, level: usize) -> (line: DumpLine)
    ensures
        line == line_of(EntryView::Chunk(chunk@), level as nat),
{
    proof {
        lemma_fourcc_identity(chunk.id, 0);
    }
    DumpLine { level, is_list: false, size: chunk.content.len(), tag: chunk.id }
}

/// The dump line of an entry.
pub fn dump_entry<'a>(entry: &Entry<'a>, level: usize) -> (line: DumpLine)
    ensures
        line == line_of(entry@, level as nat),
{
    match entry {
        Entry::List(list) => dump_list(list, level),
        Entry::Chunk(chunk) => dump_chunk(chunk, level),
    }
}

/// Appends the dump of a tree to `out`. Returns whether every node fitted;
/// where one did not, what `out` holds behind its old content is unspecified.
fn dump_tree_into(content: &[u8], level: usize, out: &mut Vec<DumpLine>) -> (ok: bool)
    requires
        level + content@.len() <= usize::MAX,
    ensures
        ok == tree_lines(content@, level as nat).is_some(),
        ok ==> final(out)@ == old(out)@ + tree_lines(content@, level as nat).unwrap(),
    decreases content@.len(),
{
    let mut cur: &[u8] = content;
    let ghost mut done: Seq<DumpLine> = Seq::empty();
    assert(old(out)@ + done =~= old(out)@);
    while cur.len() > 0
        invariant
            cur@.len() <= content@.len(),
            level + content@.len() <= usize::MAX,
            out@ == old(out)@ + done,
            tree_lines(content@, level as nat).is_some() == tree_lines(
                cur@,
                level as nat,
            ).is_some(),
            tree_lines(content@, level as nat).is_some() ==> tree_lines(
                content@,
                level as nat,
            ).unwrap() == done + tree_lines(cur@, level as nat).unwrap(),
        decreases cur@.len(),
    {
        let ghost before = cur@;
        let ghost out_before = out@;
        if !entry_fits(cur) {
            return false;
        }
        proof {
            lemma_parse_entry_shrinks(before);
        }
        let entry = chop_entry(&mut cur);
        out.push(dump_entry(&entry, level));
        let ghost line = line_of(entry@, level as nat);
        match entry {
            Entry::List(list) => {
                if !dump_tree_into(list.content, level + 1, out) {
                    return false;
                }
            },
            Entry::Chunk(_) => {},
        }
        proof {
            let below = match entry@ {
                EntryView::List(l) => tree_lines(l.content, (level + 1) as nat),
                EntryView::Chunk(_) => Some(Seq::<DumpLine>::empty()),
            };
            let behind = tree_lines(cur@, level as nat);
            assert(below.is_some());
            assert(out@ =~= out_before + (seq![line] + below.unwrap()));
            if behind.is_some() {
                assert(tree_lines(before, level as nat).unwrap() == seq![line] + below.unwrap()
                    + behind.unwrap());
                if tree_lines(content@, level as nat).is_some() {
                    assert(done + (seq![line] + below.unwrap() + behind.unwrap()) =~= (done + (
                    seq![line] + below.unwrap())) + behind.unwrap());
                }
            }
            done = done + (seq![line] + below.unwrap());
        }
    }
    proof {
        assert(done + Seq::<DumpLine>::empty() =~= done);
    }
    true
}

/// Dumps a tree: one line for every node, a list's nodes behind it and one
/// level deeper. Nothing is changed; a node that does not fit is an error.
pub fn dump_avi_as_tree(content: &[u8], level: usize) -> (r: Result<Vec<DumpLine>, ParseError>)
    requires
        level + content@.len() <= usize::MAX,
    ensures
        match r {
            Ok(lines) => tree_lines(content@, level as nat) == Some(lines@),
            Err(e) => e == ParseError::Truncated && tree_lines(content@, level as nat).is_none(),
        },
{
    let mut lines: Vec<DumpLine> = Vec::new();
    if dump_tree_into(content, level, &mut lines) {
        assert(Seq::<DumpLine>::empty() + tree_lines(content@, level as nat).unwrap()
            =~= tree_lines(content@, level as nat).unwrap());
        Ok(lines)
    } else {
        Err(ParseError::Truncated)
    }
}

/// Gathers the payload of every chunk tagged `id` among the chunks of
/// `content`, in their order, into one buffer.
pub fn dump_all_chunks_with_id(content: &[u8], id: u32) -> (r: Result<Extracted, ParseError>)
    ensures
        match r {
            Ok(x) => extract(content@, id) == Ok::<ExtractedView, ParseError>(x@),
            Err(e) => extract(content@, id) == Err::<ExtractedView, ParseError>(e),
        },
{
    let mut cur: &[u8] = content;
    let mut buffer: Vec<u8> = Vec::new();
    let mut chunk_count: usize = 0;
    assert(content@.len() <= usize::MAX) by {
        let n = content.len();
    }
    assert(extract_after(
        ExtractedView { bytes: buffer@, chunk_count: 0 },
        extract(cur@, id),
    ) == extract(content@, id)) by {
        match extract(cur@, id) {
            Ok(x) => {
                assert(buffer@ + x.bytes =~= x.bytes);
            },
            Err(_) => {},
        }
    }
    while cur.len() > 0
        invariant
            content@.len() <= usize::MAX,
            chunk_count + cur@.len() <= content@.len(),
            extract(content@, id) == extract_after(
                ExtractedView { bytes: buffer@, chunk_count: chunk_count as nat },
                extract(cur@, id),
            ),
        decreases cur@.len(),
    {
        let ghost before = cur@;
        let ghost done = ExtractedView { bytes: buffer@, chunk_count: chunk_count as nat };
        if !entry_fits(cur) {
            return Err(ParseError::Truncated);
        }
        proof {
            lemma_parse_entry_shrinks(before);
        }
        match chop_entry(&mut cur) {
            Entry::List(_) => {
                return Err(ParseError::NotChunk);
            },
            Entry::Chunk(chunk) => {
                if chunk.id.to_u32() == id {
                    put_bytes(&mut buffer, chunk.content);
                    chunk_count += 1;
                }
                proof {
                    match extract(cur@, id) {
                        Ok(x) => {
                            assert(done.bytes + (chunk.content@ + x.bytes) =~= (done.bytes
                                + chunk.content@) + x.bytes);
                        },
                        Err(_) => {},
                    }
                }
            },
        }
    }
    proof {
        assert(buffer@ + Seq::<u8>::empty() =~= buffer@);
    }
    Ok(Extracted { bytes: buffer, chunk_count })
}

/// Extracts the raw video and the raw audio from the content of a `movi` list.
pub fn parse_movi(content: &[u8]) -> (r: Result<Payload, ParseError>)
    ensures
        match r {
            Ok(p) => movi_payload(content@) == Ok::<PayloadView, ParseError>(p@),
            Err(e) => movi_payload(content@) == Err::<PayloadView, ParseError>(e),
        },
{
    let video = match dump_all_chunks_with_id(content, VIDEO_CHUNK) {
        Ok(x) => x,
        Err(e) => {
            return Err(e);
        },
    };
    let audio = match dump_all_chunks_with_id(content, AUDIO_CHUNK) {
        Ok(x) => x,
        Err(e) => {
            return Err(e);
        },
    };
    Ok(Payload { video, audio })
}

/// Takes the first entry off `content`, which must be a chunk tagged `id`
/// that holds at least `least` bytes.
fn expect_chunk<'a>(content: &mut &'a [u8], id: u32, least: usize) -> (r: Result<
    Chunk<'a>,
    ParseError,
>)
    ensures
        match r {
            Ok(chunk) => parse_entry(old(content)@) == Some(
                (EntryView::Chunk(chunk@), final(content)@),
            ) && chunk@.id == id && chunk@.content.len() >= least,
            Err(e) => match parse_entry(old(content)@) {
                None => e == ParseError::Truncated,
                Some((EntryView::List(_), _)) => e == ParseError::NotChunk,
                Some((EntryView::Chunk(c), _)) => if c.id != id {
                    e == ParseError::WrongTag
                } else {
                    e == ParseError::ShortHeader && c.content.len() < least
                },
            },
        },
{
    if !entry_fits(*content) {
        return Err(ParseError::Truncated);
    }
    match chop_entry(content) {
        Entry::List(_) => Err(ParseError::NotChunk),
        Entry::Chunk(chunk) => {
            if chunk.id.to_u32() != id {
                Err(ParseError::WrongTag)
            } else if chunk.content.len() < least {
                Err(ParseError::ShortHeader)
            } else {
                Ok(chunk)
            }
        },
    }
}

/// Reads one stream from the content of a `strl` list: the stream header,
/// then the format that the header's type asks for.
pub fn parse_strl(content: &[u8]) -> (r: Result<StreamInfo, ParseError>)
    ensures
        r == stream_info(content@),
{
    proof {
        reveal(stream_info);
    }
    let mut cur: &[u8] = content;
    let chunk = match expect_chunk(&mut cur, STRH, 56) {
        Ok(c) => c,
        Err(e) => {
            return Err(e);
        },
    };
    let header = AVIStreamHeader::decode(chunk.content);
    if !entry_fits(cur) {
        return Err(ParseError::Truncated);
    }
    let format_chunk = match chop_entry(&mut cur) {
        Entry::List(_) => {
            return Err(ParseError::NotChunk);
        },
        Entry::Chunk(c) => c,
    };
    if format_chunk.id.to_u32() != STRF {
        return Err(ParseError::WrongTag);
    }
    let stream_type = header.fccType.to_u32();
    if stream_type == VIDS {
        if format_chunk.content.len() < 40 {
            return Err(ParseError::ShortHeader);
        }
        Ok(
            StreamInfo {
                header,
                format_size: format_chunk.content.len(),
                format: StreamFormat::Video(BITMAPINFOHEADER::decode(format_chunk.content)),
            },
        )
    } else if stream_type == AUDS {
        if format_chunk.content.len() < 40 {
            return Err(ParseError::ShortHeader);
        }
        Ok(
            StreamInfo {
                header,
                format_size: format_chunk.content.len(),
                format: StreamFormat::Audio(WAVEFORMATEXTENSIBLE::decode(format_chunk.content)),
            },
        )
    } else {
        Err(ParseError::UnknownStreamType)
    }
}

/// Reads the streams of the leading `strl` lists of `content`.
fn parse_streams(content: &[u8]) -> (r: Result<Vec<StreamInfo>, ParseError>)
    ensures
        match r {
            Ok(streams) => stream_infos(content@) == Ok::<Seq<StreamInfo>, ParseError>(streams@),
            Err(e) => stream_infos(content@) == Err::<Seq<StreamInfo>, ParseError>(e),
        },
{
    let mut cur: &[u8] = content;
    let mut streams: Vec<StreamInfo> = Vec::new();
    assert(streams_after(streams@, stream_infos(cur@)) == stream_infos(content@)) by {
        match stream_infos(cur@) {
            Ok(m) => {
                assert(streams@ + m =~= m);
            },
            Err(_) => {},
        }
    }
    while cur.len() > 0
        invariant
            stream_infos(content@) == streams_after(streams@, stream_infos(cur@)),
        decreases cur@.len(),
    {
        let ghost before = cur@;
        let ghost done = streams@;
        if !entry_fits(cur) {
            return Err(ParseError::Truncated);
        }
        proof {
            lemma_parse_entry_shrinks(before);
        }
        match chop_entry(&mut cur) {
            Entry::List(list) => {
                if list.list_type.to_u32() != STRL {
                    proof {
                        assert(done + Seq::<StreamInfo>::empty() =~= done);
                    }
                    return Ok(streams);
                }
                let info = match parse_strl(list.content) {
                    Ok(i) => i,
                    Err(e) => {
                        return Err(e);
                    },
                };
                streams.push(info);
                proof {
                    match stream_infos(cur@) {
                        Ok(m) => {
                            assert(done + (seq![info] + m) =~= done.push(info) + m);
                        },
                        Err(_) => {},
                    }
                }
            },
            Entry::Chunk(_) => {
                proof {
                    assert(done + Seq::<StreamInfo>::empty() =~= done);
                }
                return Ok(streams);
            },
        }
    }
    proof {
        assert(streams@ + Seq::<StreamInfo>::empty() =~= streams@);
    }
    Ok(streams)
}

/// Reads the headers from the content of the `hdrl` list: the main header,
/// then every stream of the `strl` lists that follow it.
pub fn parse_hdrl(content: &[u8]) -> (r: Result<HeaderList, ParseError>)
    ensures
        match r {
            Ok(h) => header_list(content@) == Ok::<HeaderListView, ParseError>(h@),
            Err(e) => header_list(content@) == Err::<HeaderListView, ParseError>(e),
        },
{
    let mut cur: &[u8] = content;
    let chunk = match expect_chunk(&mut cur, AVIH, 56) {
        Ok(c) => c,
        Err(e) => {
            return Err(e);
        },
    };
    let main = AVIMainHeader::decode(chunk.content);
    match parse_streams(cur) {
        Ok(streams) => Ok(HeaderList { main, streams }),
        Err(e) => Err(e),
    }
}

/// Reads the nodes behind the form type: the headers from the `hdrl` list,
/// which comes first, and the payload from the first `movi` list behind it.
pub fn parse_avi(content: &[u8]) -> (r: Result<Report, ParseError>)
    ensures
        match r {
            Ok(report) => avi_report(content@) == Ok::<ReportView, ParseError>(report@),
            Err(e) => avi_report(content@) == Err::<ReportView, ParseError>(e),
        },
{
    proof {
        reveal(avi_report);
    }
    let mut cur: &[u8] = content;
    if !entry_fits(cur) {
        return Err(ParseError::Truncated);
    }
    let list = match chop_entry(&mut cur) {
        Entry::Chunk(_) => {
            return Err(ParseError::NotList);
        },
        Entry::List(l) => l,
    };
    if list.list_type.to_u32() != HDRL {
        return Err(ParseError::WrongTag);
    }
    let headers = match parse_hdrl(list.content) {
        Ok(h) => h,
        Err(e) => {
            return Err(e);
        },
    };
    let ghost behind = cur@;
    loop
        invariant
            movi_content(behind) == movi_content(cur@),
            avi_report(content@) == match movi_content(behind) {
                Err(e) => Err::<ReportView, ParseError>(e),
                Ok(m) => match movi_payload(m) {
                    Err(e) => Err(e),
                    Ok(payload) => Ok(ReportView { headers: headers@, payload }),
                },
            },
        decreases cur@.len(),
    {
        let ghost before = cur@;
        if !entry_fits(cur) {
            return Err(ParseError::Truncated);
        }
        proof {
            lemma_parse_entry_shrinks(before);
        }
        match chop_entry(&mut cur) {
            Entry::List(l) => {
                if l.list_type.to_u32() == MOVI {
                    return match parse_movi(l.content) {
                        Ok(payload) => Ok(Report { headers, payload }),
                        Err(e) => Err(e),
                    };
                }
            },
            Entry::Chunk(_) => {},
        }
    }
}

/// Reads a whole file: checks the `RIFF` tag, the declared size against the
/// bytes behind it and the form type, then reads the nodes.
pub fn hack_avi_file(bytes: &[u8]) -> (r: Result<Report, ParseError>)
    ensures
        match r {
            Ok(report) => file_report(bytes@) == Ok::<ReportView, ParseError>(report@),
            Err(e) => file_report(bytes@) == Err::<ReportView, ParseError>(e),
        },
{
    if bytes.len() < 4 {
        return Err(ParseError::Truncated);
    }
    if read_u32(bytes, 0) != RIFF {
        return Err(ParseError::NotRiff);
    }
    if bytes.len() < 8 {
        return Err(ParseError::Truncated);
    }
    let file_size = read_u32(bytes, 4);
    if file_size as usize != bytes.len() - 8 {
        return Err(ParseError::SizeMismatch);
    }
    if bytes.len() < 12 {
        return Err(ParseError::Truncated);
    }
    if read_u32(bytes, 8) != AVI_ {
        return Err(ParseError::NotAvi);
    }
    parse_avi(slice_subrange(bytes, 12, bytes.len()))
}

} // verus!
