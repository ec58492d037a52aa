//! The chunk/list tree codec.

use vstd::prelude::*;
use vstd::pervasive::unreached;
use vstd::slice::slice_subrange;
use crate::fourcc::{FOURCC, LIST};
use crate::le::{
    le_bytes_u32, u32_at, u32_of_le, read_u32, put_u32, put_bytes, lemma_u32_of_le_bytes,
};

verus! {

/// A leaf node: a tag and the bytes it names.
#[derive(Clone, Copy, Debug)]
pub struct Chunk<'a> {
    pub id: FOURCC,
    pub content: &'a [u8],
}

/// An inner node: a type tag and the serialized nodes below it.
#[derive(Clone, Copy, Debug)]
pub struct List<'a> {
    pub list_type: FOURCC,
    pub content: &'a [u8],
}

/// A node of the tree.
#[derive(Clone, Copy, Debug)]
pub enum Entry<'a> {
    Chunk(Chunk<'a>),
    List(List<'a>),
}

/// What a chunk is: the integer reading of its tag, and its content.
pub struct ChunkView {
    pub id: u32,
    pub content: Seq<u8>,
}

/// What a list is: the integer reading of its type tag, and its content.
pub struct ListView {
    pub list_type: u32,
    pub content: Seq<u8>,
}

/// What an entry is.
pub enum EntryView {
    Chunk(ChunkView),
    List(ListView),
}

impl<'a> View for Chunk<'a> {
    type V = ChunkView;

    open spec fn view(&self) -> ChunkView {
        ChunkView { id: self.id.code(), content: self.content@ }
    }
}

impl<'a> View for List<'a> {
    type V = ListView;

    open spec fn view(&self) -> ListView {
        ListView { list_type: self.list_type.code(), content: self.content@ }
    }
}

impl<'a> View for Entry<'a> {
    type V = EntryView;

    open spec fn view(&self) -> EntryView {
        match *self {
            Entry::Chunk(c) => EntryView::Chunk(c@),
            Entry::List(l) => EntryView::List(l@),
        }
    }
}

/// `size` rounded up to the next multiple of `width`.
pub open spec fn padded(size: int, width: int) -> int {
    (size + width - 1) / width * width
}

/// The pad bytes behind a chunk's content: one zero byte where the length is odd.
pub open spec fn pad_bytes(len: int) -> Seq<u8> {
    if len % 2 == 1 {
        seq![0u8]
    } else {
        Seq::empty()
    }
}

/// The bytes of a chunk: tag, content length, content, pad.
pub open spec fn serialize_chunk(c: ChunkView) -> Seq<u8> {
    le_bytes_u32(c.id) + le_bytes_u32(c.content.len() as u32) + c.content + pad_bytes(
        c.content.len() as int,
    )
}

/// The bytes of a list: the reserved tag, content length plus four, type tag, content.
pub open spec fn serialize_list(l: ListView) -> Seq<u8> {
    le_bytes_u32(LIST) + le_bytes_u32((l.content.len() + 4) as u32) + le_bytes_u32(l.list_type)
        + l.content
}

/// The bytes of an entry.
pub open spec fn serialize_entry(e: EntryView) -> Seq<u8> {
    match e {
        EntryView::Chunk(c) => serialize_chunk(c),
        EntryView::List(l) => serialize_list(l),
    }
}

/// An entry whose size field can hold its length, and whose tag tells what it is.
pub open spec fn entry_writable(e: EntryView) -> bool {
    match e {
        EntryView::Chunk(c) => c.content.len() <= u32::MAX && c.id != LIST,
        EntryView::List(l) => l.content.len() + 4 <= u32::MAX,
    }
}

/// The first entry of `s` and what follows it; `None` where `s` ends before
/// the entry does, or a list declares less than its own type tag.
pub open spec fn parse_entry(s: Seq<u8>) -> Option<(EntryView, Seq<u8>)> {
    if s.len() < 8 {
        None
    } else {
        let id = u32_at(s, 0);
        let size = u32_at(s, 4) as int;
        if id != LIST {
            if s.len() < 8 + padded(size, 2) {
                None
            } else {
                Some(
                    (
                        EntryView::Chunk(ChunkView { id, content: s.subrange(8, 8 + size) }),
                        s.subrange(8 + padded(size, 2), s.len() as int),
                    ),
                )
            }
        } else {
            if size < 4 || s.len() < 8 + size {
                None
            } else {
                Some(
                    (
                        EntryView::List(
                            ListView { list_type: u32_at(s, 8), content: s.subrange(12, 8 + size) },
                        ),
                        s.subrange(8 + size, s.len() as int),
                    ),
                )
            }
        }
    }
}

/// Rounding up to an even number adds the parity.
pub proof fn lemma_padded_even(size: int)
    requires
        size >= 0,
    ensures
        padded(size, 2) == size + size % 2,
{
}

/// The bytes of a sequence of entries, one behind the other.
pub open spec fn serialize_entries(es: Seq<EntryView>) -> Seq<u8>
    decreases es.len(),
{
    if es.len() == 0 {
        Seq::empty()
    } else {
        serialize_entry(es[0]) + serialize_entries(es.skip(1))
    }
}

/// The entries of `s`, taken one after the other until nothing is left;
/// `None` where one of them does not fit.
pub open spec fn parse_entries(s: Seq<u8>) -> Option<Seq<EntryView>>
    decreases s.len(),
{
    if s.len() == 0 {
        Some(Seq::empty())
    } else {
        match parse_entry(s) {
            None => None,
            Some((e, rest)) => match parse_entries(rest) {
                None => None,
                Some(es) => Some(seq![e] + es),
            },
        }
    }
}

/// Whatever is parsed leaves less than there was.
pub proof fn lemma_parse_entry_shrinks(s: Seq<u8>)
    requires
        parse_entry(s).is_some(),
    ensures
        parse_entry(s).unwrap().1.len() + 8 <= s.len(),
        parse_entry(s).unwrap().0 matches EntryView::List(l) ==> l.content.len() + 12 <= s.len(),
        parse_entry(s).unwrap().0 matches EntryView::Chunk(c) ==> c.content.len() + 8 <= s.len(),
{
    lemma_padded_even(u32_at(s, 4) as int);
}

/// Round trip of one entry: a written entry, followed by anything, parses as
/// that entry and leaves what followed. A chunk tagged `LIST` is left out: it
/// would be read as a list.
pub proof fn lemma_parse_serialized_entry(e: EntryView, rest: Seq<u8>)
    requires
        entry_writable(e),
    ensures
        parse_entry(serialize_entry(e) + rest) == Some((e, rest)),
        serialize_entry(e).len() >= 8,
{
    let s = serialize_entry(e) + rest;
    match e {
        EntryView::Chunk(c) => {
            let n = c.content.len() as int;
            let a = le_bytes_u32(c.id);
            let b = le_bytes_u32(n as u32);
            lemma_u32_of_le_bytes(c.id);
            lemma_u32_of_le_bytes(n as u32);
            lemma_padded_even(n);
            assert(s[0] == a[0] && s[1] == a[1] && s[2] == a[2] && s[3] == a[3]);
            assert(s[4] == b[0] && s[5] == b[1] && s[6] == b[2] && s[7] == b[3]);
            assert(u32_at(s, 0) == c.id);
            assert(u32_at(s, 4) == n);
            assert(s.subrange(8, 8 + n) =~= c.content);
            assert(s.subrange(8 + padded(n, 2), s.len() as int) =~= rest);
        },
        EntryView::List(l) => {
            let n = l.content.len() as int;
            let a = le_bytes_u32(LIST);
            let b = le_bytes_u32((n + 4) as u32);
            let t = le_bytes_u32(l.list_type);
            lemma_u32_of_le_bytes(LIST);
            lemma_u32_of_le_bytes((n + 4) as u32);
            lemma_u32_of_le_bytes(l.list_type);
            assert(s[0] == a[0] && s[1] == a[1] && s[2] == a[2] && s[3] == a[3]);
            assert(s[4] == b[0] && s[5] == b[1] && s[6] == b[2] && s[7] == b[3]);
            assert(s[8] == t[0] && s[9] == t[1] && s[10] == t[2] && s[11] == t[3]);
            assert(u32_at(s, 0) == LIST);
            assert(u32_at(s, 4) == n + 4);
            assert(u32_at(s, 8) == l.list_type);
            assert(s.subrange(12, 8 + (n + 4)) =~= l.content);
            assert(s.subrange(8 + (n + 4), s.len() as int) =~= rest);
        },
    }
}

/// What follows an entry does not change how the entry parses: it is left behind it.
pub proof fn lemma_parse_entry_append(a: Seq<u8>, b: Seq<u8>)
    requires
        parse_entry(a).is_some(),
    ensures
        parse_entry(a + b) == Some((parse_entry(a).unwrap().0, parse_entry(a).unwrap().1 + b)),
{
    let s = a + b;
    let size = u32_at(a, 4) as int;
    lemma_padded_even(size);
    assert(u32_at(s, 0) == u32_at(a, 0));
    assert(u32_at(s, 4) == u32_at(a, 4));
    if u32_at(a, 0) != LIST {
        assert(s.subrange(8, 8 + size) =~= a.subrange(8, 8 + size));
        assert(s.subrange(8 + padded(size, 2), s.len() as int) =~= a.subrange(
            8 + padded(size, 2),
            a.len() as int,
        ) + b);
    } else {
        assert(u32_at(s, 8) == u32_at(a, 8));
        assert(s.subrange(12, 8 + size) =~= a.subrange(12, 8 + size));
        assert(s.subrange(8 + size, s.len() as int) =~= a.subrange(8 + size, a.len() as int) + b);
    }
}

/// Round trip of a sequence: writing entries one behind the other and parsing
/// the bytes gives the same tags, types and contents in the same order. Since
/// a list's content is any bytes, this holds level by level of a tree.
pub proof fn lemma_parse_serialized_entries(es: Seq<EntryView>)
    requires
        forall|i: int| 0 <= i < es.len() ==> entry_writable(#[trigger] es[i]),
    ensures
        parse_entries(serialize_entries(es)) == Some(es),
    decreases es.len(),
{
    if es.len() > 0 {
        let tail = es.skip(1);
        lemma_parse_serialized_entries(tail);
        lemma_parse_serialized_entry(es[0], serialize_entries(tail));
        assert(seq![es[0]] + tail =~= es);
    }
}

/// A tree as it is constructed: a leaf is a chunk, a branch is a list of trees.
pub enum Node {
    Leaf(ChunkView),
    Branch { list_type: u32, children: Seq<Node> },
}

/// The entry that a tree is written as: a branch is a list whose content is
/// the bytes of its children.
pub open spec fn tree_entry(n: Node) -> EntryView
    decreases n,
{
    match n {
        Node::Leaf(c) => EntryView::Chunk(c),
        Node::Branch { list_type, children } => EntryView::List(
            ListView { list_type, content: forest_bytes(children) },
        ),
    }
}

/// The bytes of trees written one behind the other.
pub open spec fn forest_bytes(ns: Seq<Node>) -> Seq<u8>
    decreases ns,
{
    if ns.len() == 0 {
        Seq::empty()
    } else {
        serialize_entry(tree_entry(ns[0])) + forest_bytes(ns.skip(1))
    }
}

/// The entries that trees are written as.
pub open spec fn tree_entries(ns: Seq<Node>) -> Seq<EntryView> {
    Seq::new(ns.len(), |i: int| tree_entry(ns[i]))
}

/// Whether every size field of a tree can hold its length, and no leaf is
/// tagged as a list.
pub open spec fn tree_writable(n: Node) -> bool
    decreases n,
{
    match n {
        Node::Leaf(c) => entry_writable(EntryView::Chunk(c)),
        Node::Branch { list_type, children } => {
            &&& forest_bytes(children).len() + 4 <= u32::MAX
            &&& forall|i: int| 0 <= i < children.len() ==> tree_writable(#[trigger] children[i])
        },
    }
}

/// Whether parsing the bytes of the trees gives their entries back, and
/// parsing the content of every list among them its children's, level by level.
pub open spec fn reparses(ns: Seq<Node>) -> bool
    decreases ns,
{
    &&& parse_entries(forest_bytes(ns)) == Some(tree_entries(ns))
    &&& forall|i: int|
        0 <= i < ns.len() ==> ((#[trigger] ns[i]) matches Node::Branch { children, .. }
            ==> reparses(children))
}

/// The bytes of trees are those of their entries.
pub proof fn lemma_forest_bytes(ns: Seq<Node>)
    ensures
        forest_bytes(ns) == serialize_entries(tree_entries(ns)),
    decreases ns.len(),
{
    if ns.len() > 0 {
        lemma_forest_bytes(ns.skip(1));
        assert(tree_entries(ns).skip(1) =~= tree_entries(ns.skip(1)));
    }
}

/// Round trip of a tree: serializing a constructed tree and parsing it again
/// yields the same tags, types and content bytes in the same order, on every
/// level. A leaf tagged `LIST` is left out: it would be read as a list.
pub proof fn lemma_tree_round_trip(ns: Seq<Node>)
    requires
        forall|i: int| 0 <= i < ns.len() ==> tree_writable(#[trigger] ns[i]),
    ensures
        reparses(ns),
    decreases ns,
{
    lemma_forest_bytes(ns);
    assert forall|i: int| 0 <= i < tree_entries(ns).len() implies entry_writable(
        #[trigger] tree_entries(ns)[i],
    ) by {
        assert(tree_writable(ns[i]));
    }
    lemma_parse_serialized_entries(tree_entries(ns));
    assert forall|i: int| 0 <= i < ns.len() implies ((#[trigger] ns[i]) matches Node::Branch {
        children,
        ..
    } ==> reparses(children)) by {
        match ns[i] {
            Node::Branch { list_type, children } => {
                assert(tree_writable(ns[i]));
                lemma_tree_round_trip(children);
            },
            Node::Leaf(_) => {},
        }
    }
}

/// Padding: a chunk of odd length is written with exactly one byte more, a
/// zero, and parsing skips that byte without handing it out.
pub proof fn lemma_odd_chunk_padding(c: ChunkView, rest: Seq<u8>)
    requires
        c.content.len() % 2 == 1,
        c.content.len() <= u32::MAX,
        c.id != LIST,
    ensures
        serialize_chunk(c).len() == 8 + c.content.len() + 1,
        serialize_chunk(c).last() == 0,
        serialize_chunk(c).subrange(8, 8 + c.content.len() as int) == c.content,
        parse_entry(serialize_chunk(c) + rest) == Some((EntryView::Chunk(c), rest)),
{
    lemma_parse_serialized_entry(EntryView::Chunk(c), rest);
    lemma_chunk_layout(c);
}

/// Where the parts of a written chunk lie.
pub proof fn lemma_chunk_layout(c: ChunkView)
    ensures
        serialize_chunk(c).len() == 8 + c.content.len() + c.content.len() % 2,
        serialize_chunk(c).subrange(8, 8 + c.content.len() as int) == c.content,
        c.content.len() % 2 == 1 ==> serialize_chunk(c).last() == 0,
{
    let n = c.content.len() as int;
    let a = le_bytes_u32(c.id);
    let b = le_bytes_u32(n as u32);
    let pad = pad_bytes(n);
    let s = a + b + c.content + pad;
    lemma_u32_of_le_bytes(c.id);
    lemma_u32_of_le_bytes(n as u32);
    assert(s.subrange(8, 8 + n) =~= c.content);
    if n % 2 == 1 {
        assert(pad.len() == 1 && pad[0] == 0);
        assert(s[8 + n] == pad[0]);
    }
}

/// Where the parts of a written list lie.
pub proof fn lemma_list_layout(l: ListView)
    ensures
        serialize_list(l).len() == 12 + l.content.len(),
        serialize_list(l).subrange(12, 12 + l.content.len() as int) == l.content,
{
    let n = l.content.len() as int;
    lemma_u32_of_le_bytes(LIST);
    lemma_u32_of_le_bytes((n + 4) as u32);
    lemma_u32_of_le_bytes(l.list_type);
    assert(serialize_list(l).subrange(12, 12 + n) =~= l.content);
}

/// Takes a 32-bit little-endian value off the front of `content`.
pub fn chop_u32(content: &mut &[u8]) -> (x: u32)
    requires
        old(content)@.len() >= 4,
    ensures
        x == u32_of_le(old(content)@),
        final(content)@ == old(content)@.subrange(4, old(content)@.len() as int),
{
    let c = *content;
    let x = read_u32(c, 0);
    *content = slice_subrange(c, 4, c.len());
    x
}

/// `size` rounded up to the next multiple of `width`.
pub fn pad_size(size: usize, width: usize) -> (r: usize)
    requires
        width > 0,
        size + width <= usize::MAX,
    ensures
        r == padded(size as int, width as int),
        size <= r < size + width,
        r % width == 0,
{
    let q: usize = (size + width - 1) / width;
    proof {
        let n = (size + width - 1) as int;
        let w = width as int;
        assert(n / w * w <= n && n - n / w * w < w && (n / w * w) % w == 0) by (nonlinear_arith)
            requires
                w > 0,
                n >= 0,
        ;
    }
    q * width
}

/// Whether `content` holds a whole entry at its front.
pub fn entry_fits(content: &[u8]) -> (b: bool)
    ensures
        b == parse_entry(content@).is_some(),
{
    if content.len() < 8 {
        return false;
    }
    let id = read_u32(content, 0);
    let size = read_u32(content, 4) as usize;
    let room: usize = content.len() - 8;
    proof {
        lemma_padded_even(size as int);
    }
    if id != LIST {
        size <= room && size % 2 <= room - size
    } else {
        size >= 4 && size <= room
    }
}

/// Whether the entry at the front of `content` is a list: its tag is the
/// reserved one.
pub fn entry_is_list(content: &[u8]) -> (b: bool)
    requires
        parse_entry(content@).is_some(),
    ensures
        b == (parse_entry(content@).unwrap().0 is List),
{
    read_u32(content, 0) == LIST
}

/// Takes the first entry off the front of `content`. A chunk's pad byte is
/// skipped and never part of what is returned.
pub fn chop_entry<'a>(content: &mut &'a [u8]) -> (entry: Entry<'a>)
    requires
        parse_entry(old(content)@).is_some(),
    ensures
        parse_entry(old(content)@) == Some((entry@, final(content)@)),
{
    let ghost s = old(content)@;
    let total: usize = content.len();
    let id = chop_u32(content);
    if id != LIST {
        let size = chop_u32(content) as usize;
        proof {
            lemma_padded_even(size as int);
            assert(size + 8 <= total);
            assert(content@ =~= s.subrange(8, s.len() as int));
            assert(u32_of_le(s.subrange(4, s.len() as int)) == u32_at(s, 4));
        }
        let size_padded = pad_size(size, 2);
        let c: &'a [u8] = *content;
        let chunk = Chunk { id: FOURCC::from_u32(id), content: slice_subrange(c, 0, size) };
        *content = slice_subrange(c, size_padded, c.len());
        proof {
            assert(chunk.content@ =~= s.subrange(8, 8 + size));
            assert(content@ =~= s.subrange(8 + padded(size as int, 2), s.len() as int));
        }
        Entry::Chunk(chunk)
    } else {
        let declared = chop_u32(content) as usize;
        proof {
            assert(u32_of_le(s.subrange(4, s.len() as int)) == u32_at(s, 4));
            assert(content@ =~= s.subrange(8, s.len() as int));
        }
        let size: usize = declared - 4;
        let list_type = FOURCC::from_u32(chop_u32(content));
        proof {
            assert(u32_of_le(s.subrange(8, s.len() as int)) == u32_at(s, 8));
            assert(content@ =~= s.subrange(12, s.len() as int));
        }
        let c: &'a [u8] = *content;
        let list = List { list_type, content: slice_subrange(c, 0, size) };
        *content = slice_subrange(c, size, c.len());
        proof {
            assert(list.content@ =~= s.subrange(12, 8 + declared));
            assert(content@ =~= s.subrange(8 + declared, s.len() as int));
        }
        Entry::List(list)
    }
}

/// What a sequence of entries is.
pub open spec fn entry_views<'a>(es: Seq<Entry<'a>>) -> Seq<EntryView> {
    Seq::new(es.len(), |i: int| es[i]@)
}

/// The entries of `more` behind those that are done.
pub open spec fn entries_after(done: Seq<EntryView>, more: Option<Seq<EntryView>>) -> Option<
    Seq<EntryView>,
> {
    match more {
        None => None,
        Some(m) => Some(done + m),
    }
}

/// Takes entry after entry off `content` until nothing is left: the entries
/// of one level of a tree, each a view into `content`. `None` where one of
/// them does not fit.
pub fn chop_entries<'a>(content: &'a [u8]) -> (r: Option<Vec<Entry<'a>>>)
    ensures
        match r {
            Some(entries) => parse_entries(content@) == Some(entry_views(entries@)),
            None => parse_entries(content@).is_none(),
        },
{
    let mut cur: &'a [u8] = content;
    let mut entries: Vec<Entry<'a>> = Vec::new();
    assert(entries_after(entry_views(entries@), parse_entries(cur@)) == parse_entries(content@))
        by {
        match parse_entries(cur@) {
            Some(m) => {
                assert(entry_views(entries@) + m =~= m);
            },
            None => {},
        }
    }
    while cur.len() > 0
        invariant
            parse_entries(content@) == entries_after(entry_views(entries@), parse_entries(cur@)),
        decreases cur@.len(),
    {
        let ghost before = cur@;
        let ghost done = entry_views(entries@);
        if !entry_fits(cur) {
            return None;
        }
        proof {
            lemma_parse_entry_shrinks(before);
        }
        let entry = chop_entry(&mut cur);
        entries.push(entry);
        proof {
            assert(entry_views(entries@) =~= done.push(entry@));
            match parse_entries(cur@) {
                Some(m) => {
                    assert(done + (seq![entry@] + m) =~= done.push(entry@) + m);
                },
                None => {},
            }
        }
    }
    proof {
        assert(entry_views(entries@) + Seq::<EntryView>::empty() =~= entry_views(entries@));
    }
    Some(entries)
}

/// Takes the first entry off the front of `content`, which is a chunk.
pub fn chop_chunk<'a>(content: &mut &'a [u8]) -> (chunk: Chunk<'a>)
    requires
        parse_entry(old(content)@).is_some(),
        parse_entry(old(content)@).unwrap().0 is Chunk,
    ensures
        parse_entry(old(content)@) == Some((EntryView::Chunk(chunk@), final(content)@)),
{
    match chop_entry(content) {
        Entry::Chunk(chunk) => chunk,
        Entry::List(_) => unreached(),
    }
}

/// Takes the first entry off the front of `content`, which is a list.
pub fn chop_list<'a>(content: &mut &'a [u8]) -> (list: List<'a>)
    requires
        parse_entry(old(content)@).is_some(),
        parse_entry(old(content)@).unwrap().0 is List,
    ensures
        parse_entry(old(content)@) == Some((EntryView::List(list@), final(content)@)),
{
    match chop_entry(content) {
        Entry::List(list) => list,
        Entry::Chunk(_) => unreached(),
    }
}

/// Appends a list: every size field is computed from the content at hand.
pub fn write_list<'a>(sink: &mut Vec<u8>, list: &List<'a>)
    requires
        list.content@.len() + 4 <= u32::MAX,
    ensures
        final(sink)@ == old(sink)@ + serialize_list(list@),
{
    put_u32(sink, LIST);
    let list_size: u32 = (list.content.len() + 4) as u32;
    put_u32(sink, list_size);
    put_u32(sink, list.list_type.to_u32());
    put_bytes(sink, list.content);
    assert(sink@ =~= old(sink)@ + serialize_list(list@));
}

/// Appends a chunk, and one zero byte behind it where its length is odd.
pub fn write_chunk<'a>(sink: &mut Vec<u8>, chunk: &Chunk<'a>)
    requires
        chunk.content@.len() <= u32::MAX,
    ensures
        final(sink)@ == old(sink)@ + serialize_chunk(chunk@),
{
    put_u32(sink, chunk.id.to_u32());
    let chunk_size: u32 = chunk.content.len() as u32;
    put_u32(sink, chunk_size);
    put_bytes(sink, chunk.content);
    if chunk_size % 2 != 0 {
        sink.push(0);
    }
    assert(sink@ =~= old(sink)@ + serialize_chunk(chunk@));
}

} // verus!
