//! Configuration documents.
//!
//! The `kdl` crate reads and formats them. What the configuration looks at is copied from its
//! document into the plain types here: the nodes of the document and those of their child blocks.

use crate::listing;
use crate::listing::group_each;
use crate::text;
use kdl::{FormatConfig, KdlDocument};
use vstd::prelude::*;

verus! {

broadcast use group_each;

/// A value of a node. Numbers with a fraction and null are told apart from nothing else.
#[derive(Debug, Eq, PartialEq)]
pub enum Value {
    Text(String),
    Integer(i128),
    Bool(bool),
    Other,
}

pub enum ValueView {
    Text(Seq<char>),
    Integer(i128),
    Bool(bool),
    Other,
}

impl View for Value {
    type V = ValueView;

    open spec fn view(&self) -> ValueView {
        match self {
            Value::Text(text) => ValueView::Text(text@),
            Value::Integer(n) => ValueView::Integer(*n),
            Value::Bool(b) => ValueView::Bool(*b),
            Value::Other => ValueView::Other,
        }
    }
}

/// An argument of a node, or a property where it has a name.
#[derive(Debug, Eq, PartialEq)]
pub struct Entry {
    pub name: Option<String>,
    pub value: Value,
}

#[verifier::ext_equal]
pub struct EntryView {
    pub name: Option<Seq<char>>,
    pub value: ValueView,
}

impl View for Entry {
    type V = EntryView;

    open spec fn view(&self) -> EntryView {
        EntryView { name: text::characters(self.name), value: self.value@ }
    }
}

#[derive(Debug, Eq, PartialEq)]
pub struct Node {
    pub name: String,
    pub entries: Vec<Entry>,
    pub has_children: bool,
    /// Where the node starts in the text, in bytes.
    pub offset: usize,
}

#[verifier::ext_equal]
pub struct NodeView {
    pub name: Seq<char>,
    pub entries: Seq<EntryView>,
    pub has_children: bool,
    pub offset: usize,
}

impl View for Node {
    type V = NodeView;

    open spec fn view(&self) -> NodeView {
        NodeView {
            name: self.name@,
            entries: listing::each(self.entries@),
            has_children: self.has_children,
            offset: self.offset,
        }
    }
}

/// A node of the document with the nodes of its child block.
#[derive(Debug, Eq, PartialEq)]
pub struct Section {
    pub node: Node,
    pub children: Vec<Node>,
}

#[verifier::ext_equal]
pub struct SectionView {
    pub node: NodeView,
    pub children: Seq<NodeView>,
}

impl View for Section {
    type V = SectionView;

    open spec fn view(&self) -> SectionView {
        SectionView { node: self.node@, children: listing::each(self.children@) }
    }
}

/// Something that is wrong with the text of a document.
#[derive(Debug, Eq, PartialEq)]
pub struct Diagnostic {
    pub message: String,
    /// Where it is in the text, in bytes.
    pub offset: usize,
}

#[verifier::ext_equal]
pub struct DiagnosticView {
    pub message: Seq<char>,
    pub offset: usize,
}

impl View for Diagnostic {
    type V = DiagnosticView;

    open spec fn view(&self) -> DiagnosticView {
        DiagnosticView { message: self.message@, offset: self.offset }
    }
}

/// A document as the `kdl` crate holds it.
#[verifier::external_type_specification]
#[verifier::external_body]
pub struct ExKdlDocument(kdl::KdlDocument);

/// The nodes of a document.
pub uninterp spec fn nodes(document: KdlDocument) -> Seq<NodeView>;

/// The nodes of the child block of each node of a document that has one.
pub uninterp spec fn blocks(document: KdlDocument) -> Seq<Seq<NodeView>>;

/// Where the entries of a document are that stand one space behind what is before them: the place
/// of the node, zero or the place of the node in its child block counted from one, and the place
/// of the entry.
pub uninterp spec fn spaced(document: KdlDocument) -> Set<(int, int, int)>;

/// The text of a document in its usual form, once the entries of its nodes, and of the nodes in
/// their child blocks, stand one space behind what is before them. Each entry is as it was spelt.
pub uninterp spec fn tidy(document: KdlDocument) -> Seq<char>;

/// The sections of the document that a text holds, or what is wrong with the text as a document.
pub uninterp spec fn parsed(contents: Seq<char>) -> Result<Seq<SectionView>, Seq<DiagnosticView>>;

/// The text of the document that a text holds in its usual form, with each entry as it was spelt.
pub uninterp spec fn formatted(contents: Seq<char>) -> Seq<char>;

/// The nodes of a document, each with the nodes of its child block.
pub open spec fn sections(document: KdlDocument) -> Seq<SectionView> {
    Seq::new(
        nodes(document).len(),
        |i: int|
            SectionView {
                node: nodes(document)[i],
                children: if nodes(document)[i].has_children {
                    blocks(document)[i]
                } else {
                    Seq::empty()
                },
            },
    )
}

/// Reads a document by `str::parse` of `kdl::KdlDocument`. What it holds, or each of the
/// diagnostics of `kdl::KdlError` with its message and the offset of its span, depends on the
/// text alone; the grammar is left to the crate.
#[verifier::external_body]
pub(crate) fn parse_document(contents: &str) -> (r: Result<KdlDocument, Vec<Diagnostic>>)
    ensures
        match r {
            Ok(document) => parsed(contents@) == Ok::<Seq<SectionView>, Seq<DiagnosticView>>(
                sections(document),
            ) && tidy(document) == formatted(contents@),
            Err(list) => parsed(contents@) == Err::<Seq<SectionView>, Seq<DiagnosticView>>(
                listing::each(list@),
            ),
        },
{
    match contents.parse::<KdlDocument>() {
        Ok(document) => Ok(document),
        Err(error) => Err(
            error.diagnostics.iter().map(
                |d| Diagnostic { message: d.to_string(), offset: d.span.offset() },
            ).collect(),
        ),
    }
}

/// Whether all entries of the nodes of a document, and of the nodes in their child blocks, stand
/// one space behind what is before them.
pub open spec fn all_spaced(document: KdlDocument) -> bool {
    &&& forall|i: int, j: int|
        0 <= i < nodes(document).len() && 0 <= j < nodes(document)[i].entries.len()
            ==> #[trigger] spaced(document).contains((i, 0, j))
    &&& forall|i: int, c: int, j: int|
        0 <= i < nodes(document).len() && nodes(document)[i].has_children && 0 <= c < blocks(
            document,
        )[i].len() && 0 <= j < blocks(document)[i][c].entries.len() ==> #[trigger] spaced(
            document,
        ).contains((i, c + 1, j))
}

/// Writes a document in its usual form by `KdlDocument::autoformat_config`, told to keep each entry
/// as it is, and `to_string`. The form is left to the crate.
#[verifier::external_body]
fn format_spaced(document: KdlDocument, keep_entries: bool) -> (r: String)
    requires
        keep_entries,
        all_spaced(document),
    ensures
        r@ == tidy(document),
{
    let mut document = document;
    let mut config = FormatConfig::default();
    config.entry_autoformate_keep = keep_entries;
    document.autoformat_config(&config);
    document.to_string()
}

/// Sets what stands before an entry of a node, by `KdlNode::entries_mut` and the `leading` of
/// `KdlEntry::format_mut`. What the document holds stays; an entry that has no format of its own is
/// written behind a space anyway.
#[verifier::external_body]
fn space_entry(document: &mut KdlDocument, i: usize, j: usize, space: &str)
    requires
        i < nodes(*old(document)).len(),
        j < nodes(*old(document))[i as int].entries.len(),
        space@ == seq![' '],
    ensures
        nodes(*final(document)) == nodes(*old(document)),
        blocks(*final(document)) == blocks(*old(document)),
        tidy(*final(document)) == tidy(*old(document)),
        spaced(*final(document)) == spaced(*old(document)).insert((i as int, 0, j as int)),
{
    if let Some(format) = document.nodes_mut()[i].entries_mut()[j].format_mut() {
        format.leading = space.to_owned();
    }
}

/// Sets what stands before an entry of a node in a child block, by `KdlNode::children_mut` and as
/// for an entry of the node itself.
#[verifier::external_body]
fn space_child_entry(document: &mut KdlDocument, i: usize, c: usize, j: usize, space: &str)
    requires
        i < nodes(*old(document)).len(),
        nodes(*old(document))[i as int].has_children,
        c < blocks(*old(document))[i as int].len(),
        j < blocks(*old(document))[i as int][c as int].entries.len(),
        space@ == seq![' '],
    ensures
        nodes(*final(document)) == nodes(*old(document)),
        blocks(*final(document)) == blocks(*old(document)),
        tidy(*final(document)) == tidy(*old(document)),
        spaced(*final(document)) == spaced(*old(document)).insert((i as int, c + 1, j as int)),
{
    if let Some(block) = document.nodes_mut()[i].children_mut() {
        if let Some(format) = block.nodes_mut()[c].entries_mut()[j].format_mut() {
            format.leading = space.to_owned();
        }
    }
}

/// The number of nodes that `KdlDocument::nodes` gives.
#[verifier::external_body]
fn node_count(document: &KdlDocument) -> (r: usize)
    ensures
        r == nodes(*document).len(),
{
    document.nodes().len()
}

/// The text of `KdlNode::name` of a node.
#[verifier::external_body]
fn node_name(document: &KdlDocument, i: usize) -> (r: String)
    requires
        i < nodes(*document).len(),
    ensures
        r@ == nodes(*document)[i as int].name,
{
    document.nodes()[i].name().value().to_owned()
}

/// The offset of `KdlNode::span` of a node.
#[verifier::external_body]
fn node_offset(document: &KdlDocument, i: usize) -> (r: usize)
    requires
        i < nodes(*document).len(),
    ensures
        r == nodes(*document)[i as int].offset,
{
    document.nodes()[i].span().offset()
}

/// A copy of `KdlNode::children` of a node, where it has any.
#[verifier::external_body]
fn node_block(document: &KdlDocument, i: usize) -> (r: Option<KdlDocument>)
    requires
        i < nodes(*document).len(),
    ensures
        match r {
            Some(block) => nodes(*document)[i as int].has_children && nodes(block) == blocks(
                *document,
            )[i as int],
            None => !nodes(*document)[i as int].has_children,
        },
{
    document.nodes()[i].children().cloned()
}

/// The number of entries that `KdlNode::entries` gives for a node.
#[verifier::external_body]
fn entry_count(document: &KdlDocument, i: usize) -> (r: usize)
    requires
        i < nodes(*document).len(),
    ensures
        r == nodes(*document)[i as int].entries.len(),
{
    document.nodes()[i].entries().len()
}

/// An entry that `KdlNode::entries` gives for a node: the text of its name and its value.
#[verifier::external_body]
fn entry_at(document: &KdlDocument, i: usize, j: usize) -> (r: Entry)
    requires
        i < nodes(*document).len(),
        j < nodes(*document)[i as int].entries.len(),
    ensures
        r@ == nodes(*document)[i as int].entries[j as int],
{
    let entry = &document.nodes()[i].entries()[j];
    let value = match entry.value() {
        kdl::KdlValue::String(text) => Value::Text(text.clone()),
        kdl::KdlValue::Integer(n) => Value::Integer(*n),
        kdl::KdlValue::Bool(b) => Value::Bool(*b),
        kdl::KdlValue::Float(_) => Value::Other,
        kdl::KdlValue::Null => Value::Other,
    };
    Entry { name: entry.name().map(|name| name.value().to_owned()), value }
}

fn read_node(document: &KdlDocument, i: usize) -> (r: (Node, Option<KdlDocument>))
    requires
        i < nodes(*document).len(),
    ensures
        r.0@ == nodes(*document)[i as int],
        match r.1 {
            Some(block) => r.0@.has_children && nodes(block) == blocks(*document)[i as int],
            None => !r.0@.has_children,
        },
{
    let count: usize = entry_count(document, i);
    let ghost goal = nodes(*document)[i as int].entries;
    let mut entries: Vec<Entry> = Vec::new();
    let mut j: usize = 0;
    while j < count
        invariant
            i < nodes(*document).len(),
            goal == nodes(*document)[i as int].entries,
            j <= count == goal.len(),
            listing::each(entries@) == goal.take(j as int),
        decreases count - j,
    {
        entries.push(entry_at(document, i, j));
        j = j + 1;
        assert(goal.take(j as int) =~= goal.take(j - 1).push(goal[j - 1]));
    }
    assert(goal.take(j as int) =~= goal);
    let block: Option<KdlDocument> = node_block(document, i);
    let has_children: bool = block.is_some();
    let node = Node {
        name: node_name(document, i),
        entries,
        has_children,
        offset: node_offset(document, i),
    };
    (node, block)
}

fn read_nodes(document: &KdlDocument) -> (r: Vec<Node>)
    ensures
        listing::each(r@) == nodes(*document),
{
    let count: usize = node_count(document);
    let ghost goal = nodes(*document);
    let mut list: Vec<Node> = Vec::new();
    let mut i: usize = 0;
    while i < count
        invariant
            goal == nodes(*document),
            i <= count == goal.len(),
            listing::each(list@) == goal.take(i as int),
        decreases count - i,
    {
        list.push(read_node(document, i).0);
        i = i + 1;
        assert(goal.take(i as int) =~= goal.take(i - 1).push(goal[i - 1]));
    }
    assert(goal.take(i as int) =~= goal);
    list
}

/// The nodes of a document, each with the nodes of its child block.
pub(crate) fn read_sections(document: &KdlDocument) -> (r: Vec<Section>)
    ensures
        listing::each(r@) == sections(*document),
{
    let count: usize = node_count(document);
    let ghost goal = sections(*document);
    let mut list: Vec<Section> = Vec::new();
    let mut i: usize = 0;
    while i < count
        invariant
            goal == sections(*document),
            count == nodes(*document).len(),
            i <= count == goal.len(),
            listing::each(list@) == goal.take(i as int),
        decreases count - i,
    {
        let (node, block): (Node, Option<KdlDocument>) = read_node(document, i);
        let children: Vec<Node> = match block {
            Some(block) => read_nodes(&block),
            None => Vec::new(),
        };
        let section = Section { node, children };
        assert(section@ =~= goal[i as int]);
        list.push(section);
        i = i + 1;
        assert(goal.take(i as int) =~= goal.take(i - 1).push(goal[i - 1]));
    }
    assert(goal.take(i as int) =~= goal);
    list
}

/// Whether a document is another one but for how many of its entries stand one space behind what
/// is before them.
spec fn respaced(from: KdlDocument, to: KdlDocument) -> bool {
    &&& nodes(to) == nodes(from)
    &&& blocks(to) == blocks(from)
    &&& tidy(to) == tidy(from)
    &&& spaced(from).subset_of(spaced(to))
}

/// Puts the entries of a node, and of the nodes in its child block, one space behind what is before
/// them.
fn space_node(document: &mut KdlDocument, i: usize)
    requires
        i < nodes(*old(document)).len(),
    ensures
        respaced(*old(document), *final(document)),
        forall|j: int|
            0 <= j < nodes(*old(document))[i as int].entries.len() ==> #[trigger] spaced(
                *final(document),
            ).contains((i as int, 0, j)),
        forall|c: int, j: int|
            nodes(*old(document))[i as int].has_children && 0 <= c < blocks(
                *old(document),
            )[i as int].len() && 0 <= j < blocks(*old(document))[i as int][c].entries.len()
                ==> #[trigger] spaced(*final(document)).contains((i as int, c + 1, j)),
{
    let ghost start = *document;
    let ghost own = nodes(start)[i as int].entries.len();
    let space: String = " ".to_owned();
    proof {
        reveal_strlit(" ");
        assert(space@ =~= seq![' ']);
    }
    let count: usize = entry_count(document, i);
    let mut j: usize = 0;
    while j < count
        invariant
            i < nodes(start).len(),
            j <= count == own,
            own == nodes(start)[i as int].entries.len(),
            space@ == seq![' '],
            respaced(start, *document),
            forall|k: int| 0 <= k < j ==> #[trigger] spaced(*document).contains((i as int, 0, k)),
        decreases count - j,
    {
        space_entry(document, i, j, space.as_str());
        j = j + 1;
    }
    let block: Option<KdlDocument> = node_block(document, i);
    if let Some(block) = block {
        let ghost all = blocks(start)[i as int];
        let size: usize = node_count(&block);
        let mut c: usize = 0;
        while c < size
            invariant
                i < nodes(start).len(),
                nodes(start)[i as int].has_children,
                c <= size == all.len(),
                all == blocks(start)[i as int],
                nodes(block) == all,
                space@ == seq![' '],
                own == nodes(start)[i as int].entries.len(),
                respaced(start, *document),
                forall|k: int|
                    0 <= k < own ==> #[trigger] spaced(*document).contains((i as int, 0, k)),
                forall|a: int, k: int|
                    0 <= a < c && 0 <= k < all[a].entries.len() ==> #[trigger] spaced(
                        *document,
                    ).contains((i as int, a + 1, k)),
            decreases size - c,
        {
            let entries: usize = entry_count(&block, c);
            let mut n: usize = 0;
            while n < entries
                invariant
                    i < nodes(start).len(),
                    nodes(start)[i as int].has_children,
                    c < size == all.len(),
                    all == blocks(start)[i as int],
                    n <= entries == all[c as int].entries.len(),
                    space@ == seq![' '],
                    own == nodes(start)[i as int].entries.len(),
                    respaced(start, *document),
                    forall|k: int|
                        0 <= k < own ==> #[trigger] spaced(*document).contains((i as int, 0, k)),
                    forall|a: int, k: int|
                        0 <= a < c && 0 <= k < all[a].entries.len() ==> #[trigger] spaced(
                            *document,
                        ).contains((i as int, a + 1, k)),
                    forall|k: int|
                        0 <= k < n ==> #[trigger] spaced(*document).contains(
                            (i as int, c + 1, k),
                        ),
                decreases entries - n,
            {
                space_child_entry(document, i, c, n, space.as_str());
                n = n + 1;
            }
            c = c + 1;
        }
    }
}

/// Writes a document in its usual form: its entries one space apart, and each as it was spelt.
pub(crate) fn format_document(document: KdlDocument) -> (r: String)
    ensures
        r@ == tidy(document),
{
    let mut document: KdlDocument = document;
    let ghost start = document;
    let count: usize = node_count(&document);
    let mut i: usize = 0;
    while i < count
        invariant
            i <= count == nodes(start).len(),
            respaced(start, document),
            forall|a: int, j: int|
                0 <= a < i && 0 <= j < nodes(start)[a].entries.len() ==> #[trigger] spaced(
                    document,
                ).contains((a, 0, j)),
            forall|a: int, c: int, j: int|
                0 <= a < i && nodes(start)[a].has_children && 0 <= c < blocks(start)[a].len() && 0
                    <= j < blocks(start)[a][c].entries.len() ==> #[trigger] spaced(
                    document,
                ).contains((a, c + 1, j)),
        decreases count - i,
    {
        space_node(&mut document, i);
        i = i + 1;
    }
    format_spaced(document, true)
}

} // verus!
