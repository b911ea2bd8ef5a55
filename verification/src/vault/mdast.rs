//! The Markdown syntax tree that `markdown` (markdown-rs) builds, held as
//! plain values: the nodes in document (pre-)order, each with the fields the
//! extractors read and the indices of its children.

use vstd::prelude::*;

use markdown::mdast::Node as N;

use super::helpers::opt_view;

verus! {

/// The kinds of syntax-tree node that the extractors tell apart.
#[derive(Debug, Clone, Copy, PartialEq, Eq, Structural)]
pub enum MdKind {
    Root,
    Paragraph,
    Text,
    InlineCode,
    Code,
    Link,
    Image,
    LinkReference,
    FootnoteReference,
    Definition,
    Other,
}

/// Where a node lies in the source: UTF-8 byte offsets of its start and end,
/// and the (1-based) line where it starts.
#[derive(Debug, Clone, Copy, PartialEq, Eq, Structural)]
pub struct MdPosition {
    pub start_offset: usize,
    pub end_offset: usize,
    pub start_line: usize,
}

/// One node of the tree. `value` is the text of a text, inline-code or code
/// node; `url` that of a link or image; `alt` an image's alternative text;
/// `identifier` that of a link reference, footnote reference or definition;
/// `lang` a code block's info string language. Fields a kind does not have
/// are empty.
#[derive(Debug, Clone, PartialEq, Eq)]
pub struct MdNode {
    pub kind: MdKind,
    pub position: Option<MdPosition>,
    pub value: String,
    pub url: String,
    pub alt: String,
    pub identifier: String,
    pub lang: Option<String>,
    pub children: Vec<usize>,
}

/// A node as plain values.
pub struct MdNodeView {
    pub kind: MdKind,
    pub position: Option<MdPosition>,
    pub value: Seq<char>,
    pub url: Seq<char>,
    pub alt: Seq<char>,
    pub identifier: Seq<char>,
    pub lang: Option<Seq<char>>,
    pub children: Seq<usize>,
}

impl View for MdNode {
    type V = MdNodeView;

    open spec fn view(&self) -> MdNodeView {
        MdNodeView {
            kind: self.kind,
            position: self.position,
            value: self.value@,
            url: self.url@,
            alt: self.alt@,
            identifier: self.identifier@,
            lang: opt_view(self.lang),
            children: self.children@,
        }
    }
}

/// The nodes as plain values.
pub open spec fn node_views(v: Seq<MdNode>) -> Seq<MdNodeView> {
    v.map_values(|n: MdNode| n@)
}

/// The tree is well formed: it has a root, every child comes after its
/// parent, and text, inline-code and code nodes have no children.
pub open spec fn tree_wf(nodes: Seq<MdNodeView>) -> bool {
    &&& nodes.len() > 0
    &&& forall|i: int, j: int|
        0 <= i < nodes.len() && 0 <= j < nodes[i].children.len() ==> i < #[trigger] nodes[i].children[j]
            < nodes.len()
    &&& forall|i: int|
        0 <= i < nodes.len() && (nodes[i].kind == MdKind::Text || nodes[i].kind == MdKind::InlineCode
            || nodes[i].kind == MdKind::Code) ==> #[trigger] nodes[i].children.len() == 0
}

/// Every node's position lies within a text of `len` bytes.
pub open spec fn positions_within(nodes: Seq<MdNodeView>, len: nat) -> bool {
    forall|i: int|
        0 <= i < nodes.len() && #[trigger] nodes[i].position is Some ==> nodes[i].position->0.start_offset
            <= nodes[i].position->0.end_offset <= len
}

/// What `markdown::to_mdast` builds for a text, with the CommonMark options
/// (`gfm` false) or the GitHub-flavoured ones (`gfm` true), as its nodes in
/// document order; `None` when it reports an error.
pub uninterp spec fn markdown_tree(text: Seq<char>, gfm: bool) -> Option<Seq<MdNodeView>>;

#[verifier::external_type_specification]
#[verifier::external_body]
pub struct ExMdastNode(markdown::mdast::Node);

/// The kind of a `markdown::mdast::Node`, one variant for one.
#[verifier::external_body]
fn node_kind(node: &N) -> MdKind {
    match node {
        N::Root(_) => MdKind::Root,
        N::Paragraph(_) => MdKind::Paragraph,
        N::Text(_) => MdKind::Text,
        N::InlineCode(_) => MdKind::InlineCode,
        N::Code(_) => MdKind::Code,
        N::Link(_) => MdKind::Link,
        N::Image(_) => MdKind::Image,
        N::LinkReference(_) => MdKind::LinkReference,
        N::FootnoteReference(_) => MdKind::FootnoteReference,
        N::Definition(_) => MdKind::Definition,
        _ => MdKind::Other,
    }
}

/// The `value` field of a text, inline-code or code node.
#[verifier::external_body]
fn node_value(node: &N) -> String {
    match node {
        N::Text(t) => t.value.clone(),
        N::InlineCode(c) => c.value.clone(),
        N::Code(c) => c.value.clone(),
        _ => String::new(),
    }
}

/// The `url` field of a link, image or definition node.
#[verifier::external_body]
fn node_url(node: &N) -> String {
    match node {
        N::Link(l) => l.url.clone(),
        N::Image(i) => i.url.clone(),
        N::Definition(d) => d.url.clone(),
        _ => String::new(),
    }
}

/// The `alt` field of an image node.
#[verifier::external_body]
fn node_alt(node: &N) -> String {
    match node {
        N::Image(i) => i.alt.clone(),
        _ => String::new(),
    }
}

/// The `identifier` field of a link reference, footnote reference or
/// definition node.
#[verifier::external_body]
fn node_identifier(node: &N) -> String {
    match node {
        N::LinkReference(r) => r.identifier.clone(),
        N::FootnoteReference(r) => r.identifier.clone(),
        N::Definition(d) => d.identifier.clone(),
        _ => String::new(),
    }
}

/// The `lang` field of a code node.
#[verifier::external_body]
fn node_lang(node: &N) -> Option<String> {
    match node {
        N::Code(c) => c.lang.clone(),
        _ => None,
    }
}

/// The start and end offsets and the start line of a node's position.
#[verifier::external_body]
fn node_position(node: &N) -> Option<MdPosition> {
    node.position().map(|p| MdPosition {
        start_offset: p.start.offset,
        end_offset: p.end.offset,
        start_line: p.start.line,
    })
}

/// Appends `node` and its descendants to `out` in document order, each with
/// its fields and the indices of its children.
#[verifier::external_body]
fn flatten_node(node: &N, out: &mut Vec<MdNode>) {
    let me = out.len();
    out.push(MdNode { kind: node_kind(node), position: node_position(node), value: node_value(node),
        url: node_url(node), alt: node_alt(node), identifier: node_identifier(node),
        lang: node_lang(node), children: Vec::new() });
    for child in node.children().into_iter().flatten() {
        let index = out.len();
        out[me].children.push(index);
        flatten_node(child, out);
    }
}

/// `markdown::to_mdast` with the CommonMark options (`gfm` false) or the
/// GitHub-flavoured ones (`gfm` true): the syntax tree of `text` as its
/// nodes in document order. The tree is a function of the text and the
/// options. As flattened here, children follow their parent and literal
/// nodes have none. The `markdown` documentation of `unist::Point` calls an
/// offset the index of a character; the library reads offsets as byte
/// offsets of `text`, as the parser counts them. The clause that offsets lie
/// within the text's byte length holds under either reading, since a text
/// has no more characters than bytes.
#[verifier::external_body]
pub(crate) fn parse_markdown(text: &str, gfm: bool) -> (r: Option<Vec<MdNode>>)
    ensures
        match r {
            Some(v) => markdown_tree(text@, gfm) == Some(node_views(v@)) && tree_wf(node_views(v@))
                && positions_within(node_views(v@), text.len() as nat),
            None => markdown_tree(text@, gfm) is None,
        },
{
    let opts = if gfm { markdown::ParseOptions::gfm() } else { markdown::ParseOptions::default() };
    let root = markdown::to_mdast(text, &opts).ok()?;
    let mut out = Vec::new();
    flatten_node(&root, &mut out);
    Some(out)
}

} // verus!
