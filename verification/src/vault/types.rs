//! Core types for vault data structures: positions and ranges in a document,
//! and the items that the Markdown parsers extract.

use vstd::prelude::*;

use super::rope::{
    byte_to_char, char_to_line, line_to_char, rope_byte_to_char, rope_char_to_line,
    rope_line_to_char,
};

verus! {

/// A zero-based line and character offset in a document.
#[derive(Debug, Default, PartialEq, Eq, Clone, Copy, Hash, Structural)]
pub struct Position {
    pub line: u32,
    pub character: u32,
}

/// A span between two positions in a document.
#[derive(Debug, Default, PartialEq, Eq, Clone, Copy, Hash, Structural)]
pub struct Range {
    pub start: Position,
    pub end: Position,
}

impl Position {
    pub fn new(line: u32, character: u32) -> (r: Position)
        ensures
            r.line == line,
            r.character == character,
    {
        Position { line, character }
    }
}

/// Represents a Markdown heading level (1-6).
#[derive(Eq, PartialEq, Debug, PartialOrd, Ord, Clone, Copy, Hash, Structural)]
pub struct HeadingLevel(pub usize);

impl Default for HeadingLevel {
    fn default() -> (r: HeadingLevel)
        ensures
            r.0 == 1,
    {
        HeadingLevel(1)
    }
}

/// A document range, as the vault stores it.
#[derive(Debug, Default, PartialEq, Eq, Clone, Copy, Hash, Structural)]
pub struct MyRange(pub Range);

impl core::ops::Deref for MyRange {
    type Target = Range;

    fn deref(&self) -> (r: &Range)
        ensures
            *r == self.0,
    {
        &self.0
    }
}

impl From<Range> for MyRange {
    fn from(value: Range) -> (r: MyRange) {
        MyRange(value)
    }
}

impl vstd::std_specs::convert::FromSpecImpl<Range> for MyRange {
    open spec fn obeys_from_spec() -> bool {
        true
    }

    open spec fn from_spec(v: Range) -> MyRange {
        MyRange(v)
    }
}

/// `a` comes at or before `b`.
pub open spec fn position_le(a: Position, b: Position) -> bool {
    a.line < b.line || (a.line == b.line && a.character <= b.character)
}

/// `outer` covers all of `inner`.
pub open spec fn range_includes(outer: Range, inner: Range) -> bool {
    position_le(outer.start, inner.start) && position_le(inner.end, outer.end)
}

/// `r` covers the position `p`.
pub open spec fn range_includes_position(r: Range, p: Position) -> bool {
    position_le(r.start, p) && position_le(p, r.end)
}

/// The range whose ends are the lines and columns, as ropey counts them, of
/// the UTF-8 byte offsets `start` and `end` of `text`.
pub open spec fn range_from_bytes(text: Seq<char>, start: nat, end: nat) -> Range {
    let cs = rope_byte_to_char(text, start);
    let ce = rope_byte_to_char(text, end);
    let ls = rope_char_to_line(text, cs);
    let le = rope_char_to_line(text, ce);
    Range {
        start: Position {
            line: ls as u32,
            character: (cs - rope_line_to_char(text, ls)->0) as u32,
        },
        end: Position {
            line: le as u32,
            character: (ce - rope_line_to_char(text, le)->0) as u32,
        },
    }
}

fn char_position(text: &str, byte_idx: usize) -> (r: Position)
    requires
        byte_idx <= text.len(),
    ensures
        ({
            let c = rope_byte_to_char(text@, byte_idx as nat);
            let l = rope_char_to_line(text@, c);
            r == Position {
                line: l as u32,
                character: (c - rope_line_to_char(text@, l)->0) as u32,
            }
        }),
{
    let c = byte_to_char(text, byte_idx);
    let l = char_to_line(text, c);
    let start = line_to_char(text, l);
    let s = match start {
        Some(s) => s,
        None => {
            proof {
                assert(false);
            }
            0
        },
    };
    Position { line: l as u32, character: (c - s) as u32 }
}

impl MyRange {
    /// Creates a `MyRange` from a UTF-8 byte range of `text`, converting both
    /// ends to line and character positions.
    pub fn from_range(text: &str, start: usize, end: usize) -> (r: MyRange)
        requires
            start <= text.len(),
            end <= text.len(),
        ensures
            r.0 == range_from_bytes(text@, start as nat, end as nat),
    {
        let s = char_position(text, start);
        let e = char_position(text, end);
        MyRange(Range { start: s, end: e })
    }

    /// The range of an AST node from its byte offsets; `None` when the node
    /// has no position or its offsets lie outside the text.
    pub fn from_ast_position(pos: Option<(usize, usize)>, text: &str) -> (r: Option<MyRange>)
        ensures
            r == (match pos {
                Some((s, e)) => if s <= text.len() && e <= text.len() {
                    Some(MyRange(range_from_bytes(text@, s as nat, e as nat)))
                } else {
                    None::<MyRange>
                },
                None => None::<MyRange>,
            }),
    {
        match pos {
            Some((s, e)) => {
                let n = text.len();
                if s <= n && e <= n {
                    Some(MyRange::from_range(text, s, e))
                } else {
                    None
                }
            },
            None => None,
        }
    }
}

/// Something that spans a range of a document.
pub trait Rangeable {
    spec fn spec_range(&self) -> Range;

    fn range(&self) -> (r: &MyRange)
        ensures
            r.0 == self.spec_range(),
    ;
}

/// Whether `outer` covers all of `inner`.
pub fn includes(outer: &MyRange, inner: &MyRange) -> (b: bool)
    ensures
        b == range_includes(outer.0, inner.0),
{
    let a = outer.0;
    let o = inner.0;
    (a.start.line < o.start.line || (a.start.line == o.start.line && a.start.character
        <= o.start.character)) && (a.end.line > o.end.line || (a.end.line == o.end.line
        && a.end.character >= o.end.character))
}

/// Whether `r` covers `position`.
pub fn includes_position(r: &MyRange, position: Position) -> (b: bool)
    ensures
        b == range_includes_position(r.0, position),
{
    let range = r.0;
    (range.start.line < position.line || (range.start.line == position.line
        && range.start.character <= position.character)) && (range.end.line > position.line
        || (range.end.line == position.line && range.end.character >= position.character))
}

/// Inclusion of ranges is reflexive.
pub proof fn lemma_includes_reflexive(r: Range)
    ensures
        range_includes(r, r),
{
}

/// Inclusion of ranges is transitive: a range that covers a range that covers
/// a third covers the third.
pub proof fn lemma_includes_transitive(a: Range, b: Range, c: Range)
    requires
        range_includes(a, b),
        range_includes(b, c),
    ensures
        range_includes(a, c),
{
}

/// A range that covers another covers every position that the other covers.
pub proof fn lemma_includes_positions(a: Range, b: Range, p: Position)
    requires
        range_includes(a, b),
        range_includes_position(b, p),
    ensures
        range_includes_position(a, p),
{
}

/// A parsed Markdown heading with text, position range, and heading level.
#[derive(Debug, Default, PartialEq, Eq, Clone)]
pub struct MDHeading {
    pub heading_text: String,
    pub range: MyRange,
    pub level: HeadingLevel,
}

/// An indexed block in Markdown, referenced via `^index`.
#[derive(Debug, PartialEq, Eq, Clone)]
pub struct MDIndexedBlock {
    /// The index of the block; does not include '^'
    pub index: String,
    pub range: MyRange,
}

/// A footnote definition in Markdown.
#[derive(Debug, Eq, PartialEq, Clone)]
pub struct MDFootnote {
    pub index: String,
    pub footnote_text: String,
    pub range: MyRange,
}

/// A tag reference in Markdown (e.g., `#topic`).
#[derive(Debug, PartialEq, Eq, Clone)]
pub struct MDTag {
    pub tag_ref: String,
    pub range: MyRange,
}

/// A link reference definition (e.g., `[label]: url "title"`).
#[derive(Clone, Eq, PartialEq, Debug)]
pub struct MDLinkReferenceDefinition {
    pub link_ref_name: String,
    pub range: MyRange,
    pub url: String,
    pub title: Option<String>,
}

/// A substitution definition from frontmatter: `name: value`, used as `{{name}}`.
#[derive(Clone, Eq, PartialEq, Debug)]
pub struct MDSubstitutionDef {
    pub name: String,
    pub value: String,
}

/// A fenced code block.
#[derive(Clone, Eq, PartialEq, Debug, Default)]
pub struct MDCodeBlock {
    pub range: MyRange,
}

impl Rangeable for MDHeading {
    open spec fn spec_range(&self) -> Range {
        self.range.0
    }

    fn range(&self) -> (r: &MyRange) {
        &self.range
    }
}

impl Rangeable for MDFootnote {
    open spec fn spec_range(&self) -> Range {
        self.range.0
    }

    fn range(&self) -> (r: &MyRange) {
        &self.range
    }
}

impl Rangeable for MDIndexedBlock {
    open spec fn spec_range(&self) -> Range {
        self.range.0
    }

    fn range(&self) -> (r: &MyRange) {
        &self.range
    }
}

impl Rangeable for MDTag {
    open spec fn spec_range(&self) -> Range {
        self.range.0
    }

    fn range(&self) -> (r: &MyRange) {
        &self.range
    }
}

impl Rangeable for MDLinkReferenceDefinition {
    open spec fn spec_range(&self) -> Range {
        self.range.0
    }

    fn range(&self) -> (r: &MyRange) {
        &self.range
    }
}

impl Rangeable for MDCodeBlock {
    open spec fn spec_range(&self) -> Range {
        self.range.0
    }

    fn range(&self) -> (r: &MyRange) {
        &self.range
    }
}

} // verus!
