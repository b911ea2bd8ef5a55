//! Line-level Markdown items found by pattern: headings, indexed blocks,
//! footnote definitions, tags and link reference definitions.

use vstd::prelude::*;

use super::mdast::{markdown_tree, node_views, MdKind, MdNodeView};
use super::types::{
    range_from_bytes, HeadingLevel, MDCodeBlock, MDFootnote, MDHeading, MDIndexedBlock,
    MDLinkReferenceDefinition, MDTag, MyRange, Range,
};
use super::preview::{trim, trim_start, trimmed, trimmed_start};
use crate::pattern::{
    all_captures_view, all_matches, captures_view, group, group_view, grp, groups_within,
    regex_captures, GroupMatch,
};
use crate::myst_parser::syntax_tree;
use crate::text::{chars_of, trim_end, trimmed_end};

verus! {

/// A heading: one or more `#`, a space, and the heading text.
pub const HEADING_PATTERN: &'static str = r"(?<starter>#+) (?<heading_text>.+)";

/// A block ending in ` ^index`.
pub const INDEXED_BLOCK_PATTERN: &'static str = r".+ (\^(?<index>\w+))";

/// A footnote definition `[^index]: text`.
pub const FOOTNOTE_DEFINITION_PATTERN: &'static str =
    r"\x5B(?<index>\^[^ \x5B\x5D]+)\x5D\:(?<text>.+)";

/// A link reference definition `[name]: url` (the name not starting with `^`).
pub const LINK_REFERENCE_DEFINITION_PATTERN: &'static str =
    r"\x5B(?<index>[^\^][^ \x5B\x5D]+)\x5D\:(?<text>.+)";

/// A tag: `#` after the start, a line break or whitespace, then a first
/// character that is a letter, `_`, `/`, `-` or a quote, then letters,
/// digits and the same marks.
pub const TAG_PATTERN: &'static str =
    r#"(?:\A|\n|\s)(?<full>\#(?<tag>[\p{L}_/'"‘’“”-][\p{L}0-9_/'"‘’“”-]*))"#;

/// What `char::is_alphabetic` answers: Unicode's alphabetic property.
pub uninterp spec fn char_alphabetic(c: char) -> bool;

/// `char::is_alphabetic`.
#[verifier::external_body]
fn is_alphabetic(c: char) -> (r: bool)
    ensures
        r == char_alphabetic(c),
{
    c.is_alphabetic()
}

/// The range of a group's bytes in the text.
pub open spec fn group_range(text: Seq<char>, g: (nat, nat, Seq<char>)) -> Range {
    range_from_bytes(text, g.0, g.1)
}

fn range_of_group(text: &str, g: &GroupMatch) -> (r: MyRange)
    requires
        g.start <= g.end <= text.len(),
    ensures
        r.0 == range_from_bytes(text@, g.start as nat, g.end as nat),
{
    MyRange::from_range(text, g.start, g.end)
}

// ---------------------------------------------------------------------------
// Headings
// ---------------------------------------------------------------------------

/// A heading as plain values: text, range, level.
pub open spec fn heading_view(h: MDHeading) -> (Seq<char>, Range, usize) {
    (h.heading_text@, h.range.0, h.level.0)
}

/// The heading of one match: the heading text without trailing whitespace,
/// the range of the whole match, and the number of `#`.
pub open spec fn heading_of_match(m: Seq<Option<(nat, nat, Seq<char>)>>, text: Seq<char>) -> Option<
    (Seq<char>, Range, usize),
> {
    match (grp(m, 0), grp(m, 2), grp(m, 1)) {
        (Some(full), Some(t), Some(starter)) => Some(
            (trimmed_end(t.2), group_range(text, full), (starter.1 - starter.0) as usize),
        ),
        _ => None,
    }
}

/// The headings of the matches, in order.
pub open spec fn headings_of(ms: Seq<Seq<Option<(nat, nat, Seq<char>)>>>, text: Seq<char>) -> Seq<
    (Seq<char>, Range, usize),
>
    decreases ms.len(),
{
    if ms.len() == 0 {
        Seq::empty()
    } else {
        headings_of(ms.drop_last(), text) + match heading_of_match(ms.last(), text) {
            Some(h) => seq![h],
            None => Seq::empty(),
        }
    }
}

/// The headings of a text.
pub open spec fn spec_headings(text: Seq<char>) -> Seq<(Seq<char>, Range, usize)> {
    headings_of(regex_captures(HEADING_PATTERN@, text), text)
}

impl MDHeading {
    /// The headings of a text, in order.
    pub fn new(text: &str) -> (r: Vec<MDHeading>)
        ensures
            r@.map_values(|h: MDHeading| heading_view(h)) == spec_headings(text@),
    {
        let ms = all_matches(HEADING_PATTERN, text);
        let ghost mv = all_captures_view(ms@);
        let mut out: Vec<MDHeading> = Vec::new();
        let mut i: usize = 0;
        assert(out@.map_values(|h: MDHeading| heading_view(h)) =~= headings_of(mv.subrange(0, 0), text@));
        while i < ms.len()
            invariant
                i <= ms.len(),
                mv == all_captures_view(ms@),
                forall|k: int| 0 <= k < ms@.len() ==> groups_within(#[trigger] ms@[k]@, text.len() as nat, text@.len()),
                out@.map_values(|h: MDHeading| heading_view(h)) == headings_of(mv.subrange(0, i as int), text@),
            decreases ms.len() - i,
        {
            assert(mv.subrange(0, i + 1).drop_last() =~= mv.subrange(0, i as int));
            assert(mv[i as int] == captures_view(ms@[i as int]));
            let m = &ms[i];
            let ghost before = out@.map_values(|h: MDHeading| heading_view(h));
            match (group(m, 0), group(m, 2), group(m, 1)) {
                (Some(full), Some(t), Some(starter)) => {
                    assert(groups_within(ms@[i as int]@, text.len() as nat, text@.len()));
                    let h = MDHeading {
                        heading_text: trim_end(t.text.as_str()),
                        range: range_of_group(text, &full),
                        level: HeadingLevel(starter.end - starter.start),
                    };
                    out.push(h);
                    assert(out@.map_values(|h: MDHeading| heading_view(h)) =~= before.push(heading_view(h)));
                },
                _ => {},
            }
            assert(out@.map_values(|h: MDHeading| heading_view(h)) =~= headings_of(mv.subrange(0, i + 1), text@));
            i += 1;
        }
        assert(mv.subrange(0, i as int) =~= mv);
        out
    }
}

// ---------------------------------------------------------------------------
// Indexed blocks
// ---------------------------------------------------------------------------

/// An indexed block as plain values: index, range.
pub open spec fn block_view(b: MDIndexedBlock) -> (Seq<char>, Range) {
    (b.index@, b.range.0)
}

/// The indexed block of one match: the index, and the range of `^index`.
pub open spec fn block_of_match(m: Seq<Option<(nat, nat, Seq<char>)>>, text: Seq<char>) -> Option<
    (Seq<char>, Range),
> {
    match (grp(m, 1), grp(m, 2)) {
        (Some(full), Some(index)) => Some((index.2, group_range(text, full))),
        _ => None,
    }
}

/// The indexed blocks of the matches, in order.
pub open spec fn blocks_of(ms: Seq<Seq<Option<(nat, nat, Seq<char>)>>>, text: Seq<char>) -> Seq<
    (Seq<char>, Range),
>
    decreases ms.len(),
{
    if ms.len() == 0 {
        Seq::empty()
    } else {
        blocks_of(ms.drop_last(), text) + match block_of_match(ms.last(), text) {
            Some(b) => seq![b],
            None => Seq::empty(),
        }
    }
}

/// The indexed blocks of a text.
pub open spec fn spec_indexed_blocks(text: Seq<char>) -> Seq<(Seq<char>, Range)> {
    blocks_of(regex_captures(INDEXED_BLOCK_PATTERN@, text), text)
}

impl MDIndexedBlock {
    /// The indexed blocks of a text, in order.
    pub fn new(text: &str) -> (r: Vec<MDIndexedBlock>)
        ensures
            r@.map_values(|b: MDIndexedBlock| block_view(b)) == spec_indexed_blocks(text@),
    {
        let ms = all_matches(INDEXED_BLOCK_PATTERN, text);
        let ghost mv = all_captures_view(ms@);
        let mut out: Vec<MDIndexedBlock> = Vec::new();
        let mut i: usize = 0;
        assert(out@.map_values(|b: MDIndexedBlock| block_view(b)) =~= blocks_of(mv.subrange(0, 0), text@));
        while i < ms.len()
            invariant
                i <= ms.len(),
                mv == all_captures_view(ms@),
                forall|k: int| 0 <= k < ms@.len() ==> groups_within(#[trigger] ms@[k]@, text.len() as nat, text@.len()),
                out@.map_values(|b: MDIndexedBlock| block_view(b)) == blocks_of(mv.subrange(0, i as int), text@),
            decreases ms.len() - i,
        {
            assert(mv.subrange(0, i + 1).drop_last() =~= mv.subrange(0, i as int));
            assert(mv[i as int] == captures_view(ms@[i as int]));
            let m = &ms[i];
            let ghost before = out@.map_values(|b: MDIndexedBlock| block_view(b));
            match (group(m, 1), group(m, 2)) {
                (Some(full), Some(index)) => {
                    assert(groups_within(ms@[i as int]@, text.len() as nat, text@.len()));
                    let b = MDIndexedBlock { index: index.text, range: range_of_group(text, &full) };
                    out.push(b);
                    assert(out@.map_values(|b: MDIndexedBlock| block_view(b)) =~= before.push(block_view(b)));
                },
                _ => {},
            }
            assert(out@.map_values(|b: MDIndexedBlock| block_view(b)) =~= blocks_of(mv.subrange(0, i + 1), text@));
            i += 1;
        }
        assert(mv.subrange(0, i as int) =~= mv);
        out
    }
}

// ---------------------------------------------------------------------------
// Footnote definitions
// ---------------------------------------------------------------------------

/// A footnote as plain values: index, text, range.
pub open spec fn footnote_view(f: MDFootnote) -> (Seq<char>, Seq<char>, Range) {
    (f.index@, f.footnote_text@, f.range.0)
}

/// The footnote of one match: the index (with `^`), the text without
/// leading whitespace, and the range of the whole match.
pub open spec fn footnote_of_match(m: Seq<Option<(nat, nat, Seq<char>)>>, text: Seq<char>) -> Option<
    (Seq<char>, Seq<char>, Range),
> {
    match (grp(m, 0), grp(m, 1), grp(m, 2)) {
        (Some(full), Some(index), Some(t)) => Some((index.2, trimmed_start(t.2), group_range(text, full))),
        _ => None,
    }
}

/// The footnotes of the matches, in order.
pub open spec fn footnotes_of(ms: Seq<Seq<Option<(nat, nat, Seq<char>)>>>, text: Seq<char>) -> Seq<
    (Seq<char>, Seq<char>, Range),
>
    decreases ms.len(),
{
    if ms.len() == 0 {
        Seq::empty()
    } else {
        footnotes_of(ms.drop_last(), text) + match footnote_of_match(ms.last(), text) {
            Some(f) => seq![f],
            None => Seq::empty(),
        }
    }
}

/// The footnote definitions of a text.
pub open spec fn spec_footnotes(text: Seq<char>) -> Seq<(Seq<char>, Seq<char>, Range)> {
    footnotes_of(regex_captures(FOOTNOTE_DEFINITION_PATTERN@, text), text)
}

impl MDFootnote {
    /// The footnote definitions of a text, in order.
    pub fn new(text: &str) -> (r: Vec<MDFootnote>)
        ensures
            r@.map_values(|f: MDFootnote| footnote_view(f)) == spec_footnotes(text@),
    {
        let ms = all_matches(FOOTNOTE_DEFINITION_PATTERN, text);
        let ghost mv = all_captures_view(ms@);
        let mut out: Vec<MDFootnote> = Vec::new();
        let mut i: usize = 0;
        assert(out@.map_values(|f: MDFootnote| footnote_view(f)) =~= footnotes_of(mv.subrange(0, 0), text@));
        while i < ms.len()
            invariant
                i <= ms.len(),
                mv == all_captures_view(ms@),
                forall|k: int| 0 <= k < ms@.len() ==> groups_within(#[trigger] ms@[k]@, text.len() as nat, text@.len()),
                out@.map_values(|f: MDFootnote| footnote_view(f)) == footnotes_of(mv.subrange(0, i as int), text@),
            decreases ms.len() - i,
        {
            assert(mv.subrange(0, i + 1).drop_last() =~= mv.subrange(0, i as int));
            assert(mv[i as int] == captures_view(ms@[i as int]));
            let m = &ms[i];
            let ghost before = out@.map_values(|f: MDFootnote| footnote_view(f));
            match (group(m, 0), group(m, 1), group(m, 2)) {
                (Some(full), Some(index), Some(t)) => {
                    assert(groups_within(ms@[i as int]@, text.len() as nat, text@.len()));
                    let f = MDFootnote {
                        index: index.text,
                        footnote_text: trim_start(t.text.as_str()),
                        range: range_of_group(text, &full),
                    };
                    out.push(f);
                    assert(out@.map_values(|f: MDFootnote| footnote_view(f)) =~= before.push(footnote_view(f)));
                },
                _ => {},
            }
            assert(out@.map_values(|f: MDFootnote| footnote_view(f)) =~= footnotes_of(mv.subrange(0, i + 1), text@));
            i += 1;
        }
        assert(mv.subrange(0, i as int) =~= mv);
        out
    }
}

// ---------------------------------------------------------------------------
// Link reference definitions
// ---------------------------------------------------------------------------

/// A link reference definition as plain values: name, range, url, title.
pub open spec fn link_def_view(d: MDLinkReferenceDefinition) -> (Seq<char>, Range, Seq<char>, Option<Seq<char>>) {
    (d.link_ref_name@, d.range.0, d.url@, super::helpers::opt_view(d.title))
}

/// The definition of one match: the name, the range of the whole match,
/// the trimmed url and no title.
pub open spec fn link_def_of_match(m: Seq<Option<(nat, nat, Seq<char>)>>, text: Seq<char>) -> Option<
    (Seq<char>, Range, Seq<char>, Option<Seq<char>>),
> {
    match (grp(m, 0), grp(m, 1), grp(m, 2)) {
        (Some(full), Some(index), Some(t)) => Some((index.2, group_range(text, full), trimmed(t.2), None)),
        _ => None,
    }
}

/// The definitions of the matches, in order.
pub open spec fn link_defs_of(ms: Seq<Seq<Option<(nat, nat, Seq<char>)>>>, text: Seq<char>) -> Seq<
    (Seq<char>, Range, Seq<char>, Option<Seq<char>>),
>
    decreases ms.len(),
{
    if ms.len() == 0 {
        Seq::empty()
    } else {
        link_defs_of(ms.drop_last(), text) + match link_def_of_match(ms.last(), text) {
            Some(d) => seq![d],
            None => Seq::empty(),
        }
    }
}

/// The link reference definitions of a text.
pub open spec fn spec_link_defs(text: Seq<char>) -> Seq<(Seq<char>, Range, Seq<char>, Option<Seq<char>>)> {
    link_defs_of(regex_captures(LINK_REFERENCE_DEFINITION_PATTERN@, text), text)
}

impl MDLinkReferenceDefinition {
    /// The link reference definitions of a text, in order.
    pub fn new(text: &str) -> (r: Vec<MDLinkReferenceDefinition>)
        ensures
            r@.map_values(|d: MDLinkReferenceDefinition| link_def_view(d)) == spec_link_defs(text@),
    {
        let ms = all_matches(LINK_REFERENCE_DEFINITION_PATTERN, text);
        let ghost mv = all_captures_view(ms@);
        let mut out: Vec<MDLinkReferenceDefinition> = Vec::new();
        let mut i: usize = 0;
        assert(out@.map_values(|d: MDLinkReferenceDefinition| link_def_view(d)) =~= link_defs_of(mv.subrange(0, 0), text@));
        while i < ms.len()
            invariant
                i <= ms.len(),
                mv == all_captures_view(ms@),
                forall|k: int| 0 <= k < ms@.len() ==> groups_within(#[trigger] ms@[k]@, text.len() as nat, text@.len()),
                out@.map_values(|d: MDLinkReferenceDefinition| link_def_view(d)) == link_defs_of(mv.subrange(0, i as int), text@),
            decreases ms.len() - i,
        {
            assert(mv.subrange(0, i + 1).drop_last() =~= mv.subrange(0, i as int));
            assert(mv[i as int] == captures_view(ms@[i as int]));
            let m = &ms[i];
            let ghost before = out@.map_values(|d: MDLinkReferenceDefinition| link_def_view(d));
            match (group(m, 0), group(m, 1), group(m, 2)) {
                (Some(full), Some(index), Some(t)) => {
                    assert(groups_within(ms@[i as int]@, text.len() as nat, text@.len()));
                    let d = MDLinkReferenceDefinition {
                        link_ref_name: index.text,
                        range: range_of_group(text, &full),
                        url: trim(t.text.as_str()),
                        title: None,
                    };
                    out.push(d);
                    assert(out@.map_values(|d: MDLinkReferenceDefinition| link_def_view(d)) =~= before.push(link_def_view(d)));
                },
                _ => {},
            }
            assert(out@.map_values(|d: MDLinkReferenceDefinition| link_def_view(d)) =~= link_defs_of(mv.subrange(0, i + 1), text@));
            i += 1;
        }
        assert(mv.subrange(0, i as int) =~= mv);
        out
    }
}

// ---------------------------------------------------------------------------
// Tags
// ---------------------------------------------------------------------------

/// A tag as plain values: name, range.
pub open spec fn tag_view(t: MDTag) -> (Seq<char>, Range) {
    (t.tag_ref@, t.range.0)
}

/// Some character of the text is alphabetic.
pub open spec fn has_alphabetic(s: Seq<char>) -> bool {
    exists|i: int| 0 <= i < s.len() && char_alphabetic(#[trigger] s[i])
}

/// The tag of one match: the tag's name (without `#`) and the range of
/// `#name`; only names with an alphabetic character are tags.
pub open spec fn tag_of_match(m: Seq<Option<(nat, nat, Seq<char>)>>, text: Seq<char>) -> Option<
    (Seq<char>, Range),
> {
    match (grp(m, 1), grp(m, 2)) {
        (Some(full), Some(tag)) => if has_alphabetic(tag.2) {
            Some((tag.2, group_range(text, full)))
        } else {
            None
        },
        _ => None,
    }
}

/// The tags of the matches, in order.
pub open spec fn tags_of(ms: Seq<Seq<Option<(nat, nat, Seq<char>)>>>, text: Seq<char>) -> Seq<(Seq<char>, Range)>
    decreases ms.len(),
{
    if ms.len() == 0 {
        Seq::empty()
    } else {
        tags_of(ms.drop_last(), text) + match tag_of_match(ms.last(), text) {
            Some(t) => seq![t],
            None => Seq::empty(),
        }
    }
}

/// The tags of a text.
pub open spec fn spec_tags(text: Seq<char>) -> Seq<(Seq<char>, Range)> {
    tags_of(regex_captures(TAG_PATTERN@, text), text)
}

fn any_alphabetic(s: &str) -> (r: bool)
    ensures
        r == has_alphabetic(s@),
{
    let v = chars_of(s);
    let mut i: usize = 0;
    while i < v.len()
        invariant
            i <= v.len(),
            v@ == s@,
            forall|k: int| 0 <= k < i ==> !char_alphabetic(v@[k]),
        decreases v.len() - i,
    {
        if is_alphabetic(v[i]) {
            return true;
        }
        i += 1;
    }
    false
}

impl MDTag {
    /// The tags of a text, in order.
    pub fn new(text: &str) -> (r: Vec<MDTag>)
        ensures
            r@.map_values(|t: MDTag| tag_view(t)) == spec_tags(text@),
    {
        let ms = all_matches(TAG_PATTERN, text);
        let ghost mv = all_captures_view(ms@);
        let mut out: Vec<MDTag> = Vec::new();
        let mut i: usize = 0;
        assert(out@.map_values(|t: MDTag| tag_view(t)) =~= tags_of(mv.subrange(0, 0), text@));
        while i < ms.len()
            invariant
                i <= ms.len(),
                mv == all_captures_view(ms@),
                forall|k: int| 0 <= k < ms@.len() ==> groups_within(#[trigger] ms@[k]@, text.len() as nat, text@.len()),
                out@.map_values(|t: MDTag| tag_view(t)) == tags_of(mv.subrange(0, i as int), text@),
            decreases ms.len() - i,
        {
            assert(mv.subrange(0, i + 1).drop_last() =~= mv.subrange(0, i as int));
            assert(mv[i as int] == captures_view(ms@[i as int]));
            let m = &ms[i];
            let ghost before = out@.map_values(|t: MDTag| tag_view(t));
            match (group(m, 1), group(m, 2)) {
                (Some(full), Some(tag)) => {
                    if any_alphabetic(tag.text.as_str()) {
                        assert(groups_within(ms@[i as int]@, text.len() as nat, text@.len()));
                        let t = MDTag { tag_ref: tag.text, range: range_of_group(text, &full) };
                        out.push(t);
                        assert(out@.map_values(|t: MDTag| tag_view(t)) =~= before.push(tag_view(t)));
                    }
                },
                _ => {},
            }
            assert(out@.map_values(|t: MDTag| tag_view(t)) =~= tags_of(mv.subrange(0, i + 1), text@));
            i += 1;
        }
        assert(mv.subrange(0, i as int) =~= mv);
        out
    }
}


/// The ranges of the code nodes among the first `k` nodes, in order.
pub open spec fn code_ranges(nodes: Seq<MdNodeView>, k: int, text: Seq<char>) -> Seq<Range>
    decreases k,
{
    if k <= 0 {
        Seq::empty()
    } else {
        let rest = code_ranges(nodes, k - 1, text);
        let n = nodes[k - 1];
        if n.kind == MdKind::Code && n.position is Some {
            rest.push(
                range_from_bytes(
                    text,
                    n.position->0.start_offset as nat,
                    n.position->0.end_offset as nat,
                ),
            )
        } else {
            rest
        }
    }
}

/// The ranges of a document's fenced code blocks: its code nodes.
pub open spec fn spec_code_blocks(text: Seq<char>) -> Seq<Range> {
    match markdown_tree(text, false) {
        Some(nodes) => code_ranges(nodes, nodes.len() as int, text),
        None => Seq::empty(),
    }
}

impl MDCodeBlock {
    /// The fenced code blocks of a document, in document order: the code
    /// nodes of its syntax tree, each with its range. None when the text
    /// cannot be parsed.
    pub fn new(text: &str) -> (r: Vec<MDCodeBlock>)
        ensures
            r@.map_values(|b: MDCodeBlock| b.range.0) == spec_code_blocks(text@),
    {
        let mut out: Vec<MDCodeBlock> = Vec::new();
        match syntax_tree(text) {
            Some(nodes) => {
                let ghost nv = node_views(nodes@);
                let mut i: usize = 0;
                while i < nodes.len()
                    invariant
                        i <= nodes.len(),
                        nv == node_views(nodes@),
                        super::mdast::positions_within(nv, text.len() as nat),
                        out@.map_values(|b: MDCodeBlock| b.range.0) == code_ranges(nv, i as int, text@),
                    decreases nodes.len() - i,
                {
                    let ghost before = out@.map_values(|b: MDCodeBlock| b.range.0);
                    assert(nv[i as int] == nodes@[i as int]@);
                    if nodes[i].kind == MdKind::Code {
                        match nodes[i].position {
                            Some(p) => {
                                assert(nv[i as int].position == Some(p));
                                let range = MyRange::from_range(text, p.start_offset, p.end_offset);
                                out.push(MDCodeBlock { range });
                                assert(out@.map_values(|b: MDCodeBlock| b.range.0) =~= before.push(range.0));
                            },
                            None => {},
                        }
                    }
                    i += 1;
                }
            },
            None => {
                assert(out@.map_values(|b: MDCodeBlock| b.range.0) =~= Seq::<Range>::empty());
            },
        }
        out
    }
}

} // verus!
