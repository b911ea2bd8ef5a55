//! References found by walking the Markdown syntax tree.
//!
//! Links, images, footnote references and link references come from their
//! syntax-tree nodes. Footnotes without a definition, and MyST substitutions
//! `{{name}}`, are found by pattern in text nodes. A MyST role `{ref}`target``
//! reaches the tree as a text node ending in `{ref}` followed by an inline
//! code node, and is found in the children of each paragraph.

use vstd::prelude::*;

use super::mdast::{
    markdown_tree, node_views, parse_markdown, positions_within, tree_wf, MdKind, MdNode,
    MdNodeView, MdPosition,
};
use super::preview::{trim, trimmed};
use super::reference::{MystRoleKind, Reference, ReferenceData, ReferenceDataView, ReferenceView};
use super::types::{range_from_bytes, MyRange, Range};
use crate::pattern::{
    all_captures_view, all_matches, captures_view, first_match, first_match_groups, group,
    group_view, grp, groups_within, regex_captures, GroupMatch,
};
use crate::text::{
    after_last, chars_of, ends_with, first_index_of, starts_with, str_eq, str_starts_with,
    string_of, sub_vec, vec_contains_char, vec_ends_with, vec_find_char,
};

verus! {

/// A footnote reference `[^id]`, with what comes before and after it.
pub const FOOTNOTE_PATTERN: &'static str =
    r"(?<start>\x5B?)(?<full>\x5B(?<index>\^[^\x5B\x5D ]+)\x5D)(?<end>:?)";

/// A MyST substitution `{{name}}`.
pub const SUBSTITUTION_PATTERN: &'static str = r"\{\{(?<name>[a-zA-Z_][a-zA-Z0-9_]*)\}\}";

/// A text ending in a MyST role prefix `{rolename}`.
pub const MYST_ROLE_PREFIX_PATTERN: &'static str = r"\{(?<role>[a-zA-Z][a-zA-Z0-9_-]*)\}$";

/// Role content of the form `display text <target>`.
pub const ROLE_TARGET_PATTERN: &'static str = r"^(?<display>.+?)\s*<(?<target>[^>]+)>$";

// ---------------------------------------------------------------------------
// Small pieces
// ---------------------------------------------------------------------------

/// A reference's data.
pub open spec fn data(text: Seq<char>, display: Option<Seq<char>>, range: Range) -> ReferenceDataView {
    ReferenceDataView { reference_text: text, display_text: display, range }
}

/// `None` for an empty text.
pub open spec fn nonempty(s: Seq<char>) -> Option<Seq<char>> {
    if s.len() == 0 {
        None
    } else {
        Some(s)
    }
}

/// An optional item as a sequence of zero or one items.
pub open spec fn opt_seq<T>(o: Option<T>) -> Seq<T> {
    match o {
        Some(x) => seq![x],
        None => Seq::empty(),
    }
}

/// URLs that are not files of the vault: web and data URLs.
pub open spec fn is_external_url(url: Seq<char>) -> bool {
    starts_with(url, "http://"@) || starts_with(url, "https://"@) || starts_with(url, "data:"@)
}

fn external_url(url: &str) -> (r: bool)
    ensures
        r == is_external_url(url@),
{
    str_starts_with(url, "http://") || str_starts_with(url, "https://") || str_starts_with(
        url,
        "data:",
    )
}

/// What `urlencoding::decode` answers: the percent-decoded text, or `None`
/// when the decoded bytes are not UTF-8.
pub uninterp spec fn url_decoded(url: Seq<char>) -> Option<Seq<char>>;

/// `urlencoding::decode`: the URL with `%XX` escapes decoded; `None` when
/// the result is not valid UTF-8. A function of the URL alone.
#[verifier::external_body]
pub(crate) fn url_decode(url: &str) -> (r: Option<String>)
    ensures
        opt_string_view(r) == url_decoded(url@),
{
    urlencoding::decode(url).ok().map(|s| s.into_owned())
}

pub open spec fn opt_string_view(o: Option<String>) -> Option<Seq<char>> {
    match o {
        Some(s) => Some(s@),
        None => None,
    }
}

/// The decoded URL, or the URL itself when it does not decode.
pub open spec fn decoded_or(url: Seq<char>) -> Seq<char> {
    match url_decoded(url) {
        Some(d) => d,
        None => url,
    }
}

fn decode_or_keep(url: &str) -> (r: String)
    ensures
        r@ == decoded_or(url@),
{
    match url_decode(url) {
        Some(d) => d,
        None => String::from_str(url),
    }
}

/// The range of a node from its byte offsets, when it has a position
/// within the text.
pub open spec fn node_range(pos: Option<MdPosition>, text: Seq<char>, len: nat) -> Option<Range> {
    match pos {
        Some(p) => if p.start_offset <= len && p.end_offset <= len {
            Some(range_from_bytes(text, p.start_offset as nat, p.end_offset as nat))
        } else {
            None
        },
        None => None,
    }
}

fn range_of(pos: Option<MdPosition>, text: &str) -> (r: Option<MyRange>)
    ensures
        match r {
            Some(m) => node_range(pos, text@, text.len() as nat) == Some(m.0),
            None => node_range(pos, text@, text.len() as nat) is None,
        },
{
    match pos {
        Some(p) => MyRange::from_ast_position(Some((p.start_offset, p.end_offset)), text),
        None => None,
    }
}

/// The range of the bytes `a .. b` of the text, when both lie within it.
pub open spec fn bytes_range(text: Seq<char>, len: nat, a: nat, b: nat) -> Option<Range> {
    if a <= len && b <= len {
        Some(range_from_bytes(text, a, b))
    } else {
        None
    }
}

/// The range of the bytes `base + s .. base + e` of the text, when they lie
/// within it.
pub open spec fn offset_range(text: Seq<char>, len: nat, base: nat, s: nat, e: nat) -> Option<Range> {
    bytes_range(text, len, base + s, base + e)
}

fn range_between(text: &str, a: usize, b: usize) -> (r: Option<MyRange>)
    ensures
        match r {
            Some(m) => bytes_range(text@, text.len() as nat, a as nat, b as nat) == Some(m.0),
            None => bytes_range(text@, text.len() as nat, a as nat, b as nat) is None,
        },
{
    if a <= text.len() && b <= text.len() {
        Some(MyRange::from_range(text, a, b))
    } else {
        None
    }
}

fn range_at_offsets(text: &str, base: usize, s: usize, e: usize) -> (r: Option<MyRange>)
    ensures
        match r {
            Some(m) => offset_range(text@, text.len() as nat, base as nat, s as nat, e as nat) == Some(
                m.0,
            ),
            None => offset_range(text@, text.len() as nat, base as nat, s as nat, e as nat) is None,
        },
{
    let len = text.len();
    if base <= len && s <= len - base && e <= len - base {
        Some(MyRange::from_range(text, base + s, base + e))
    } else {
        None
    }
}

/// Characters to a `String`.
fn text_of(v: &Vec<char>) -> (r: String)
    ensures
        r@ == v@,
{
    string_of(v)
}

// ---------------------------------------------------------------------------
// Links and images
// ---------------------------------------------------------------------------

/// The texts of the text-node children, concatenated in order.
pub open spec fn children_text(nodes: Seq<MdNodeView>, children: Seq<usize>) -> Seq<char>
    decreases children.len(),
{
    if children.len() == 0 {
        Seq::empty()
    } else {
        let rest = children_text(nodes, children.drop_last());
        let c = children.last() as int;
        if 0 <= c < nodes.len() && nodes[c].kind == MdKind::Text {
            rest + nodes[c].value
        } else {
            rest
        }
    }
}

fn extract_text_from_children(nodes: &Vec<MdNode>, children: &Vec<usize>) -> (r: Option<String>)
    ensures
        opt_string_view(r) == nonempty(children_text(node_views(nodes@), children@)),
{
    let ghost nv = node_views(nodes@);
    let mut out: Vec<char> = Vec::new();
    let mut k: usize = 0;
    while k < children.len()
        invariant
            k <= children.len(),
            nv == node_views(nodes@),
            out@ == children_text(nv, children@.subrange(0, k as int)),
        decreases children.len() - k,
    {
        assert(children@.subrange(0, k + 1).drop_last() =~= children@.subrange(0, k as int));
        let c = children[k];
        if c < nodes.len() && nodes[c].kind == MdKind::Text {
            let v = chars_of(nodes[c].value.as_str());
            let ghost before = out@;
            let mut j: usize = 0;
            while j < v.len()
                invariant
                    j <= v.len(),
                    out@ == before + v@.subrange(0, j as int),
                decreases v.len() - j,
            {
                out.push(v[j]);
                j += 1;
                assert(out@ =~= before + v@.subrange(0, j as int));
            }
            assert(v@.subrange(0, v.len() as int) =~= v@);
            assert(nv[c as int].value == nodes@[c as int].value@);
        }
        k += 1;
    }
    assert(children@.subrange(0, children.len() as int) =~= children@);
    if out.len() == 0 {
        None
    } else {
        Some(text_of(&out))
    }
}

/// A URL split at its first `#` into the path and the fragment after it.
pub open spec fn split_hash(s: Seq<char>) -> (Seq<char>, Option<Seq<char>>) {
    match first_index_of(s, '#') {
        Some(k) => (s.subrange(0, k as int), Some(s.subrange((k + 1) as int, s.len() as int))),
        None => (s, None),
    }
}

/// The path without a trailing `.md`.
pub open spec fn strip_md(path: Seq<char>) -> Seq<char> {
    if ends_with(path, ".md"@) {
        path.subrange(0, path.len() - 3)
    } else {
        path
    }
}

/// A link path points at a Markdown file: it is empty, ends in `.md`, or
/// its file name (after the last `/`) has no `.`.
pub open spec fn markdown_path(path: Seq<char>) -> bool {
    path.len() == 0 || ends_with(path, ".md"@) || !after_last(path, '/').contains('.')
}

/// The reference of the link node `i`: a file link, a heading link
/// (`file#heading`) or a block link (`file#^block`), the reference text
/// being the decoded URL without `.md`; none for web and data URLs, for
/// paths to files that are not Markdown, and for a link without a position.
pub open spec fn spec_md_link(nodes: Seq<MdNodeView>, i: int, text: Seq<char>, len: nat) -> Option<
    ReferenceView,
> {
    let n = nodes[i];
    if is_external_url(n.url) {
        None
    } else {
        match node_range(n.position, text, len) {
            None => None,
            Some(range) => {
                let (path, frag) = split_hash(decoded_or(n.url));
                let pwe = strip_md(path);
                let display = nonempty(children_text(nodes, n.children));
                if !markdown_path(path) {
                    None
                } else {
                    match frag {
                        Some(f) => if starts_with(f, seq!['^']) {
                            Some(
                                ReferenceView::MDIndexedBlockLink(
                                    data(pwe + seq!['#'] + f, display, range),
                                    pwe,
                                    f.drop_first(),
                                ),
                            )
                        } else {
                            Some(
                                ReferenceView::MDHeadingLink(
                                    data(pwe + seq!['#'] + f, display, range),
                                    pwe,
                                    f,
                                ),
                            )
                        },
                        None => Some(ReferenceView::MDFileLink(data(pwe, display, range))),
                    }
                }
            },
        }
    }
}

pub open spec fn opt_reference_view(r: Option<Reference>) -> Option<ReferenceView> {
    match r {
        Some(x) => Some(x@),
        None => None,
    }
}

fn make_data(t: &Vec<char>, display: Option<String>, range: MyRange) -> (d: ReferenceData)
    ensures
        d@ == data(t@, opt_string_view(display), range.0),
{
    ReferenceData { reference_text: text_of(t), display_text: display, range }
}

/// Extract a Reference from a markdown Link node.
fn extract_md_link(nodes: &Vec<MdNode>, i: usize, text: &str) -> (r: Option<Reference>)
    requires
        i < nodes.len(),
    ensures
        opt_reference_view(r) == spec_md_link(node_views(nodes@), i as int, text@, text.len() as nat),
{
    let ghost nv = node_views(nodes@);
    let node = &nodes[i];
    assert(nv[i as int] == node@);
    if external_url(node.url.as_str()) {
        return None;
    }
    let range = match range_of(node.position, text) {
        Some(r) => r,
        None => return None,
    };
    let decoded = decode_or_keep(node.url.as_str());
    let dv = chars_of(decoded.as_str());
    let (path, frag) = match vec_find_char(&dv, '#') {
        Some(k) => (sub_vec(&dv, 0, k), Some(sub_vec(&dv, k + 1, dv.len()))),
        None => (dv, None),
    };
    let mut md: Vec<char> = Vec::new();
    md.push('.');
    md.push('m');
    md.push('d');
    proof {
        reveal_strlit(".md");
        assert(md@ =~= ".md"@);
    }
    let ends_md = vec_ends_with(&path, &md);
    let pwe = if ends_md {
        sub_vec(&path, 0, path.len() - 3)
    } else {
        sub_vec(&path, 0, path.len())
    };
    assert(path@.subrange(0, path@.len() as int) =~= path@);
    if path.len() > 0 && !ends_md {
        let file_name = crate::text::vec_after_last(&path, '/');
        if vec_contains_char(&file_name, '.') {
            return None;
        }
    }
    let display_text = extract_text_from_children(nodes, &node.children);
    match frag {
        Some(f) => {
            let mut full = pwe.clone();
            full.push('#');
            let ghost with_hash = full@;
            let mut j: usize = 0;
            while j < f.len()
                invariant
                    j <= f.len(),
                    full@ == with_hash + f@.subrange(0, j as int),
                decreases f.len() - j,
            {
                full.push(f[j]);
                j += 1;
                assert(full@ =~= with_hash + f@.subrange(0, j as int));
            }
            assert(f@.subrange(0, f.len() as int) =~= f@);
            assert(full@ =~= pwe@ + seq!['#'] + f@);
            if f.len() > 0 && f[0] == '^' {
                assert(starts_with(f@, seq!['^'])) by {
                    assert(f@.subrange(0, 1) =~= seq!['^']);
                }
                let index = sub_vec(&f, 1, f.len());
                assert(index@ =~= f@.drop_first());
                Some(
                    Reference::MDIndexedBlockLink(
                        make_data(&full, display_text, range),
                        text_of(&pwe),
                        text_of(&index),
                    ),
                )
            } else {
                assert(!starts_with(f@, seq!['^'])) by {
                    if f.len() > 0 {
                        assert(f@.subrange(0, 1)[0] == f@[0]);
                    }
                }
                Some(Reference::MDHeadingLink(make_data(&full, display_text, range), text_of(&pwe), text_of(&f)))
            }
        },
        None => Some(Reference::MDFileLink(make_data(&pwe, display_text, range))),
    }
}

/// The reference of an image node: the decoded path, with the alternative
/// text (when not empty) as display text; none for web and data URLs and
/// for an image without a position.
pub open spec fn spec_image_link(n: MdNodeView, text: Seq<char>, len: nat) -> Option<ReferenceView> {
    if is_external_url(n.url) {
        None
    } else {
        match node_range(n.position, text, len) {
            None => None,
            Some(range) => Some(
                ReferenceView::ImageLink(data(decoded_or(n.url), nonempty(n.alt), range)),
            ),
        }
    }
}

/// Extract a Reference from a markdown Image node.
fn extract_image_link(node: &MdNode, text: &str) -> (r: Option<Reference>)
    ensures
        opt_reference_view(r) == spec_image_link(node@, text@, text.len() as nat),
{
    if external_url(node.url.as_str()) {
        return None;
    }
    let range = match range_of(node.position, text) {
        Some(r) => r,
        None => return None,
    };
    let decoded = decode_or_keep(node.url.as_str());
    let display_text = if node.alt.as_str().is_empty() {
        None
    } else {
        Some(node.alt.clone())
    };
    Some(Reference::ImageLink(ReferenceData { reference_text: decoded, display_text, range }))
}

// ---------------------------------------------------------------------------
// Footnotes and substitutions in text nodes
// ---------------------------------------------------------------------------

/// The footnote reference of one match of the footnote pattern in a text
/// node starting at byte `base`: kept unless it is a definition (`[^id]:`)
/// or follows a `[`.
pub open spec fn footnote_of_match(
    m: Seq<Option<(nat, nat, Seq<char>)>>,
    base: nat,
    text: Seq<char>,
    len: nat,
) -> Option<ReferenceView> {
    match (grp(m, 1), grp(m, 4)) {
        (Some(s), Some(e)) => if !starts_with(s.2, seq!['\u{5b}']) && !ends_with(e.2, seq![':']) {
            match (grp(m, 2), grp(m, 3)) {
                (Some(full), Some(index)) => match offset_range(text, len, base, full.0, full.1) {
                    Some(range) => Some(ReferenceView::Footnote(data(index.2, None, range))),
                    None => None,
                },
                _ => None,
            }
        } else {
            None
        },
        _ => None,
    }
}

/// The footnote references of the matches, in order.
pub open spec fn footnotes_of_matches(
    ms: Seq<Seq<Option<(nat, nat, Seq<char>)>>>,
    base: nat,
    text: Seq<char>,
    len: nat,
) -> Seq<ReferenceView>
    decreases ms.len(),
{
    if ms.len() == 0 {
        Seq::empty()
    } else {
        footnotes_of_matches(ms.drop_last(), base, text, len) + opt_seq(
            footnote_of_match(ms.last(), base, text, len),
        )
    }
}

/// The footnote references written in a text node.
pub open spec fn spec_text_footnotes(n: MdNodeView, text: Seq<char>, len: nat) -> Seq<ReferenceView> {
    match n.position {
        Some(p) => footnotes_of_matches(
            regex_captures(FOOTNOTE_PATTERN@, n.value),
            p.start_offset as nat,
            text,
            len,
        ),
        None => Seq::empty(),
    }
}

fn starts_with_char(s: &str, c: char) -> (r: bool)
    ensures
        r == starts_with(s@, seq![c]),
{
    let v = chars_of(s);
    if v.len() > 0 && v[0] == c {
        assert(v@.subrange(0, 1) =~= seq![c]);
        true
    } else {
        if v.len() > 0 {
            assert(v@.subrange(0, 1)[0] == v@[0]);
        }
        false
    }
}

fn ends_with_char(s: &str, c: char) -> (r: bool)
    ensures
        r == ends_with(s@, seq![c]),
{
    let v = chars_of(s);
    if v.len() > 0 && v[v.len() - 1] == c {
        assert(v@.subrange(v@.len() - 1, v@.len() as int) =~= seq![c]);
        true
    } else {
        if v.len() > 0 {
            assert(v@.subrange(v@.len() - 1, v@.len() as int)[0] == v@[v@.len() - 1]);
        }
        false
    }
}

fn footnote_of(m: &Vec<Option<GroupMatch>>, base: usize, text: &str) -> (r: Option<Reference>)
    ensures
        opt_reference_view(r) == footnote_of_match(captures_view(*m), base as nat, text@, text.len() as nat),
{
    let s = group(m, 1);
    let e = group(m, 4);
    match (s, e) {
        (Some(s), Some(e)) => {
            if !starts_with_char(s.text.as_str(), '\u{5b}') && !ends_with_char(e.text.as_str(), ':') {
                match (group(m, 2), group(m, 3)) {
                    (Some(full), Some(index)) => match range_at_offsets(text, base, full.start, full.end) {
                        Some(range) => Some(
                            Reference::Footnote(
                                ReferenceData { reference_text: index.text, display_text: None, range },
                            ),
                        ),
                        None => None,
                    },
                    _ => None,
                }
            } else {
                None
            }
        },
        _ => None,
    }
}

pub open spec fn ref_views(v: Seq<Reference>) -> Seq<ReferenceView> {
    v.map_values(|r: Reference| r@)
}

/// Extract footnote references from a Text node.
fn extract_footnotes_from_text(node: &MdNode, text: &str) -> (r: Vec<Reference>)
    ensures
        ref_views(r@) == spec_text_footnotes(node@, text@, text.len() as nat),
{
    let mut out: Vec<Reference> = Vec::new();
    let p = match node.position {
        Some(p) => p,
        None => {
            assert(ref_views(out@) =~= Seq::<ReferenceView>::empty());
            return out;
        },
    };
    let ms = all_matches(FOOTNOTE_PATTERN, node.value.as_str());
    let ghost mv = all_captures_view(ms@);
    let mut i: usize = 0;
    assert(ref_views(out@) =~= footnotes_of_matches(mv.subrange(0, 0), p.start_offset as nat, text@, text.len() as nat));
    while i < ms.len()
        invariant
            i <= ms.len(),
            mv == all_captures_view(ms@),
            ref_views(out@) == footnotes_of_matches(
                mv.subrange(0, i as int),
                p.start_offset as nat,
                text@,
                text.len() as nat,
            ),
        decreases ms.len() - i,
    {
        assert(mv.subrange(0, i + 1).drop_last() =~= mv.subrange(0, i as int));
        assert(mv[i as int] == captures_view(ms@[i as int]));
        match footnote_of(&ms[i], p.start_offset, text) {
            Some(r) => {
                out.push(r);
            },
            None => {},
        }
        assert(ref_views(out@) =~= footnotes_of_matches(
            mv.subrange(0, i + 1),
            p.start_offset as nat,
            text@,
            text.len() as nat,
        ));
        i += 1;
    }
    assert(mv.subrange(0, i as int) =~= mv);
    out
}

/// The substitution reference of one match of the substitution pattern.
pub open spec fn substitution_of_match(
    m: Seq<Option<(nat, nat, Seq<char>)>>,
    base: nat,
    text: Seq<char>,
    len: nat,
) -> Option<ReferenceView> {
    match (grp(m, 0), grp(m, 1)) {
        (Some(full), Some(name)) => match offset_range(text, len, base, full.0, full.1) {
            Some(range) => Some(ReferenceView::Substitution(data(name.2, None, range))),
            None => None,
        },
        _ => None,
    }
}

/// The substitution references of the matches, in order.
pub open spec fn substitutions_of_matches(
    ms: Seq<Seq<Option<(nat, nat, Seq<char>)>>>,
    base: nat,
    text: Seq<char>,
    len: nat,
) -> Seq<ReferenceView>
    decreases ms.len(),
{
    if ms.len() == 0 {
        Seq::empty()
    } else {
        substitutions_of_matches(ms.drop_last(), base, text, len) + opt_seq(
            substitution_of_match(ms.last(), base, text, len),
        )
    }
}

/// The substitution references `{{name}}` written in a text node.
pub open spec fn spec_text_substitutions(n: MdNodeView, text: Seq<char>, len: nat) -> Seq<ReferenceView> {
    match n.position {
        Some(p) => substitutions_of_matches(
            regex_captures(SUBSTITUTION_PATTERN@, n.value),
            p.start_offset as nat,
            text,
            len,
        ),
        None => Seq::empty(),
    }
}

fn substitution_of(m: &Vec<Option<GroupMatch>>, base: usize, text: &str) -> (r: Option<Reference>)
    ensures
        opt_reference_view(r) == substitution_of_match(
            captures_view(*m),
            base as nat,
            text@,
            text.len() as nat,
        ),
{
    match (group(m, 0), group(m, 1)) {
        (Some(full), Some(name)) => match range_at_offsets(text, base, full.start, full.end) {
            Some(range) => Some(
                Reference::Substitution(
                    ReferenceData { reference_text: name.text, display_text: None, range },
                ),
            ),
            None => None,
        },
        _ => None,
    }
}

/// Extract substitutions from a Text node.
fn extract_substitutions_from_text(node: &MdNode, text: &str) -> (r: Vec<Reference>)
    ensures
        ref_views(r@) == spec_text_substitutions(node@, text@, text.len() as nat),
{
    let mut out: Vec<Reference> = Vec::new();
    let p = match node.position {
        Some(p) => p,
        None => {
            assert(ref_views(out@) =~= Seq::<ReferenceView>::empty());
            return out;
        },
    };
    let ms = all_matches(SUBSTITUTION_PATTERN, node.value.as_str());
    let ghost mv = all_captures_view(ms@);
    let mut i: usize = 0;
    assert(ref_views(out@) =~= substitutions_of_matches(mv.subrange(0, 0), p.start_offset as nat, text@, text.len() as nat));
    while i < ms.len()
        invariant
            i <= ms.len(),
            mv == all_captures_view(ms@),
            ref_views(out@) == substitutions_of_matches(
                mv.subrange(0, i as int),
                p.start_offset as nat,
                text@,
                text.len() as nat,
            ),
        decreases ms.len() - i,
    {
        assert(mv.subrange(0, i + 1).drop_last() =~= mv.subrange(0, i as int));
        assert(mv[i as int] == captures_view(ms@[i as int]));
        match substitution_of(&ms[i], p.start_offset, text) {
            Some(r) => {
                out.push(r);
            },
            None => {},
        }
        assert(ref_views(out@) =~= substitutions_of_matches(
            mv.subrange(0, i + 1),
            p.start_offset as nat,
            text@,
            text.len() as nat,
        ));
        i += 1;
    }
    assert(mv.subrange(0, i as int) =~= mv);
    out
}

// ---------------------------------------------------------------------------
// Footnote and link references
// ---------------------------------------------------------------------------

/// A footnote reference node: `^` and its identifier.
pub open spec fn spec_footnote_ref(n: MdNodeView, text: Seq<char>, len: nat) -> Option<ReferenceView> {
    match node_range(n.position, text, len) {
        Some(range) => Some(ReferenceView::Footnote(data(seq!['^'] + n.identifier, None, range))),
        None => None,
    }
}

fn extract_footnote_ref(node: &MdNode, text: &str) -> (r: Option<Reference>)
    ensures
        opt_reference_view(r) == spec_footnote_ref(node@, text@, text.len() as nat),
{
    let range = match range_of(node.position, text) {
        Some(r) => r,
        None => return None,
    };
    let mut v: Vec<char> = Vec::new();
    v.push('^');
    let id = chars_of(node.identifier.as_str());
    let mut j: usize = 0;
    while j < id.len()
        invariant
            j <= id.len(),
            v@ == seq!['^'] + id@.subrange(0, j as int),
        decreases id.len() - j,
    {
        v.push(id[j]);
        j += 1;
        assert(v@ =~= seq!['^'] + id@.subrange(0, j as int));
    }
    assert(id@.subrange(0, id.len() as int) =~= id@);
    Some(Reference::Footnote(ReferenceData { reference_text: text_of(&v), display_text: None, range }))
}

/// A link reference node: its identifier.
pub open spec fn spec_link_ref(n: MdNodeView, text: Seq<char>, len: nat) -> Option<ReferenceView> {
    match node_range(n.position, text, len) {
        Some(range) => Some(ReferenceView::LinkRef(data(n.identifier, None, range))),
        None => None,
    }
}

fn extract_link_ref(node: &MdNode, text: &str) -> (r: Option<Reference>)
    ensures
        opt_reference_view(r) == spec_link_ref(node@, text@, text.len() as nat),
{
    let range = match range_of(node.position, text) {
        Some(r) => r,
        None => return None,
    };
    Some(
        Reference::LinkRef(
            ReferenceData { reference_text: node.identifier.clone(), display_text: None, range },
        ),
    )
}

// ---------------------------------------------------------------------------
// MyST roles
// ---------------------------------------------------------------------------

/// The role kind named `name`, if it is one that references something.
pub open spec fn spec_role_kind(name: Seq<char>) -> Option<MystRoleKind> {
    if name == "ref"@ {
        Some(MystRoleKind::Ref)
    } else if name == "numref"@ {
        Some(MystRoleKind::NumRef)
    } else if name == "eq"@ {
        Some(MystRoleKind::Eq)
    } else if name == "doc"@ {
        Some(MystRoleKind::Doc)
    } else if name == "download"@ {
        Some(MystRoleKind::Download)
    } else if name == "term"@ {
        Some(MystRoleKind::Term)
    } else if name == "abbr"@ {
        Some(MystRoleKind::Abbr)
    } else {
        None
    }
}

/// Parse role kind from role name string.
pub fn parse_role_kind(role_name: &str) -> (r: Option<MystRoleKind>)
    ensures
        r == spec_role_kind(role_name@),
{
    if str_eq(role_name, "ref") {
        Some(MystRoleKind::Ref)
    } else if str_eq(role_name, "numref") {
        Some(MystRoleKind::NumRef)
    } else if str_eq(role_name, "eq") {
        Some(MystRoleKind::Eq)
    } else if str_eq(role_name, "doc") {
        Some(MystRoleKind::Doc)
    } else if str_eq(role_name, "download") {
        Some(MystRoleKind::Download)
    } else if str_eq(role_name, "term") {
        Some(MystRoleKind::Term)
    } else if str_eq(role_name, "abbr") {
        Some(MystRoleKind::Abbr)
    } else {
        None
    }
}

/// The target and display text of a role's content: `display <target>`
/// gives both (the display trimmed), anything else is the target alone.
pub open spec fn role_target_and_display(content: Seq<char>) -> (Seq<char>, Option<Seq<char>>) {
    match first_match_groups(ROLE_TARGET_PATTERN@, content) {
        Some(m) => (
            match grp(m, 2) {
                Some(t) => t.2,
                None => content,
            },
            match grp(m, 1) {
                Some(d) => Some(trimmed(d.2)),
                None => None,
            },
        ),
        None => (content, None),
    }
}

fn target_and_display(content: &str) -> (r: (String, Option<String>))
    ensures
        (r.0@, opt_string_view(r.1)) == role_target_and_display(content@),
{
    match first_match(ROLE_TARGET_PATTERN, content) {
        Some(m) => {
            let display = match group(&m, 1) {
                Some(d) => Some(trim(d.text.as_str())),
                None => None,
            };
            let target = match group(&m, 2) {
                Some(t) => t.text,
                None => String::from_str(content),
            };
            (target, display)
        },
        None => (String::from_str(content), None),
    }
}

/// The role reference of the sibling pair at `k`, `k + 1`: a text node
/// ending in `{role}` for a known role, followed by an inline code node.
/// The range runs from the `{` to the end of the inline code.
pub open spec fn role_of_pair(
    nodes: Seq<MdNodeView>,
    a: int,
    b: int,
    text: Seq<char>,
    len: nat,
) -> Option<ReferenceView> {
    if 0 <= a < nodes.len() && 0 <= b < nodes.len() && nodes[a].kind == MdKind::Text && nodes[b].kind
        == MdKind::InlineCode {
        match first_match_groups(MYST_ROLE_PREFIX_PATTERN@, nodes[a].value) {
            Some(caps) => {
                let name = match grp(caps, 1) {
                    Some(g) => g.2,
                    None => Seq::empty(),
                };
                match spec_role_kind(name) {
                    Some(kind) => {
                        let (target, display) = role_target_and_display(nodes[b].value);
                        match (grp(caps, 0), nodes[a].position, nodes[b].position) {
                            (Some(whole), Some(tp), Some(cp)) => match bytes_range(
                                text,
                                len,
                                (tp.start_offset + whole.0) as nat,
                                cp.end_offset as nat,
                            ) {
                                Some(range) => Some(
                                    ReferenceView::MystRole(data(target, display, range), kind, target),
                                ),
                                None => None,
                            },
                            _ => None,
                        }
                    },
                    None => None,
                }
            },
            None => None,
        }
    } else {
        None
    }
}

/// The role references among the children, pair by pair in order.
pub open spec fn roles_of_children(
    nodes: Seq<MdNodeView>,
    children: Seq<usize>,
    k: int,
    text: Seq<char>,
    len: nat,
) -> Seq<ReferenceView>
    decreases k,
{
    if k <= 0 {
        Seq::empty()
    } else {
        roles_of_children(nodes, children, k - 1, text, len) + opt_seq(
            role_of_pair(nodes, children[k - 1] as int, children[k] as int, text, len),
        )
    }
}

/// The role references among the children of a paragraph.
pub open spec fn spec_roles_from_siblings(
    nodes: Seq<MdNodeView>,
    children: Seq<usize>,
    text: Seq<char>,
    len: nat,
) -> Seq<ReferenceView> {
    if children.len() < 2 {
        Seq::empty()
    } else {
        roles_of_children(nodes, children, children.len() - 1, text, len)
    }
}

fn role_of(nodes: &Vec<MdNode>, a: usize, b: usize, text: &str) -> (r: Option<Reference>)
    ensures
        opt_reference_view(r) == role_of_pair(node_views(nodes@), a as int, b as int, text@, text.len() as nat),
{
    let ghost nv = node_views(nodes@);
    if !(a < nodes.len() && b < nodes.len()) {
        return None;
    }
    assert(nv[a as int] == nodes@[a as int]@);
    assert(nv[b as int] == nodes@[b as int]@);
    if !(nodes[a].kind == MdKind::Text && nodes[b].kind == MdKind::InlineCode) {
        return None;
    }
    let caps = match first_match(MYST_ROLE_PREFIX_PATTERN, nodes[a].value.as_str()) {
        Some(c) => c,
        None => return None,
    };
    let name = match group(&caps, 1) {
        Some(g) => g.text,
        None => String::new(),
    };
    let kind = match parse_role_kind(name.as_str()) {
        Some(k) => k,
        None => return None,
    };
    let (target, display_text) = target_and_display(nodes[b].value.as_str());
    match (group(&caps, 0), nodes[a].position, nodes[b].position) {
        (Some(whole), Some(tp), Some(cp)) => {
            let len = text.len();
            if tp.start_offset <= len && whole.start <= len - tp.start_offset {
                match range_between(text, tp.start_offset + whole.start, cp.end_offset) {
                    Some(range) => Some(
                        Reference::MystRole(
                            ReferenceData { reference_text: target.clone(), display_text, range },
                            kind,
                            target,
                        ),
                    ),
                    None => None,
                }
            } else {
                None
            }
        },
        _ => None,
    }
}

/// Extract MyST role references from paragraph children.
fn extract_myst_roles_from_siblings(nodes: &Vec<MdNode>, children: &Vec<usize>, text: &str) -> (r: Vec<
    Reference,
>)
    ensures
        ref_views(r@) == spec_roles_from_siblings(node_views(nodes@), children@, text@, text.len() as nat),
{
    let mut out: Vec<Reference> = Vec::new();
    if children.len() < 2 {
        assert(ref_views(out@) =~= Seq::<ReferenceView>::empty());
        return out;
    }
    let ghost nv = node_views(nodes@);
    let mut k: usize = 1;
    assert(ref_views(out@) =~= roles_of_children(nv, children@, 0, text@, text.len() as nat));
    while k < children.len()
        invariant
            1 <= k <= children.len(),
            nv == node_views(nodes@),
            ref_views(out@) == roles_of_children(nv, children@, k - 1, text@, text.len() as nat),
        decreases children.len() - k,
    {
        match role_of(nodes, children[k - 1], children[k], text) {
            Some(r) => {
                out.push(r);
            },
            None => {},
        }
        assert(ref_views(out@) =~= roles_of_children(nv, children@, k as int, text@, text.len() as nat));
        k += 1;
    }
    out
}

// ---------------------------------------------------------------------------
// The walk
// ---------------------------------------------------------------------------

/// The tree has a link reference definition.
pub open spec fn has_definitions(nodes: Seq<MdNodeView>) -> bool {
    exists|i: int| 0 <= i < nodes.len() && #[trigger] nodes[i].kind == MdKind::Definition
}

/// The references that node `i` contributes, before those of its children.
pub open spec fn refs_of_node(
    nodes: Seq<MdNodeView>,
    i: int,
    text: Seq<char>,
    len: nat,
    defs: bool,
) -> Seq<ReferenceView> {
    let n = nodes[i];
    match n.kind {
        MdKind::Link => opt_seq(spec_md_link(nodes, i, text, len)),
        MdKind::Image => opt_seq(spec_image_link(n, text, len)),
        MdKind::Text => spec_text_footnotes(n, text, len) + spec_text_substitutions(n, text, len),
        MdKind::FootnoteReference => opt_seq(spec_footnote_ref(n, text, len)),
        MdKind::LinkReference => if defs {
            opt_seq(spec_link_ref(n, text, len))
        } else {
            Seq::empty()
        },
        MdKind::Paragraph => spec_roles_from_siblings(nodes, n.children, text, len),
        _ => Seq::empty(),
    }
}

/// The references of the first `k` nodes, in document order.
pub open spec fn refs_of_nodes(
    nodes: Seq<MdNodeView>,
    k: int,
    text: Seq<char>,
    len: nat,
    defs: bool,
) -> Seq<ReferenceView>
    decreases k,
{
    if k <= 0 {
        Seq::empty()
    } else {
        refs_of_nodes(nodes, k - 1, text, len, defs) + refs_of_node(nodes, k - 1, text, len, defs)
    }
}

/// Every reference of a document, in document order: each node's before
/// its children's (link references only when the document defines links).
pub open spec fn spec_extract_references(text: Seq<char>, len: nat) -> Seq<ReferenceView> {
    match markdown_tree(text, true) {
        Some(nodes) => refs_of_nodes(nodes, nodes.len() as int, text, len, has_definitions(nodes)),
        None => Seq::empty(),
    }
}

fn has_link_definitions(nodes: &Vec<MdNode>) -> (r: bool)
    ensures
        r == has_definitions(node_views(nodes@)),
{
    let ghost nv = node_views(nodes@);
    let mut i: usize = 0;
    while i < nodes.len()
        invariant
            i <= nodes.len(),
            nv == node_views(nodes@),
            forall|k: int| 0 <= k < i ==> nv[k].kind != MdKind::Definition,
        decreases nodes.len() - i,
    {
        assert(nv[i as int] == nodes@[i as int]@);
        if nodes[i].kind == MdKind::Definition {
            return true;
        }
        i += 1;
    }
    false
}

fn append_refs(out: &mut Vec<Reference>, more: Vec<Reference>)
    ensures
        ref_views(final(out)@) == ref_views(old(out)@) + ref_views(more@),
{
    let mut more = more;
    let ghost a = ref_views(out@);
    let ghost b = ref_views(more@);
    out.append(&mut more);
    assert(ref_views(out@) =~= a + b);
}

/// Extract all references from markdown text using AST parsing.
///
/// `file_name`, the name of the current file, is accepted for the callers'
/// sake; the references do not depend on it.
pub fn extract_references_from_ast(text: &str, file_name: &str) -> (r: Vec<Reference>)
    ensures
        ref_views(r@) == spec_extract_references(text@, text.len() as nat),
{
    let mut refs: Vec<Reference> = Vec::new();
    let nodes = match parse_markdown(text, true) {
        Some(n) => n,
        None => {
            assert(ref_views(refs@) =~= Seq::<ReferenceView>::empty());
            return refs;
        },
    };
    let ghost nv = node_views(nodes@);
    let defs = has_link_definitions(&nodes);
    let mut i: usize = 0;
    assert(ref_views(refs@) =~= refs_of_nodes(nv, 0, text@, text.len() as nat, defs));
    while i < nodes.len()
        invariant
            i <= nodes.len(),
            nv == node_views(nodes@),
            defs == has_definitions(nv),
            ref_views(refs@) == refs_of_nodes(nv, i as int, text@, text.len() as nat, defs),
        decreases nodes.len() - i,
    {
        let node = &nodes[i];
        assert(nv[i as int] == node@);
        match node.kind {
            MdKind::Link => {
                match extract_md_link(&nodes, i, text) {
                    Some(r) => refs.push(r),
                    None => {},
                }
            },
            MdKind::Image => {
                match extract_image_link(node, text) {
                    Some(r) => refs.push(r),
                    None => {},
                }
            },
            MdKind::Text => {
                let f = extract_footnotes_from_text(node, text);
                append_refs(&mut refs, f);
                let s = extract_substitutions_from_text(node, text);
                append_refs(&mut refs, s);
            },
            MdKind::FootnoteReference => {
                match extract_footnote_ref(node, text) {
                    Some(r) => refs.push(r),
                    None => {},
                }
            },
            MdKind::LinkReference => {
                if defs {
                    match extract_link_ref(node, text) {
                        Some(r) => refs.push(r),
                        None => {},
                    }
                }
            },
            MdKind::Paragraph => {
                let roles = extract_myst_roles_from_siblings(&nodes, &node.children, text);
                append_refs(&mut refs, roles);
            },
            _ => {},
        }
        assert(ref_views(refs@) =~= refs_of_nodes(nv, i + 1, text@, text.len() as nat, defs));
        i += 1;
    }
    refs
}

} // verus!
