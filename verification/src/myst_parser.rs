//! MyST-specific syntax: directives, anchors and glossary terms.
//!
//! Directives are fenced code blocks whose language is `{name}`; anchors are
//! text nodes of the form `(target)=`; glossary terms are the unindented
//! lines of a `{glossary}` directive, each followed by its indented
//! definition lines.

use vstd::prelude::*;

use crate::text::{
    byte_len, chars_of, ends_with, join_strings, join_words, lines_of, starts_with, str_eq,
    str_lines, str_starts_with, string_of, sub_vec, vec_ends_with, vec_starts_with,
};
use crate::vault::mdast::{markdown_tree, node_views, parse_markdown, positions_within, tree_wf, MdKind, MdNode, MdNodeView};
use crate::vault::preview::{trim, trim_start, trimmed, trimmed_start};
use crate::vault::types::{range_from_bytes, MyRange, Position, Range};

verus! {

/// A glossary term extracted from a `{glossary}` directive.
#[derive(Debug, PartialEq, Eq, Clone)]
pub struct GlossaryTerm {
    /// The term name (e.g., "MyST")
    pub term: String,
    /// The definition text
    pub definition: String,
    /// LSP-compatible range for go-to-definition navigation
    pub range: MyRange,
}

/// Type-safe representation of MyST symbol kinds.
#[derive(Debug, PartialEq, Eq, Clone, Copy, Hash, Structural)]
pub enum MystSymbolKind {
    Directive,
    Anchor,
    Reference,
}

#[derive(Debug, PartialEq, Eq, Clone)]
pub struct MystSymbol {
    pub kind: MystSymbolKind,
    pub name: String,
    pub line: usize,
    /// LSP-compatible range for go-to-definition navigation
    pub range: MyRange,
    /// Extracted from `:label:` or `:name:` directive options
    pub label: Option<String>,
}


// ---------------------------------------------------------------------------
// Small text operations
// ---------------------------------------------------------------------------

pub open spec fn is_brace(c: char) -> bool {
    c == '\u{7b}' || c == '\u{7d}'
}

/// The text without its leading braces.
pub open spec fn trim_start_braces(s: Seq<char>) -> Seq<char>
    decreases s.len(),
{
    if s.len() > 0 && is_brace(s[0]) {
        trim_start_braces(s.drop_first())
    } else {
        s
    }
}

/// The text without its trailing braces.
pub open spec fn trim_end_braces(s: Seq<char>) -> Seq<char>
    decreases s.len(),
{
    if s.len() > 0 && is_brace(s.last()) {
        trim_end_braces(s.drop_last())
    } else {
        s
    }
}

/// The text without braces at either end (`trim_matches` on `{` and `}`).
pub open spec fn trim_braces(s: Seq<char>) -> Seq<char> {
    trim_end_braces(trim_start_braces(s))
}

fn strip_braces(s: &str) -> (r: String)
    ensures
        r@ == trim_braces(s@),
{
    let v = chars_of(s);
    let mut a: usize = 0;
    assert(v@.subrange(0, v@.len() as int) =~= v@);
    while a < v.len() && (v[a] == '\u{7b}' || v[a] == '\u{7d}')
        invariant
            a <= v.len(),
            trim_start_braces(v@) == trim_start_braces(v@.subrange(a as int, v@.len() as int)),
        decreases v.len() - a,
    {
        assert(v@.subrange(a as int, v@.len() as int).drop_first() =~= v@.subrange(a + 1, v@.len() as int));
        a += 1;
    }
    assert(v@.subrange(0, v@.len() as int) =~= v@);
    let ghost mid = v@.subrange(a as int, v@.len() as int);
    assert(trim_start_braces(mid) == mid);
    let mut b: usize = v.len();
    while b > a && (v[b - 1] == '\u{7b}' || v[b - 1] == '\u{7d}')
        invariant
            a <= b <= v.len(),
            mid == v@.subrange(a as int, v@.len() as int),
            trim_end_braces(mid) == trim_end_braces(v@.subrange(a as int, b as int)),
        decreases b,
    {
        assert(v@.subrange(a as int, b as int).drop_last() =~= v@.subrange(a as int, b - 1));
        b -= 1;
    }
    let out = sub_vec(&v, a, b);
    assert(trim_end_braces(out@) == out@);
    proof {
        assert(trim_start_braces(s@) == mid) by {
            assert(v@ == s@);
        }
    }
    string_of(&out)
}

/// The text without its leading `c`s (`trim_start_matches`).
pub open spec fn trim_start_char(s: Seq<char>, c: char) -> Seq<char>
    decreases s.len(),
{
    if s.len() > 0 && s[0] == c {
        trim_start_char(s.drop_first(), c)
    } else {
        s
    }
}

/// The text without its trailing copies of `p` (`trim_end_matches`).
pub open spec fn trim_end_pattern(s: Seq<char>, p: Seq<char>) -> Seq<char>
    decreases s.len(),
{
    if p.len() > 0 && ends_with(s, p) {
        trim_end_pattern(s.subrange(0, s.len() - p.len()), p)
    } else {
        s
    }
}

fn strip_anchor_marks(v: &Vec<char>) -> (r: Vec<char>)
    ensures
        r@ == trim_end_pattern(trim_start_char(v@, '\u{28}'), seq!['\u{29}', '=']),
{
    let mut a: usize = 0;
    assert(v@.subrange(0, v@.len() as int) =~= v@);
    while a < v.len() && v[a] == '\u{28}'
        invariant
            a <= v.len(),
            trim_start_char(v@, '\u{28}') == trim_start_char(v@.subrange(a as int, v@.len() as int), '\u{28}'),
        decreases v.len() - a,
    {
        assert(v@.subrange(a as int, v@.len() as int).drop_first() =~= v@.subrange(a + 1, v@.len() as int));
        a += 1;
    }
    assert(v@.subrange(0, v@.len() as int) =~= v@);
    let ghost mid = v@.subrange(a as int, v@.len() as int);
    let mut b: usize = v.len();
    let ghost p = seq!['\u{29}', '='];
    while b - a >= 2 && v[b - 2] == '\u{29}' && v[b - 1] == '='
        invariant
            a <= b <= v.len(),
            mid == v@.subrange(a as int, v@.len() as int),
            p == seq!['\u{29}', '='],
            trim_end_pattern(mid, p) == trim_end_pattern(v@.subrange(a as int, b as int), p),
        decreases b,
    {
        let ghost cur = v@.subrange(a as int, b as int);
        assert(cur.subrange(cur.len() - 2, cur.len() as int) =~= p);
        assert(cur.subrange(0, cur.len() - 2) =~= v@.subrange(a as int, b - 2));
        b -= 2;
    }
    let ghost cur = v@.subrange(a as int, b as int);
    assert(!ends_with(cur, p)) by {
        if cur.len() >= 2 {
            assert(cur.subrange(cur.len() - 2, cur.len() as int)[0] == v@[b - 2]);
            assert(cur.subrange(cur.len() - 2, cur.len() as int)[1] == v@[b - 1]);
        }
    }
    sub_vec(v, a, b)
}

// ---------------------------------------------------------------------------
// Directive labels
// ---------------------------------------------------------------------------

/// The value of a `:label:` option line.
pub open spec fn label_of_line(l: Seq<char>) -> Option<Seq<char>> {
    let t = trimmed(l);
    if starts_with(t, ":label:"@) {
        Some(trimmed(t.subrange(":label:"@.len() as int, t.len() as int)))
    } else {
        None
    }
}

/// The value of a `:name:` option line.
pub open spec fn name_of_line(l: Seq<char>) -> Option<Seq<char>> {
    let t = trimmed(l);
    if !starts_with(t, ":label:"@) && starts_with(t, ":name:"@) {
        Some(trimmed(t.subrange(":name:"@.len() as int, t.len() as int)))
    } else {
        None
    }
}

/// A line that ends the options: not empty, and not starting with `:`
/// once trimmed.
pub open spec fn ends_options(l: Seq<char>) -> bool {
    trimmed(l).len() > 0 && !starts_with(trimmed(l), seq![':'])
}

/// The index of the first line from `i` on that ends the options.
pub open spec fn options_end(lines: Seq<Seq<char>>, i: int) -> int
    decreases lines.len() - i,
{
    if i >= lines.len() {
        lines.len() as int
    } else if ends_options(lines[i]) {
        i
    } else {
        options_end(lines, i + 1)
    }
}

/// The last `:label:` value among the first `k` lines.
pub open spec fn label_upto(lines: Seq<Seq<char>>, k: int) -> Option<Seq<char>>
    decreases k,
{
    if k <= 0 {
        None
    } else {
        match label_of_line(lines[k - 1]) {
            Some(x) => Some(x),
            None => label_upto(lines, k - 1),
        }
    }
}

/// The last `:name:` value among the first `k` lines.
pub open spec fn name_upto(lines: Seq<Seq<char>>, k: int) -> Option<Seq<char>>
    decreases k,
{
    if k <= 0 {
        None
    } else {
        match name_of_line(lines[k - 1]) {
            Some(x) => Some(x),
            None => name_upto(lines, k - 1),
        }
    }
}

/// The label of a directive: the last `:label:` option, else the last
/// `:name:` option, among the option lines at the start of its content.
pub open spec fn spec_directive_label(content: Seq<char>) -> Option<Seq<char>> {
    let lines = str_lines(content);
    let k = options_end(lines, 0);
    match label_upto(lines, k) {
        Some(l) => Some(l),
        None => name_upto(lines, k),
    }
}

fn option_value(t: &str, prefix: &str) -> (r: Option<String>)
    ensures
        match r {
            Some(x) => starts_with(t@, prefix@) && x@ == trimmed(t@.subrange(prefix@.len() as int, t@.len() as int)),
            None => !starts_with(t@, prefix@),
        },
{
    if str_starts_with(t, prefix) {
        let tv = chars_of(t);
        let pv = chars_of(prefix);
        let rest = sub_vec(&tv, pv.len(), tv.len());
        let rs = string_of(&rest);
        Some(trim(rs.as_str()))
    } else {
        None
    }
}

/// Extracts :label: or :name: from directive content.
/// :label: takes priority over :name: if both are present.
pub fn extract_directive_label(content: &str) -> (r: Option<String>)
    ensures
        crate::vault::helpers::opt_view(r) == spec_directive_label(content@),
{
    let lines = lines_of(content);
    let ghost lv = lines@.map_values(|l: String| l@);
    let mut label: Option<String> = None;
    let mut name: Option<String> = None;
    let mut i: usize = 0;
    while i < lines.len()
        invariant
            i <= lines.len(),
            lv == lines@.map_values(|l: String| l@),
            lv == str_lines(content@),
            options_end(lv, 0) == options_end(lv, i as int),
            crate::vault::helpers::opt_view(label) == label_upto(lv, i as int),
            crate::vault::helpers::opt_view(name) == name_upto(lv, i as int),
        ensures
            i <= lines.len(),
            options_end(lv, 0) == i,
            crate::vault::helpers::opt_view(label) == label_upto(lv, i as int),
            crate::vault::helpers::opt_view(name) == name_upto(lv, i as int),
        decreases lines.len() - i,
    {
        let trimmed_line = trim(lines[i].as_str());
        assert(lv[i as int] == lines@[i as int]@);
        let mut colon: Vec<char> = Vec::new();
        colon.push(':');
        assert(colon@ =~= seq![':']);
        let starts_colon = vec_starts_with(&chars_of(trimmed_line.as_str()), &colon);
        if !starts_colon && !trimmed_line.as_str().is_empty() {
            assert(options_end(lv, i as int) == i);
            break;
        }
        match option_value(trimmed_line.as_str(), ":label:") {
            Some(v) => {
                label = Some(v);
            },
            None => {
                match option_value(trimmed_line.as_str(), ":name:") {
                    Some(v) => {
                        name = Some(v);
                    },
                    None => {},
                }
            },
        }
        i += 1;
    }
    assert(options_end(lv, 0) == i);
    match label {
        Some(l) => Some(l),
        None => name,
    }
}

// ---------------------------------------------------------------------------
// Directives and anchors
// ---------------------------------------------------------------------------

/// A symbol as plain values.
pub struct MystSymbolView {
    pub kind: MystSymbolKind,
    pub name: Seq<char>,
    pub line: usize,
    pub range: Range,
    pub label: Option<Seq<char>>,
}

impl View for MystSymbol {
    type V = MystSymbolView;

    open spec fn view(&self) -> MystSymbolView {
        MystSymbolView {
            kind: self.kind,
            name: self.name@,
            line: self.line,
            range: self.range.0,
            label: crate::vault::helpers::opt_view(self.label),
        }
    }
}

pub open spec fn symbol_views(v: Seq<MystSymbol>) -> Seq<MystSymbolView> {
    v.map_values(|s: MystSymbol| s@)
}

/// The zero range, given to nodes without a position.
pub open spec fn zero_range() -> Range {
    Range { start: Position { line: 0, character: 0 }, end: Position { line: 0, character: 0 } }
}

/// A node's range and (1-based) line.
pub open spec fn position_info(n: MdNodeView, text: Seq<char>) -> (Range, usize) {
    match n.position {
        Some(p) => (range_from_bytes(text, p.start_offset as nat, p.end_offset as nat), p.start_line),
        None => (zero_range(), 0),
    }
}

/// A code node's language is a directive: `{name}`.
pub open spec fn is_directive_lang(lang: Seq<char>) -> bool {
    starts_with(lang, seq!['\u{7b}']) && ends_with(lang, seq!['\u{7d}'])
}

/// The symbol a node declares: a directive for a code block whose language
/// is `{name}`, an anchor for a text node that reads `(target)=` once
/// trimmed (with a non-empty target).
pub open spec fn symbol_of_node(n: MdNodeView, text: Seq<char>) -> Option<MystSymbolView> {
    let (range, line) = position_info(n, text);
    match n.kind {
        MdKind::Code => match n.lang {
            Some(lang) => if is_directive_lang(lang) {
                Some(
                    MystSymbolView {
                        kind: MystSymbolKind::Directive,
                        name: trim_braces(lang),
                        line,
                        range,
                        label: spec_directive_label(n.value),
                    },
                )
            } else {
                None
            },
            None => None,
        },
        MdKind::Text => {
            let val = trimmed(n.value);
            let target = trim_end_pattern(trim_start_char(val, '\u{28}'), seq!['\u{29}', '=']);
            if starts_with(val, seq!['\u{28}']) && ends_with(val, seq!['\u{29}', '=']) && target.len()
                > 0 {
                Some(
                    MystSymbolView {
                        kind: MystSymbolKind::Anchor,
                        name: target,
                        line,
                        range,
                        label: None,
                    },
                )
            } else {
                None
            }
        },
        _ => None,
    }
}

/// The symbols of the first `k` nodes, in document order.
pub open spec fn symbols_of_nodes(nodes: Seq<MdNodeView>, k: int, text: Seq<char>) -> Seq<MystSymbolView>
    decreases k,
{
    if k <= 0 {
        Seq::empty()
    } else {
        symbols_of_nodes(nodes, k - 1, text) + match symbol_of_node(nodes[k - 1], text) {
            Some(s) => seq![s],
            None => Seq::empty(),
        }
    }
}

/// The MyST symbols of a document, in document order.
pub open spec fn spec_parse(text: Seq<char>) -> Seq<MystSymbolView> {
    match markdown_tree(text, false) {
        Some(nodes) => symbols_of_nodes(nodes, nodes.len() as int, text),
        None => Seq::empty(),
    }
}

fn extract_position_info(node: &MdNode, text: &str) -> (r: (MyRange, usize))
    requires
        node.position matches Some(p) ==> p.start_offset <= p.end_offset <= text.len(),
    ensures
        (r.0.0, r.1) == position_info(node@, text@),
{
    match node.position {
        Some(p) => (MyRange::from_range(text, p.start_offset, p.end_offset), p.start_line),
        None => (
            MyRange(
                Range {
                    start: Position { line: 0, character: 0 },
                    end: Position { line: 0, character: 0 },
                },
            ),
            0,
        ),
    }
}

fn symbol_of(node: &MdNode, text: &str) -> (r: Option<MystSymbol>)
    requires
        node.position matches Some(p) ==> p.start_offset <= p.end_offset <= text.len(),
    ensures
        match r {
            Some(s) => symbol_of_node(node@, text@) == Some(s@),
            None => symbol_of_node(node@, text@) is None,
        },
{
    match node.kind {
        MdKind::Code => {
            match &node.lang {
                Some(lang) => {
                    let lv = chars_of(lang.as_str());
                    let mut open: Vec<char> = Vec::new();
                    open.push('\u{7b}');
                    let mut close: Vec<char> = Vec::new();
                    close.push('\u{7d}');
                    assert(open@ =~= seq!['\u{7b}']);
                    assert(close@ =~= seq!['\u{7d}']);
                    if vec_starts_with(&lv, &open) && vec_ends_with(&lv, &close) {
                        let (range, line) = extract_position_info(node, text);
                        Some(
                            MystSymbol {
                                kind: MystSymbolKind::Directive,
                                name: strip_braces(lang.as_str()),
                                line,
                                range,
                                label: extract_directive_label(node.value.as_str()),
                            },
                        )
                    } else {
                        None
                    }
                },
                None => None,
            }
        },
        MdKind::Text => {
            let val = trim(node.value.as_str());
            let vv = chars_of(val.as_str());
            let mut open: Vec<char> = Vec::new();
            open.push('\u{28}');
            let mut close: Vec<char> = Vec::new();
            close.push('\u{29}');
            close.push('=');
            assert(open@ =~= seq!['\u{28}']);
            assert(close@ =~= seq!['\u{29}', '=']);
            if vec_starts_with(&vv, &open) && vec_ends_with(&vv, &close) {
                let target = strip_anchor_marks(&vv);
                if target.len() > 0 {
                    let (range, line) = extract_position_info(node, text);
                    Some(
                        MystSymbol {
                            kind: MystSymbolKind::Anchor,
                            name: string_of(&target),
                            line,
                            range,
                            label: None,
                        },
                    )
                } else {
                    None
                }
            } else {
                None
            }
        },
        _ => None,
    }
}

/// The syntax tree of a document with the CommonMark options, as the MyST
/// scans read it.
pub fn syntax_tree(text: &str) -> (r: Option<Vec<MdNode>>)
    ensures
        match r {
            Some(v) => markdown_tree(text@, false) == Some(node_views(v@)) && tree_wf(node_views(v@))
                && positions_within(node_views(v@), text.len() as nat),
            None => markdown_tree(text@, false) is None,
        },
{
    parse_markdown(text, false)
}

/// Appends the MyST symbols of the tree's nodes to `symbols`: directives
/// and anchors, in document order. (Both are leaves of the syntax tree, so
/// this is also the order in which a walk that visits children before their
/// parent meets them.)
pub fn scan_for_myst(nodes: &Vec<MdNode>, text: &str, symbols: &mut Vec<MystSymbol>)
    requires
        positions_within(node_views(nodes@), text.len() as nat),
    ensures
        symbol_views(final(symbols)@) == symbol_views(old(symbols)@) + symbols_of_nodes(
            node_views(nodes@),
            nodes@.len() as int,
            text@,
        ),
{
    let ghost nv = node_views(nodes@);
    let ghost start = symbol_views(symbols@);
    let mut i: usize = 0;
    assert(symbol_views(symbols@) =~= start + symbols_of_nodes(nv, 0, text@));
    while i < nodes.len()
        invariant
            i <= nodes.len(),
            nv == node_views(nodes@),
            positions_within(nv, text.len() as nat),
            symbol_views(symbols@) == start + symbols_of_nodes(nv, i as int, text@),
        decreases nodes.len() - i,
    {
        assert(nv[i as int] == nodes@[i as int]@);
        proof {
            if nv[i as int].position is Some {
                assert(nv[i as int].position->0.start_offset <= nv[i as int].position->0.end_offset
                    <= text.len());
            }
        }
        let ghost before = symbol_views(symbols@);
        match symbol_of(&nodes[i], text) {
            Some(s) => {
                symbols.push(s);
                assert(symbol_views(symbols@) =~= before.push(s@));
            },
            None => {},
        }
        assert(symbol_views(symbols@) =~= start + symbols_of_nodes(nv, i + 1, text@));
        i += 1;
    }
}

/// The MyST symbols of a document: directives and anchors, in document
/// order.
pub fn parse(text: &str) -> (r: Vec<MystSymbol>)
    ensures
        symbol_views(r@) == spec_parse(text@),
{
    let mut symbols: Vec<MystSymbol> = Vec::new();
    match syntax_tree(text) {
        Some(nodes) => {
            scan_for_myst(&nodes, text, &mut symbols);
            assert(symbol_views(symbols@) =~= spec_parse(text@));
        },
        None => {
            assert(symbol_views(symbols@) =~= Seq::<MystSymbolView>::empty());
        },
    }
    symbols
}

// ---------------------------------------------------------------------------
// Glossary terms
// ---------------------------------------------------------------------------

/// A glossary term as plain values.
pub struct GlossaryTermView {
    pub term: Seq<char>,
    pub definition: Seq<char>,
    pub range: Range,
}

impl View for GlossaryTerm {
    type V = GlossaryTermView;

    open spec fn view(&self) -> GlossaryTermView {
        GlossaryTermView { term: self.term@, definition: self.definition@, range: self.range.0 }
    }
}

pub open spec fn term_views(v: Seq<GlossaryTerm>) -> Seq<GlossaryTermView> {
    v.map_values(|t: GlossaryTerm| t@)
}

/// The range of a glossary term on `line`: from column 0 to the term's
/// length in bytes.
pub open spec fn term_range(line: usize, term: Seq<char>) -> Range {
    Range {
        start: Position { line: line as u32, character: 0 },
        end: Position { line: line as u32, character: (byte_len(term) as usize) as u32 },
    }
}

/// The state of a glossary scan: the term being read, its definition
/// lines, the line it started on, and the terms finished so far.
pub struct GlossaryState {
    pub current: Option<Seq<char>>,
    pub definition: Seq<Seq<char>>,
    pub term_line: usize,
    pub terms: Seq<GlossaryTermView>,
}

/// The state with the current term (if any) finished.
pub open spec fn glossary_flush(st: GlossaryState, base_line: usize) -> GlossaryState {
    match st.current {
        Some(t) => GlossaryState {
            current: None,
            definition: Seq::empty(),
            term_line: st.term_line,
            terms: st.terms.push(
                GlossaryTermView {
                    term: t,
                    definition: join_words(st.definition, ' '),
                    range: term_range(base_line.wrapping_add(st.term_line), t),
                },
            ),
        },
        None => st,
    }
}

/// One line of glossary content: option lines (`:sorted:`) and blank lines
/// are skipped, an indented line adds to the current term's definition,
/// and any other line starts a new term.
pub open spec fn glossary_step(st: GlossaryState, line: Seq<char>, idx: usize, base_line: usize) -> GlossaryState {
    let t = trimmed(line);
    if starts_with(trimmed_start(line), seq![':']) && starts_with(t, seq![':']) && ends_with(t, seq![':']) {
        st
    } else if t.len() == 0 {
        st
    } else if starts_with(line, seq![' ']) || starts_with(line, seq!['\t']) {
        if st.current is Some {
            GlossaryState { definition: st.definition.push(t), ..st }
        } else {
            st
        }
    } else {
        let f = glossary_flush(st, base_line);
        GlossaryState { current: Some(t), term_line: idx, ..f }
    }
}

/// The state after the first `k` lines.
pub open spec fn glossary_scan(lines: Seq<Seq<char>>, k: int, base_line: usize) -> GlossaryState
    decreases k,
{
    if k <= 0 {
        GlossaryState { current: None, definition: Seq::empty(), term_line: 0, terms: Seq::empty() }
    } else {
        glossary_step(glossary_scan(lines, k - 1, base_line), lines[k - 1], (k - 1) as usize, base_line)
    }
}

/// The terms of a glossary directive's content whose code block starts on
/// (1-based) line `base_line`.
pub open spec fn spec_glossary_content(content: Seq<char>, base_line: usize) -> Seq<GlossaryTermView> {
    let lines = str_lines(content);
    glossary_flush(glossary_scan(lines, lines.len() as int, base_line), base_line).terms
}

fn char_prefix(s: &str, c: char) -> (r: bool)
    ensures
        r == starts_with(s@, seq![c]),
{
    let v = chars_of(s);
    let mut p: Vec<char> = Vec::new();
    p.push(c);
    assert(p@ =~= seq![c]);
    vec_starts_with(&v, &p)
}

fn char_suffix(s: &str, c: char) -> (r: bool)
    ensures
        r == ends_with(s@, seq![c]),
{
    let v = chars_of(s);
    let mut p: Vec<char> = Vec::new();
    p.push(c);
    assert(p@ =~= seq![c]);
    vec_ends_with(&v, &p)
}

fn make_term(term: String, definition: &Vec<String>, line: usize) -> (r: GlossaryTerm)
    ensures
        r@ == (GlossaryTermView {
            term: term@,
            definition: join_words(definition@.map_values(|s: String| s@), ' '),
            range: term_range(line, term@),
        }),
{
    let n = term.as_str().len();
    let range = MyRange(
        Range {
            start: Position { line: line as u32, character: 0 },
            end: Position { line: line as u32, character: n as u32 },
        },
    );
    GlossaryTerm { definition: join_strings(definition, ' '), range, term }
}

/// Parse the content of a glossary directive to extract terms.
///
/// Glossary format: a term on an unindented line, then its definition on
/// indented lines; blank lines and option lines such as `:sorted:` are
/// skipped. `base_line` is the (1-based) line of the directive's opening
/// fence, so that adding a term's index among the content lines gives its
/// zero-based line in the document.
pub fn parse_glossary_content(content: &str, base_line: usize, terms: &mut Vec<GlossaryTerm>)
    ensures
        term_views(final(terms)@) == term_views(old(terms)@) + spec_glossary_content(content@, base_line),
{
    let lines = lines_of(content);
    let ghost lv = lines@.map_values(|l: String| l@);
    let ghost start = term_views(terms@);
    let mut current_term: Option<String> = None;
    let mut current_definition: Vec<String> = Vec::new();
    let mut term_line: usize = 0;
    let mut found: Vec<GlossaryTerm> = Vec::new();
    let mut i: usize = 0;
    while i < lines.len()
        invariant
            i <= lines.len(),
            lv == lines@.map_values(|l: String| l@),
            lv == str_lines(content@),
            ({
                let st = glossary_scan(lv, i as int, base_line);
                &&& crate::vault::helpers::opt_view(current_term) == st.current
                &&& current_definition@.map_values(|s: String| s@) == st.definition
                &&& term_line == st.term_line
                &&& term_views(found@) == st.terms
            }),
        decreases lines.len() - i,
    {
        let line = &lines[i];
        assert(lv[i as int] == line@);
        let ghost st = glossary_scan(lv, i as int, base_line);
        let t = trim(line.as_str());
        let ts = trim_start(line.as_str());
        if char_prefix(ts.as_str(), ':') && char_prefix(t.as_str(), ':') && char_suffix(t.as_str(), ':') {
            i += 1;
            continue;
        }
        if t.as_str().is_empty() {
            i += 1;
            continue;
        }
        if char_prefix(line.as_str(), ' ') || char_prefix(line.as_str(), '\t') {
            if current_term.is_some() {
                let ghost before = current_definition@.map_values(|s: String| s@);
                current_definition.push(t);
                assert(current_definition@.map_values(|s: String| s@) =~= before.push(trimmed(line@)));
            }
        } else {
            match current_term {
                Some(term) => {
                    let ghost before = term_views(found@);
                    found.push(make_term(term, &current_definition, base_line.wrapping_add(term_line)));
                    assert(term_views(found@) =~= before.push(term_views(found@).last()));
                    current_definition = Vec::new();
                    assert(current_definition@.map_values(|s: String| s@) =~= Seq::<Seq<char>>::empty());
                },
                None => {},
            }
            current_term = Some(t);
            term_line = i;
        }
        i += 1;
    }
    match current_term {
        Some(term) => {
            let ghost before = term_views(found@);
            found.push(make_term(term, &current_definition, base_line.wrapping_add(term_line)));
            assert(term_views(found@) =~= before.push(term_views(found@).last()));
        },
        None => {},
    }
    let ghost fv = term_views(found@);
    terms.append(&mut found);
    assert(term_views(terms@) =~= start + fv);
}

/// The glossary terms that node `n` holds: the terms of a code block whose
/// language is `{glossary}`.
pub open spec fn glossary_of_node(n: MdNodeView) -> Seq<GlossaryTermView> {
    match (n.kind, n.lang) {
        (MdKind::Code, Some(lang)) => if is_directive_lang(lang) && trim_braces(lang) == "glossary"@ {
            spec_glossary_content(
                n.value,
                match n.position {
                    Some(p) => p.start_line,
                    None => 0,
                },
            )
        } else {
            Seq::empty()
        },
        _ => Seq::empty(),
    }
}

/// The glossary terms of the first `k` nodes, in document order.
pub open spec fn glossary_of_nodes(nodes: Seq<MdNodeView>, k: int) -> Seq<GlossaryTermView>
    decreases k,
{
    if k <= 0 {
        Seq::empty()
    } else {
        glossary_of_nodes(nodes, k - 1) + glossary_of_node(nodes[k - 1])
    }
}

/// The glossary terms of a document, in document order.
pub open spec fn spec_glossary_terms(text: Seq<char>) -> Seq<GlossaryTermView> {
    match markdown_tree(text, false) {
        Some(nodes) => glossary_of_nodes(nodes, nodes.len() as int),
        None => Seq::empty(),
    }
}

/// Parse glossary terms from MyST document text: the terms of every
/// `{glossary}` directive, in document order.
pub fn parse_glossary_terms(text: &str) -> (r: Vec<GlossaryTerm>)
    ensures
        term_views(r@) == spec_glossary_terms(text@),
{
    let mut terms: Vec<GlossaryTerm> = Vec::new();
    let nodes = match parse_markdown(text, false) {
        Some(n) => n,
        None => {
            assert(term_views(terms@) =~= Seq::<GlossaryTermView>::empty());
            return terms;
        },
    };
    let ghost nv = node_views(nodes@);
    let mut i: usize = 0;
    assert(term_views(terms@) =~= glossary_of_nodes(nv, 0));
    while i < nodes.len()
        invariant
            i <= nodes.len(),
            nv == node_views(nodes@),
            term_views(terms@) == glossary_of_nodes(nv, i as int),
        decreases nodes.len() - i,
    {
        let node = &nodes[i];
        assert(nv[i as int] == node@);
        let ghost before = term_views(terms@);
        if node.kind == MdKind::Code {
            match &node.lang {
                Some(lang) => {
                    if char_prefix(lang.as_str(), '\u{7b}') && char_suffix(lang.as_str(), '\u{7d}') {
                        let directive = strip_braces(lang.as_str());
                        if str_eq(directive.as_str(), "glossary") {
                            let base_line = match node.position {
                                Some(p) => p.start_line,
                                None => 0,
                            };
                            parse_glossary_content(node.value.as_str(), base_line, &mut terms);
                        }
                    }
                },
                None => {},
            }
        }
        assert(term_views(terms@) =~= before + glossary_of_node(nv[i as int]));
        i += 1;
    }
    terms
}

} // verus!
