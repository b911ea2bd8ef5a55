//! Symbols: the workspace symbols a fuzzy query finds, the symbols of a
//! document, and the tree that a document's headings form.

use nucleo_matcher::pattern::{CaseMatching, Normalization, Pattern};
use vstd::prelude::*;

use crate::lsp::{DocumentSymbol, Location, SymbolInformation, SymbolKind};
use crate::myst_parser::{GlossaryTerm, MystSymbol, MystSymbolKind};
use crate::sort::{
    lemma_sort_ascending, lemma_sort_map, lemma_sort_permutes, map_items, sort_by_key, stable_sort_by_key,
};
use crate::text::{decimal, decimal_string, string_of};
use crate::vault::file::views;
use crate::vault::paths::path_is_absolute;
use crate::vault::preview::{symbol_kind, symbol_range};
use crate::vault::referenceable::{spec_path, spec_refname, ReferenceableView};
use crate::vault::store::{
    file_at, kind_pred, spec_select_referenceables, spec_select_symbols, spec_select_terms,
    symbol_views, term_pair_views,
};
use crate::vault::types::{HeadingLevel, MDHeading, Range};
use crate::vault::Vault;

verus! {

// ---------------------------------------------------------------------------
// Workspace symbols
// ---------------------------------------------------------------------------

/// The score that `nucleo_matcher` gives `name` for the fuzzy query (zero
/// when it does not match).
pub uninterp spec fn fuzzy_score(query: Seq<char>, name: Seq<char>) -> u32;

/// Scores `name` against `query` with `nucleo_matcher`: the query parsed as
/// a `Pattern` with smart case matching and smart normalization, scored by
/// a `Matcher` with the default configuration; no match scores zero. The
/// score is a function of the query and the name.
#[verifier::external_body]
fn match_score(query: &str, name: &str) -> (r: u32)
    ensures
        r == fuzzy_score(query@, name@),
{
    let mut matcher = nucleo_matcher::Matcher::new(nucleo_matcher::Config::DEFAULT);
    let pattern = Pattern::parse(query, CaseMatching::Smart, Normalization::Smart);
    let mut buf = Vec::new();
    pattern.score(nucleo_matcher::Utf32Str::new(name, &mut buf), &mut matcher).unwrap_or_default()
}

/// Symbol information as plain values: name, kind, path, range.
pub open spec fn sym_view(s: SymbolInformation) -> (Seq<char>, SymbolKind, Seq<char>, Range) {
    (s.name@, s.kind, s.location.path@, s.location.range)
}

/// The symbol information of a referenceable: its full refname, its kind,
/// its path and its range, when it has a refname and a range and its path
/// is absolute.
pub open spec fn symbol_info(r: ReferenceableView, root: Seq<char>) -> Option<
    (Seq<char>, SymbolKind, Seq<char>, Range),
> {
    if spec_refname(r, root) is Some && path_is_absolute(spec_path(r)) && symbol_range(r) is Some {
        Some((spec_refname(r, root)->0.full, symbol_kind(r), spec_path(r), symbol_range(r)->0))
    } else {
        None
    }
}

/// The symbols that match the query, each keyed so that a higher score
/// sorts first, in vault order.
pub open spec fn scored_symbols(refs: Seq<ReferenceableView>, root: Seq<char>, query: Seq<char>) -> Seq<
    (u128, (Seq<char>, SymbolKind, Seq<char>, Range)),
>
    decreases refs.len(),
{
    if refs.len() == 0 {
        Seq::empty()
    } else {
        let rest = scored_symbols(refs.drop_last(), root, query);
        match symbol_info(refs.last(), root) {
            Some(s) => if fuzzy_score(query, s.0) > 0 {
                rest.push(((u32::MAX - fuzzy_score(query, s.0)) as u128, s))
            } else {
                rest
            },
            None => rest,
        }
    }
}

/// The workspace symbols for a query: the symbols of every referenceable
/// that the query matches, best score first (equal scores in vault order).
pub open spec fn spec_workspace_symbols(vault: Vault, query: Seq<char>) -> Seq<
    (Seq<char>, SymbolKind, Seq<char>, Range),
> {
    sort_by_key(
        scored_symbols(
            spec_select_referenceables(vault.md_files@, vault.root_dir@, None),
            vault.root_dir@,
            query,
        ),
    ).map_values(|p: (u128, (Seq<char>, SymbolKind, Seq<char>, Range))| p.1)
}

/// The workspace symbols matching a fuzzy query, best match first.
pub fn workspace_symbol(vault: &Vault, query: &str) -> (r: Option<Vec<SymbolInformation>>)
    ensures
        r is Some,
        r->0@.map_values(|s: SymbolInformation| sym_view(s)) == spec_workspace_symbols(*vault, query@),
{
    let referenceables = vault.select_referenceable_nodes(None);
    let ghost rv = views(referenceables@);
    let mut scored: Vec<(u128, SymbolInformation)> = Vec::new();
    let mut i: usize = 0;
    let ghost f = |s: SymbolInformation| sym_view(s);
    assert(map_items(scored@, f) =~= scored_symbols(rv.subrange(0, 0), vault.root_dir@, query@));
    while i < referenceables.len()
        invariant
            i <= referenceables.len(),
            rv == views(referenceables@),
            f == (|s: SymbolInformation| sym_view(s)),
            map_items(scored@, f) == scored_symbols(rv.subrange(0, i as int), vault.root_dir@, query@),
        decreases referenceables.len() - i,
    {
        assert(rv.subrange(0, i + 1).drop_last() =~= rv.subrange(0, i as int));
        assert(rv[i as int] == referenceables@[i as int]@);
        let ghost before = map_items(scored@, f);
        match vault.to_symbol_information(referenceables[i].duplicate()) {
            Some(s) => {
                let score = match_score(query, s.name.as_str());
                if score > 0 {
                    let key = (u32::MAX - score) as u128;
                    let ghost v = sym_view(s);
                    scored.push((key, s));
                    assert(map_items(scored@, f) =~= before.push((key, v)));
                }
            },
            None => {},
        }
        assert(map_items(scored@, f) =~= scored_symbols(rv.subrange(0, i + 1), vault.root_dir@, query@));
        i += 1;
    }
    assert(rv.subrange(0, i as int) =~= rv);
    let ghost unsorted = scored@;
    let mut sorted = stable_sort_by_key(scored);
    proof {
        lemma_sort_map(unsorted, f);
    }
    let ghost all = sorted@;
    let mut out: Vec<SymbolInformation> = Vec::new();
    let ghost mut n: int = 0;
    assert(all.subrange(0, all.len() as int) =~= all);
    while sorted.len() > 0
        invariant
            0 <= n <= all.len(),
            sorted@ == all.subrange(n, all.len() as int),
            out@.map_values(|s: SymbolInformation| sym_view(s)) == all.subrange(0, n).map_values(
                |p: (u128, SymbolInformation)| sym_view(p.1),
            ),
        decreases sorted.len(),
    {
        let (_k, s) = sorted.remove(0);
        let ghost before = out@.map_values(|s: SymbolInformation| sym_view(s));
        assert(all[n].1 == s);
        let ghost sv = sym_view(s);
        out.push(s);
        proof {
            assert(out@.map_values(|s: SymbolInformation| sym_view(s)) =~= before.push(sv));
            assert(all.subrange(0, n + 1).map_values(|p: (u128, SymbolInformation)| sym_view(p.1))
                =~= all.subrange(0, n).map_values(|p: (u128, SymbolInformation)| sym_view(p.1)).push(sv));
            n = n + 1;
            assert(sorted@ =~= all.subrange(n, all.len() as int));
            assert(out@.map_values(|s: SymbolInformation| sym_view(s)) =~= all.subrange(0, n).map_values(
                |p: (u128, SymbolInformation)| sym_view(p.1),
            ));
        }
    }
    assert(all.subrange(0, n) =~= all);
    assert(out@.map_values(|s: SymbolInformation| sym_view(s)) =~= map_items(all, f).map_values(
        |p: (u128, (Seq<char>, SymbolKind, Seq<char>, Range))| p.1,
    ));
    Some(out)
}

// ---------------------------------------------------------------------------
// Document symbols
// ---------------------------------------------------------------------------

/// A document symbol as plain values: name, kind, range, detail. (Its
/// selection range is its range.)
pub open spec fn doc_view(d: DocumentSymbol) -> (Seq<char>, SymbolKind, Range, Option<Seq<char>>) {
    (d.name@, d.kind, d.range, match d.detail {
        Some(s) => Some(s@),
        None => None,
    })
}

/// An entry keyed by the line it starts on.
pub open spec fn entry(name: Seq<char>, kind: SymbolKind, range: Range, detail: Seq<char>) -> (
    u128,
    (Seq<char>, SymbolKind, Range, Option<Seq<char>>),
) {
    (range.start.line as u128, (name, kind, range, Some(detail)))
}

/// The heading entries: the heading text, a struct, detail `H<level>`.
pub open spec fn heading_entries(hs: Seq<MDHeading>) -> Seq<
    (u128, (Seq<char>, SymbolKind, Range, Option<Seq<char>>)),
> {
    hs.map_values(
        |h: MDHeading|
            entry(h.heading_text@, SymbolKind::Struct, h.range.0, seq!['H'] + decimal(h.level.0 as nat)),
    )
}

/// The anchor entries: the anchor name, a key, detail `anchor`.
pub open spec fn anchor_entries(ss: Seq<(Seq<char>, MystSymbol)>) -> Seq<
    (u128, (Seq<char>, SymbolKind, Range, Option<Seq<char>>)),
> {
    ss.map_values(
        |p: (Seq<char>, MystSymbol)| entry(p.1.name@, SymbolKind::Key, p.1.range.0, "anchor"@),
    )
}

/// The directive entries: for each directive with a label, the label, an
/// object, detail `{name} directive`.
pub open spec fn directive_entries(ss: Seq<(Seq<char>, MystSymbol)>) -> Seq<
    (u128, (Seq<char>, SymbolKind, Range, Option<Seq<char>>)),
>
    decreases ss.len(),
{
    if ss.len() == 0 {
        Seq::empty()
    } else {
        let s = ss.last().1;
        directive_entries(ss.drop_last()) + match s.label {
            Some(l) => seq![
                entry(
                    l@,
                    SymbolKind::Object,
                    s.range.0,
                    seq!['\u{7b}'] + s.name@ + seq!['\u{7d}'] + " directive"@,
                ),
            ],
            None => Seq::empty(),
        }
    }
}

/// The glossary entries: the term, a constant, detail `glossary term`.
pub open spec fn term_entries(ts: Seq<(Seq<char>, GlossaryTerm)>) -> Seq<
    (u128, (Seq<char>, SymbolKind, Range, Option<Seq<char>>)),
> {
    ts.map_values(
        |p: (Seq<char>, GlossaryTerm)| entry(p.1.term@, SymbolKind::Constant, p.1.range.0, "glossary term"@),
    )
}

/// The entries of the file at `path`: headings, anchors, labelled
/// directives and glossary terms.
pub open spec fn document_entries(vault: Vault, path: Seq<char>) -> Seq<
    (u128, (Seq<char>, SymbolKind, Range, Option<Seq<char>>)),
> {
    let files = vault.md_files@;
    let hs = match file_at(files, path) {
        Some(f) => f.headings@,
        None => Seq::empty(),
    };
    let syms = spec_select_symbols(files, Some(path));
    heading_entries(hs) + anchor_entries(syms.filter(kind_pred(MystSymbolKind::Anchor)))
        + directive_entries(syms.filter(kind_pred(MystSymbolKind::Directive))) + term_entries(
        spec_select_terms(files, Some(path)),
    )
}

/// The symbols of a document in line order (those on one line in the order
/// headings, anchors, directives, terms); none when it has none.
pub open spec fn spec_document_symbols(vault: Vault, path: Seq<char>) -> Option<
    Seq<(Seq<char>, SymbolKind, Range, Option<Seq<char>>)>,
> {
    let e = document_entries(vault, path);
    if e.len() == 0 {
        None
    } else {
        Some(
            sort_by_key(e).map_values(
                |p: (u128, (Seq<char>, SymbolKind, Range, Option<Seq<char>>))| p.1,
            ),
        )
    }
}

/// Every entry's key is the line its range starts on.
pub open spec fn keyed_by_line(es: Seq<(u128, (Seq<char>, SymbolKind, Range, Option<Seq<char>>))>) -> bool {
    forall|k: int| 0 <= k < es.len() ==> #[trigger] es[k].0 == es[k].1.2.start.line as u128
}

proof fn lemma_directive_entries_keyed(ss: Seq<(Seq<char>, MystSymbol)>)
    ensures
        keyed_by_line(directive_entries(ss)),
    decreases ss.len(),
{
    if ss.len() > 0 {
        lemma_directive_entries_keyed(ss.drop_last());
    }
}

/// A document's symbols come in the order of the lines they start on.
pub proof fn lemma_document_symbols_in_line_order(vault: Vault, path: Seq<char>)
    ensures
        spec_document_symbols(vault, path) matches Some(s) ==> forall|i: int, j: int|
            0 <= i <= j < s.len() ==> (#[trigger] s[i]).2.start.line <= (#[trigger] s[j]).2.start.line,
{
    broadcast use vstd::seq_lib::group_to_multiset_ensures;

    let e = document_entries(vault, path);
    let files = vault.md_files@;
    let hs = match file_at(files, path) {
        Some(f) => f.headings@,
        None => Seq::empty(),
    };
    let syms = spec_select_symbols(files, Some(path));
    lemma_directive_entries_keyed(syms.filter(kind_pred(MystSymbolKind::Directive)));
    assert(keyed_by_line(e));
    let t = sort_by_key(e);
    lemma_sort_ascending(e);
    lemma_sort_permutes(e);
    assert forall|k: int| 0 <= k < t.len() implies #[trigger] t[k].0 == t[k].1.2.start.line as u128 by {
        assert(t.contains(t[k]));
        assert(t.to_multiset().count(t[k]) > 0);
        assert(e.contains(t[k]));
        let m = choose|m: int| 0 <= m < e.len() && e[m] == t[k];
        assert(e[m].0 == e[m].1.2.start.line as u128);
    }
    if e.len() > 0 {
        let s = t.map_values(|p: (u128, (Seq<char>, SymbolKind, Range, Option<Seq<char>>))| p.1);
        assert forall|i: int, j: int| 0 <= i <= j < s.len() implies (#[trigger] s[i]).2.start.line <= (
        #[trigger] s[j]).2.start.line by {
            assert(s[i] == t[i].1 && s[j] == t[j].1);
            assert(t[i].0 <= t[j].0);
            assert(t[i].0 == t[i].1.2.start.line as u128);
            assert(t[j].0 == t[j].1.2.start.line as u128);
        }
    }
}

/// A flat symbol waiting to be sorted.
pub struct FlatSymbol {
    pub name: String,
    pub kind: SymbolKind,
    pub range: Range,
    pub detail: String,
}

pub open spec fn flat_view(s: FlatSymbol) -> (Seq<char>, SymbolKind, Range, Option<Seq<char>>) {
    (s.name@, s.kind, s.range, Some(s.detail@))
}

fn push_entry(out: &mut Vec<(u128, FlatSymbol)>, name: String, kind: SymbolKind, range: Range, detail: String)
    ensures
        map_items(final(out)@, |s: FlatSymbol| flat_view(s)) == map_items(old(out)@, |s: FlatSymbol| flat_view(s)).push(
            entry(name@, kind, range, detail@),
        ),
{
    let ghost before = map_items(out@, |s: FlatSymbol| flat_view(s));
    out.push((range.start.line as u128, FlatSymbol { name, kind, range, detail }));
    assert(map_items(out@, |s: FlatSymbol| flat_view(s)) =~= before.push(entry(name@, kind, range, detail@)));
}

/// The document symbols of sorted flat symbols, in the same order, each
/// selecting its whole range.
fn symbols_to_flat_list(sorted: Vec<(u128, FlatSymbol)>) -> (out: Vec<DocumentSymbol>)
    ensures
        out@.map_values(|d: DocumentSymbol| doc_view(d)) == sorted@.map_values(
            |p: (u128, FlatSymbol)| flat_view(p.1),
        ),
        forall|k: int| 0 <= k < out@.len() ==> (#[trigger] out@[k]).selection_range == out@[k].range
            && out@[k].children is None,
{
    let ghost all = sorted@;
    let mut sorted = sorted;
    let mut out: Vec<DocumentSymbol> = Vec::new();
    let ghost mut n: int = 0;
    assert(all.subrange(0, all.len() as int) =~= all);
    while sorted.len() > 0
        invariant
            0 <= n <= all.len(),
            sorted@ == all.subrange(n, all.len() as int),
            out@.map_values(|d: DocumentSymbol| doc_view(d)) == all.subrange(0, n).map_values(
                |p: (u128, FlatSymbol)| flat_view(p.1),
            ),
            forall|k: int| 0 <= k < out@.len() ==> (#[trigger] out@[k]).selection_range == out@[k].range
                && out@[k].children is None,
        decreases sorted.len(),
    {
        let (_k, s) = sorted.remove(0);
        let ghost before = out@.map_values(|d: DocumentSymbol| doc_view(d));
        let ghost sv = flat_view(s);
        assert(all[n].1 == s);
        let d = DocumentSymbol {
            name: s.name,
            kind: s.kind,
            range: s.range,
            selection_range: s.range,
            detail: Some(s.detail),
            children: None,
        };
        assert(doc_view(d) == sv);
        out.push(d);
        proof {
            assert(out@.map_values(|d: DocumentSymbol| doc_view(d)) =~= before.push(sv));
            assert(all.subrange(0, n + 1).map_values(|p: (u128, FlatSymbol)| flat_view(p.1))
                =~= all.subrange(0, n).map_values(|p: (u128, FlatSymbol)| flat_view(p.1)).push(sv));
            n = n + 1;
            assert(sorted@ =~= all.subrange(n, all.len() as int));
            assert(out@.map_values(|d: DocumentSymbol| doc_view(d)) =~= all.subrange(0, n).map_values(
                |p: (u128, FlatSymbol)| flat_view(p.1),
            ));
        }
    }
    assert(all.subrange(0, n) =~= all);
    out
}

/// The symbols of a document: headings, MyST anchors, labelled directives
/// and glossary terms, in line order; `None` when there are none.
pub fn document_symbol(vault: &Vault, path: &str) -> (r: Option<Vec<DocumentSymbol>>)
    ensures
        match (r, spec_document_symbols(*vault, path@)) {
            (Some(v), Some(s)) => v@.map_values(|d: DocumentSymbol| doc_view(d)) == s && forall|i: int|
                0 <= i < v@.len() ==> (#[trigger] v@[i]).selection_range == v@[i].range
                && v@[i].children is None,
            (None, None) => true,
            _ => false,
        },
{
    let ghost f = |s: FlatSymbol| flat_view(s);
    let mut symbols: Vec<(u128, FlatSymbol)> = Vec::new();
    assert(map_items(symbols@, f) =~= Seq::<(u128, (Seq<char>, SymbolKind, Range, Option<Seq<char>>))>::empty());
    let ghost hs = match file_at(vault.md_files@, path@) {
        Some(file) => file.headings@,
        None => Seq::<MDHeading>::empty(),
    };
    match vault.select_headings(path) {
        Some(headings) => {
            let mut i: usize = 0;
            while i < headings.len()
                invariant
                    i <= headings.len(),
                    headings@ == hs,
                    f == (|s: FlatSymbol| flat_view(s)),
                    map_items(symbols@, f) == heading_entries(hs.subrange(0, i as int)),
                decreases headings.len() - i,
            {
                let h = &headings[i];
                let mut d: Vec<char> = Vec::new();
                d.push('H');
                let digits = decimal_string(h.level.0);
                let dv = crate::text::chars_of(digits.as_str());
                let detail = crate::text::concat(string_of(&d).as_str(), digits.as_str());
                assert(d@ =~= seq!['H']);
                push_entry(&mut symbols, h.heading_text.clone(), SymbolKind::Struct, h.range.0, detail);
                assert(heading_entries(hs.subrange(0, i + 1)) =~= heading_entries(hs.subrange(0, i as int)).push(
                    heading_entries(hs)[i as int],
                ));
                i += 1;
            }
            assert(hs.subrange(0, i as int) =~= hs);
        },
        None => {
            assert(heading_entries(hs) =~= Seq::empty());
        },
    }
    let ghost after_headings = map_items(symbols@, f);
    let anchors = vault.select_myst_anchors(Some(path));
    let ghost av = symbol_views(anchors@);
    let mut i: usize = 0;
    while i < anchors.len()
        invariant
            i <= anchors.len(),
            av == symbol_views(anchors@),
            f == (|s: FlatSymbol| flat_view(s)),
            map_items(symbols@, f) == after_headings + anchor_entries(av.subrange(0, i as int)),
        decreases anchors.len() - i,
    {
        let (_p, s) = anchors[i];
        assert(av[i as int].1 == *s);
        push_entry(&mut symbols, s.name.clone(), SymbolKind::Key, s.range.0, String::from_str("anchor"));
        assert(anchor_entries(av.subrange(0, i + 1)) =~= anchor_entries(av.subrange(0, i as int)).push(
            anchor_entries(av)[i as int],
        ));
        i += 1;
    }
    assert(av.subrange(0, i as int) =~= av);
    let ghost after_anchors = map_items(symbols@, f);
    let directives = vault.select_myst_directives(Some(path));
    let ghost dv = symbol_views(directives@);
    let mut i: usize = 0;
    assert(directive_entries(dv.subrange(0, 0)) =~= Seq::empty());
    while i < directives.len()
        invariant
            i <= directives.len(),
            dv == symbol_views(directives@),
            f == (|s: FlatSymbol| flat_view(s)),
            map_items(symbols@, f) == after_anchors + directive_entries(dv.subrange(0, i as int)),
        decreases directives.len() - i,
    {
        let (_p, s) = directives[i];
        assert(dv[i as int].1 == *s);
        assert(dv.subrange(0, i + 1).drop_last() =~= dv.subrange(0, i as int));
        match &s.label {
            Some(label) => {
                let mut open: Vec<char> = Vec::new();
                open.push('\u{7b}');
                let mut close: Vec<char> = Vec::new();
                close.push('\u{7d}');
                assert(open@ =~= seq!['\u{7b}']);
                assert(close@ =~= seq!['\u{7d}']);
                let a = crate::text::concat(string_of(&open).as_str(), s.name.as_str());
                let b = crate::text::concat(a.as_str(), string_of(&close).as_str());
                let detail = crate::text::concat(b.as_str(), " directive");
                push_entry(&mut symbols, label.clone(), SymbolKind::Object, s.range.0, detail);
            },
            None => {},
        }
        assert(map_items(symbols@, f) =~= after_anchors + directive_entries(dv.subrange(0, i + 1)));
        i += 1;
    }
    assert(dv.subrange(0, i as int) =~= dv);
    let ghost after_directives = map_items(symbols@, f);
    let terms = vault.select_glossary_terms(Some(path));
    let ghost tv = term_pair_views(terms@);
    let mut i: usize = 0;
    while i < terms.len()
        invariant
            i <= terms.len(),
            tv == term_pair_views(terms@),
            f == (|s: FlatSymbol| flat_view(s)),
            map_items(symbols@, f) == after_directives + term_entries(tv.subrange(0, i as int)),
        decreases terms.len() - i,
    {
        let (_p, t) = terms[i];
        assert(tv[i as int].1 == *t);
        push_entry(&mut symbols, t.term.clone(), SymbolKind::Constant, t.range.0, String::from_str("glossary term"));
        assert(term_entries(tv.subrange(0, i + 1)) =~= term_entries(tv.subrange(0, i as int)).push(
            term_entries(tv)[i as int],
        ));
        i += 1;
    }
    assert(tv.subrange(0, i as int) =~= tv);
    assert(map_items(symbols@, f) =~= document_entries(*vault, path@));
    if symbols.len() == 0 {
        return None;
    }
    let ghost unsorted = symbols@;
    let sorted = stable_sort_by_key(symbols);
    proof {
        lemma_sort_map(unsorted, f);
    }
    let ghost sorted_view = sorted@;
    let out = symbols_to_flat_list(sorted);
    let ghost all = sorted_view;
    assert(out@.map_values(|d: DocumentSymbol| doc_view(d)) =~= map_items(all, f).map_values(
        |p: (u128, (Seq<char>, SymbolKind, Range, Option<Seq<char>>))| p.1,
    ));
    Some(out)
}

// ---------------------------------------------------------------------------
// The heading tree
// ---------------------------------------------------------------------------

/// A heading with the headings nested under it.
#[derive(PartialEq, Debug)]
pub struct HeadingNode {
    pub heading: MDHeading,
    pub children: Option<Vec<HeadingNode>>,
}

/// The headings of a forest in document order: each node's heading, then
/// those of its children.
pub open spec fn flatten_nodes(nodes: Seq<HeadingNode>) -> Seq<MDHeading>
    decreases nodes,
{
    if nodes.len() == 0 {
        Seq::empty()
    } else {
        let last = nodes.last();
        flatten_nodes(nodes.drop_last()) + seq![last.heading] + match last.children {
            Some(c) => flatten_nodes(c@),
            None => Seq::empty(),
        }
    }
}

/// A forest nests its headings: sibling levels never increase, a node has
/// children only if there are some, and every heading under a node is of a
/// greater level than the node's.
pub open spec fn well_nested(nodes: Seq<HeadingNode>) -> bool
    decreases nodes,
{
    if nodes.len() == 0 {
        true
    } else {
        let last = nodes.last();
        &&& well_nested(nodes.drop_last())
        &&& (nodes.len() >= 2 ==> last.heading.level.0 <= nodes[nodes.len() - 2].heading.level.0)
        &&& match last.children {
            Some(c) => {
                &&& c@.len() > 0
                &&& well_nested(c@)
                &&& forall|k: int|
                    0 <= k < flatten_nodes(c@).len() ==> #[trigger] flatten_nodes(c@)[k].level.0
                        > last.heading.level.0
            },
            None => true,
        }
    }
}

/// Flattening a concatenation concatenates the flattenings.
pub proof fn lemma_flatten_append(a: Seq<HeadingNode>, b: Seq<HeadingNode>)
    ensures
        flatten_nodes(a + b) == flatten_nodes(a) + flatten_nodes(b),
    decreases b.len(),
{
    if b.len() == 0 {
        assert(a + b =~= a);
        assert(flatten_nodes(a) + flatten_nodes(b) =~= flatten_nodes(a));
    } else {
        assert((a + b).drop_last() =~= a + b.drop_last());
        assert((a + b).last() == b.last());
        lemma_flatten_append(a, b.drop_last());
        let tail = seq![b.last().heading] + match b.last().children {
            Some(c) => flatten_nodes(c@),
            None => Seq::empty(),
        };
        assert(flatten_nodes(a + b) =~= flatten_nodes(a) + flatten_nodes(b.drop_last()) + tail);
        assert(flatten_nodes(b) =~= flatten_nodes(b.drop_last()) + tail);
    }
}

/// A well-nested node followed by a well-nested forest whose first level
/// is at most the node's is well nested.
proof fn lemma_nested_prepend(n: HeadingNode, b: Seq<HeadingNode>)
    requires
        well_nested(seq![n]),
        well_nested(b),
        b.len() > 0 ==> b[0].heading.level.0 <= n.heading.level.0,
    ensures
        well_nested(seq![n] + b),
    decreases b.len(),
{
    if b.len() > 0 {
        let s = seq![n] + b;
        assert(s.drop_last() =~= seq![n] + b.drop_last());
        assert(s.last() == b.last());
        lemma_nested_prepend(n, b.drop_last());
        if b.len() >= 2 {
            assert(s[s.len() - 2] == b[b.len() - 2]);
        } else {
            assert(s[s.len() - 2] == n);
        }
    } else {
        assert(seq![n] + b =~= seq![n]);
    }
}

fn copy_heading(h: &MDHeading) -> (r: MDHeading)
    ensures
        r == *h,
{
    MDHeading { heading_text: h.heading_text.clone(), range: h.range, level: HeadingLevel(h.level.0) }
}

fn build_tree(hs: &Vec<MDHeading>, lo: usize, hi: usize) -> (r: Vec<HeadingNode>)
    requires
        lo <= hi <= hs.len(),
    ensures
        flatten_nodes(r@) == hs@.subrange(lo as int, hi as int),
        well_nested(r@),
        r@.len() == 0 <==> lo == hi,
    decreases hi - lo,
{
    if lo == hi {
        let out: Vec<HeadingNode> = Vec::new();
        assert(hs@.subrange(lo as int, hi as int) =~= Seq::<MDHeading>::empty());
        return out;
    }
    let first = copy_heading(&hs[lo]);
    let level = first.level.0;
    let mut k = lo + 1;
    while k < hi && hs[k].level.0 > level
        invariant
            lo < k <= hi <= hs.len(),
            level == hs@[lo as int].level.0,
            forall|j: int| lo < j < k ==> hs@[j].level.0 > level,
        decreases hi - k,
    {
        k += 1;
    }
    let children = if k > lo + 1 {
        let c = build_tree(hs, lo + 1, k);
        assert forall|j: int| 0 <= j < flatten_nodes(c@).len() implies #[trigger] flatten_nodes(c@)[j].level.0
            > level by {
            assert(flatten_nodes(c@)[j] == hs@[lo + 1 + j]);
        }
        Some(c)
    } else {
        None
    };
    let node = HeadingNode { heading: first, children };
    let ghost n = node;
    let rest = build_tree(hs, k, hi);
    proof {
        assert(seq![n].drop_last() =~= Seq::<HeadingNode>::empty());
        assert(seq![n].last() == n);
        assert(well_nested(Seq::<HeadingNode>::empty()));
        match n.children {
            Some(c) => {
                assert(c@.len() > 0);
                assert(well_nested(c@));
            },
            None => {},
        }
        assert(well_nested(seq![n]));
        assert(flatten_nodes(seq![n]) =~= hs@.subrange(lo as int, k as int)) by {
            assert(flatten_nodes(seq![n].drop_last()) =~= Seq::<MDHeading>::empty());
            if k > lo + 1 {
                assert(hs@.subrange(lo as int, k as int) =~= seq![hs@[lo as int]] + hs@.subrange(lo + 1, k as int));
            } else {
                assert(hs@.subrange(lo as int, k as int) =~= seq![hs@[lo as int]]);
            }
        }
        if rest@.len() > 0 {
            assert(flatten_nodes(rest@)[0] == hs@[k as int]);
            lemma_flatten_first(rest@);
        }
        lemma_nested_prepend(n, rest@);
        lemma_flatten_append(seq![n], rest@);
    }
    let mut out: Vec<HeadingNode> = Vec::new();
    out.push(node);
    let mut rest = rest;
    let ghost rv = rest@;
    out.append(&mut rest);
    assert(out@ =~= seq![n] + rv);
    assert(hs@.subrange(lo as int, k as int) + hs@.subrange(k as int, hi as int) =~= hs@.subrange(lo as int, hi as int));
    out
}

/// The first heading of a non-empty forest is its first node's.
proof fn lemma_flatten_first(nodes: Seq<HeadingNode>)
    requires
        nodes.len() > 0,
    ensures
        flatten_nodes(nodes).len() > 0,
        flatten_nodes(nodes)[0] == nodes[0].heading,
    decreases nodes.len(),
{
    if nodes.len() == 1 {
        assert(nodes.drop_last() =~= Seq::<HeadingNode>::empty());
        assert(flatten_nodes(Seq::<HeadingNode>::empty()) =~= Seq::<MDHeading>::empty());
        assert(nodes.last() == nodes[0]);
    } else {
        lemma_flatten_first(nodes.drop_last());
        assert(nodes.drop_last()[0] == nodes[0]);
    }
}

/// The tree of a document's headings: each heading holds the headings
/// after it of greater level, up to the next heading of its level or
/// above. Flattening the tree gives back the headings. `None` when there
/// are no headings.
pub fn construct_tree(headings: &Vec<MDHeading>) -> (r: Option<Vec<HeadingNode>>)
    ensures
        r is None <==> headings@.len() == 0,
        r matches Some(t) ==> flatten_nodes(t@) == headings@ && well_nested(t@),
{
    if headings.len() == 0 {
        None
    } else {
        let t = build_tree(headings, 0, headings.len());
        assert(headings@.subrange(0, headings@.len() as int) =~= headings@);
        Some(t)
    }
}


/// The document symbol of a heading node: its heading's text, as a struct,
/// over the heading's range, with the symbols of its children.
pub open spec fn node_symbol_ok(d: DocumentSymbol, n: HeadingNode) -> bool
    decreases n, 1int,
{
    &&& d.name@ == n.heading.heading_text@
    &&& d.kind == SymbolKind::Struct
    &&& d.range == n.heading.range.0
    &&& d.selection_range == n.heading.range.0
    &&& d.detail is None
    &&& match (d.children, n.children) {
        (Some(dc), Some(nc)) => tree_symbols_ok(dc@, nc@),
        (None, None) => true,
        _ => false,
    }
}

/// The document symbols of a forest of heading nodes, one per node, in order.
pub open spec fn tree_symbols_ok(ds: Seq<DocumentSymbol>, ns: Seq<HeadingNode>) -> bool
    decreases ns, 0int,
{
    &&& ds.len() == ns.len()
    &&& ns.len() > 0 ==> tree_symbols_ok(ds.drop_last(), ns.drop_last()) && node_symbol_ok(
        ds.last(),
        ns.last(),
    )
}

proof fn lemma_tree_symbols_push(ds: Seq<DocumentSymbol>, ns: Seq<HeadingNode>, d: DocumentSymbol, n: HeadingNode)
    requires
        tree_symbols_ok(ds, ns),
        node_symbol_ok(d, n),
    ensures
        tree_symbols_ok(ds.push(d), ns.push(n)),
{
    assert(ds.push(d).drop_last() =~= ds);
    assert(ns.push(n).drop_last() =~= ns);
}

/// The document symbols of a heading tree, nested as the tree is.
pub fn map_to_lsp_tree(tree: Vec<HeadingNode>) -> (r: Vec<DocumentSymbol>)
    ensures
        tree_symbols_ok(r@, tree@),
    decreases tree@,
{
    let ghost t = tree@;
    let mut rest = tree;
    match rest.pop() {
        None => Vec::new(),
        Some(node) => {
            assert(rest@ =~= t.drop_last());
            assert(node == t.last());
            assert(decreases_to!(t => rest@));
            let mut out = map_to_lsp_tree(rest);
            let children = match node.children {
                Some(c) => {
                    assert(decreases_to!(t => c@));
                    Some(map_to_lsp_tree(c))
                },
                None => None,
            };
            let d = DocumentSymbol {
                name: node.heading.heading_text,
                kind: SymbolKind::Struct,
                range: node.heading.range.0,
                selection_range: node.heading.range.0,
                detail: None,
                children,
            };
            proof {
                lemma_tree_symbols_push(out@, t.drop_last(), d, t.last());
                assert(t.drop_last().push(t.last()) =~= t);
            }
            out.push(d);
            out
        },
    }
}

} // verus!
