//! A parsed Markdown file of the vault.

use vstd::prelude::*;

use super::ast_refs::{ref_views, spec_extract_references};
use super::helpers::opt_view;
use super::metadata::{pair_views, MDMetadata};
use super::parsers::{
    block_view, footnote_view, heading_view, link_def_view, spec_code_blocks, spec_footnotes,
    spec_headings, spec_indexed_blocks, spec_link_defs, spec_tags, tag_view,
};
use super::paths::{file_stem, path_file_stem};
use super::reference::{view_data, Reference, ReferenceView};
use super::referenceable::{Referenceable, ReferenceableView};
use super::types::{
    includes, range_includes, MDCodeBlock, MDFootnote, MDHeading, MDIndexedBlock,
    MDLinkReferenceDefinition, MDSubstitutionDef, MDTag, MyRange, Range, Rangeable,
};
use crate::config::Settings;
use crate::myst_parser::{
    parse, parse_glossary_terms, spec_glossary_terms, spec_parse, symbol_views, term_views,
    GlossaryTerm, MystSymbol, MystSymbolKind,
};

verus! {

#[derive(Debug, PartialEq, Eq, Default, Clone)]
pub struct MDFile {
    pub references: Vec<Reference>,
    pub headings: Vec<MDHeading>,
    pub indexed_blocks: Vec<MDIndexedBlock>,
    pub tags: Vec<MDTag>,
    pub footnotes: Vec<MDFootnote>,
    pub path: String,
    pub link_reference_definitions: Vec<MDLinkReferenceDefinition>,
    pub metadata: Option<MDMetadata>,
    pub codeblocks: Vec<MDCodeBlock>,
    pub myst_symbols: Vec<MystSymbol>,
    /// Glossary terms extracted from `{glossary}` directives
    pub glossary_terms: Vec<GlossaryTerm>,
    /// Substitution definitions from frontmatter
    pub substitution_defs: Vec<MDSubstitutionDef>,
}

/// A symbol is a MyST anchor.
pub open spec fn is_anchor(s: MystSymbol) -> bool {
    s.kind == MystSymbolKind::Anchor
}

/// A symbol is a `{math}` directive with a label.
pub open spec fn is_math_label(s: MystSymbol) -> bool {
    s.kind == MystSymbolKind::Directive && s.name@ == "math"@ && s.label is Some
}

pub open spec fn heading_of(p: Seq<char>) -> spec_fn(MDHeading) -> ReferenceableView {
    |h: MDHeading| ReferenceableView::Heading(p, h)
}

pub open spec fn block_of(p: Seq<char>) -> spec_fn(MDIndexedBlock) -> ReferenceableView {
    |b: MDIndexedBlock| ReferenceableView::IndexedBlock(p, b)
}

pub open spec fn tag_of(p: Seq<char>) -> spec_fn(MDTag) -> ReferenceableView {
    |t: MDTag| ReferenceableView::Tag(p, t)
}

pub open spec fn footnote_of(p: Seq<char>) -> spec_fn(MDFootnote) -> ReferenceableView {
    |n: MDFootnote| ReferenceableView::Footnote(p, n)
}

pub open spec fn link_def_of(p: Seq<char>) -> spec_fn(MDLinkReferenceDefinition) -> ReferenceableView {
    |d: MDLinkReferenceDefinition| ReferenceableView::LinkRefDef(p, d)
}

pub open spec fn anchor_of(p: Seq<char>) -> spec_fn(MystSymbol) -> ReferenceableView {
    |s: MystSymbol| ReferenceableView::MystAnchor(p, s)
}

pub open spec fn term_of(p: Seq<char>) -> spec_fn(GlossaryTerm) -> ReferenceableView {
    |g: GlossaryTerm| ReferenceableView::GlossaryTerm(p, g)
}

pub open spec fn math_of(p: Seq<char>) -> spec_fn(MystSymbol) -> ReferenceableView {
    |s: MystSymbol| ReferenceableView::MathLabel(p, s)
}

pub open spec fn subst_of(p: Seq<char>) -> spec_fn(MDSubstitutionDef) -> ReferenceableView {
    |d: MDSubstitutionDef| ReferenceableView::SubstitutionDef(p, d)
}

pub open spec fn anchor_pred() -> spec_fn(MystSymbol) -> bool {
    |s: MystSymbol| is_anchor(s)
}

pub open spec fn math_pred() -> spec_fn(MystSymbol) -> bool {
    |s: MystSymbol| is_math_label(s)
}

proof fn lemma_extend<T>(acc: Seq<ReferenceableView>, s: Seq<T>, i: int, f: spec_fn(T) -> ReferenceableView)
    requires
        0 <= i < s.len(),
    ensures
        acc + s.subrange(0, i + 1).map_values(f) == (acc + s.subrange(0, i).map_values(f)).push(f(s[i])),
{
    assert(s.subrange(0, i + 1) =~= s.subrange(0, i).push(s[i]));
    assert(s.subrange(0, i + 1).map_values(f) =~= s.subrange(0, i).map_values(f).push(f(s[i])));
    assert(acc + s.subrange(0, i + 1).map_values(f) =~= (acc + s.subrange(0, i).map_values(f)).push(
        f(s[i]),
    ));
}

proof fn lemma_extend_filter<T>(
    acc: Seq<ReferenceableView>,
    s: Seq<T>,
    i: int,
    pred: spec_fn(T) -> bool,
    f: spec_fn(T) -> ReferenceableView,
)
    requires
        0 <= i < s.len(),
    ensures
        pred(s[i]) ==> acc + s.subrange(0, i + 1).filter(pred).map_values(f) == (acc + s.subrange(
            0,
            i,
        ).filter(pred).map_values(f)).push(f(s[i])),
        !pred(s[i]) ==> acc + s.subrange(0, i + 1).filter(pred).map_values(f) == acc + s.subrange(
            0,
            i,
        ).filter(pred).map_values(f),
{
    assert(s.subrange(0, i + 1).drop_last() =~= s.subrange(0, i));
    assert(s.subrange(0, i + 1).last() == s[i]);
    assert(s.subrange(0, i + 1).len() > 0);
    reveal_with_fuel(Seq::filter, 1);
    let a = s.subrange(0, i).filter(pred);
    if pred(s[i]) {
        assert(s.subrange(0, i + 1).filter(pred) == a.push(s[i]));
        assert(a.push(s[i]).map_values(f) =~= a.map_values(f).push(f(s[i])));
        assert(acc + a.push(s[i]).map_values(f) =~= (acc + a.map_values(f)).push(f(s[i])));
    } else {
        assert(s.subrange(0, i + 1).filter(pred) == a);
    }
}

proof fn lemma_views_push<'a>(s: Seq<Referenceable<'a>>, x: Referenceable<'a>)
    ensures
        views(s.push(x)) == views(s).push(x@),
{
    assert(views(s.push(x)) =~= views(s).push(x@));
}

/// Everything in a file that can be referenced, in this order: the file,
/// its headings, indexed blocks, tags, footnotes, link reference
/// definitions, MyST anchors, glossary terms, labelled math directives and
/// substitution definitions.
pub open spec fn file_referenceables(f: MDFile) -> Seq<ReferenceableView> {
    let p = f.path@;
    seq![ReferenceableView::File(p, f)] + f.headings@.map_values(heading_of(p))
        + f.indexed_blocks@.map_values(block_of(p)) + f.tags@.map_values(tag_of(p))
        + f.footnotes@.map_values(footnote_of(p)) + f.link_reference_definitions@.map_values(
        link_def_of(p),
    ) + f.myst_symbols@.filter(anchor_pred()).map_values(anchor_of(p))
        + f.glossary_terms@.map_values(term_of(p)) + f.myst_symbols@.filter(
        math_pred(),
    ).map_values(math_of(p)) + f.substitution_defs@.map_values(subst_of(p))
}

pub open spec fn views<'a>(v: Seq<Referenceable<'a>>) -> Seq<ReferenceableView> {
    v.map_values(|r: Referenceable<'a>| r@)
}

impl MDFile {
    /// Everything in this file that can be referenced.
    pub fn get_referenceables(&self) -> (r: Vec<Referenceable<'_>>)
        ensures
            views(r@) == file_referenceables(*self),
    {
        let p = &self.path;
        let mut out: Vec<Referenceable> = Vec::new();
        out.push(Referenceable::File(p, self));
        let ghost mut acc: Seq<ReferenceableView> = seq![ReferenceableView::File(p@, *self)];
        assert(views(out@) =~= acc);

        let mut i: usize = 0;
        while i < self.headings.len()
            invariant
                i <= self.headings.len(),
                views(out@) == acc + self.headings@.subrange(0, i as int).map_values(heading_of(p@)),
            decreases self.headings.len() - i,
        {
            proof {
                lemma_extend(acc, self.headings@, i as int, heading_of(p@));
                lemma_views_push(out@, Referenceable::Heading(p, &self.headings[i as int]));
            }
            out.push(Referenceable::Heading(p, &self.headings[i]));
            i += 1;
        }
        assert(self.headings@.subrange(0, i as int) =~= self.headings@);
        proof {
            acc = acc + self.headings@.map_values(heading_of(p@));
        }

        let mut i: usize = 0;
        while i < self.indexed_blocks.len()
            invariant
                i <= self.indexed_blocks.len(),
                views(out@) == acc + self.indexed_blocks@.subrange(0, i as int).map_values(block_of(p@)),
            decreases self.indexed_blocks.len() - i,
        {
            proof {
                lemma_extend(acc, self.indexed_blocks@, i as int, block_of(p@));
                lemma_views_push(out@, Referenceable::IndexedBlock(p, &self.indexed_blocks[i as int]));
            }
            out.push(Referenceable::IndexedBlock(p, &self.indexed_blocks[i]));
            i += 1;
        }
        assert(self.indexed_blocks@.subrange(0, i as int) =~= self.indexed_blocks@);
        proof {
            acc = acc + self.indexed_blocks@.map_values(block_of(p@));
        }

        let mut i: usize = 0;
        while i < self.tags.len()
            invariant
                i <= self.tags.len(),
                views(out@) == acc + self.tags@.subrange(0, i as int).map_values(tag_of(p@)),
            decreases self.tags.len() - i,
        {
            proof {
                lemma_extend(acc, self.tags@, i as int, tag_of(p@));
                lemma_views_push(out@, Referenceable::Tag(p, &self.tags[i as int]));
            }
            out.push(Referenceable::Tag(p, &self.tags[i]));
            i += 1;
        }
        assert(self.tags@.subrange(0, i as int) =~= self.tags@);
        proof {
            acc = acc + self.tags@.map_values(tag_of(p@));
        }

        let mut i: usize = 0;
        while i < self.footnotes.len()
            invariant
                i <= self.footnotes.len(),
                views(out@) == acc + self.footnotes@.subrange(0, i as int).map_values(footnote_of(p@)),
            decreases self.footnotes.len() - i,
        {
            proof {
                lemma_extend(acc, self.footnotes@, i as int, footnote_of(p@));
                lemma_views_push(out@, Referenceable::Footnote(p, &self.footnotes[i as int]));
            }
            out.push(Referenceable::Footnote(p, &self.footnotes[i]));
            i += 1;
        }
        assert(self.footnotes@.subrange(0, i as int) =~= self.footnotes@);
        proof {
            acc = acc + self.footnotes@.map_values(footnote_of(p@));
        }

        let mut i: usize = 0;
        while i < self.link_reference_definitions.len()
            invariant
                i <= self.link_reference_definitions.len(),
                views(out@) == acc + self.link_reference_definitions@.subrange(0, i as int).map_values(link_def_of(p@)),
            decreases self.link_reference_definitions.len() - i,
        {
            proof {
                lemma_extend(acc, self.link_reference_definitions@, i as int, link_def_of(p@));
                lemma_views_push(out@, Referenceable::LinkRefDef(p, &self.link_reference_definitions[i as int]));
            }
            out.push(Referenceable::LinkRefDef(p, &self.link_reference_definitions[i]));
            i += 1;
        }
        assert(self.link_reference_definitions@.subrange(0, i as int) =~= self.link_reference_definitions@);
        proof {
            acc = acc + self.link_reference_definitions@.map_values(link_def_of(p@));
        }

        let mut i: usize = 0;
        while i < self.myst_symbols.len()
            invariant
                i <= self.myst_symbols.len(),
                views(out@) == acc + self.myst_symbols@.subrange(0, i as int).filter(anchor_pred()).map_values(
                    anchor_of(p@),
                ),
            decreases self.myst_symbols.len() - i,
        {
            proof {
                lemma_extend_filter(acc, self.myst_symbols@, i as int, anchor_pred(), anchor_of(p@));
                lemma_views_push(out@, Referenceable::MystAnchor(p, &self.myst_symbols[i as int]));
            }
            let sym = &self.myst_symbols[i];
            if sym.kind == MystSymbolKind::Anchor {
                out.push(Referenceable::MystAnchor(p, sym));
            }
            i += 1;
        }
        assert(self.myst_symbols@.subrange(0, i as int) =~= self.myst_symbols@);
        proof {
            acc = acc + self.myst_symbols@.filter(anchor_pred()).map_values(anchor_of(p@));
        }

        let mut i: usize = 0;
        while i < self.glossary_terms.len()
            invariant
                i <= self.glossary_terms.len(),
                views(out@) == acc + self.glossary_terms@.subrange(0, i as int).map_values(term_of(p@)),
            decreases self.glossary_terms.len() - i,
        {
            proof {
                lemma_extend(acc, self.glossary_terms@, i as int, term_of(p@));
                lemma_views_push(out@, Referenceable::GlossaryTerm(p, &self.glossary_terms[i as int]));
            }
            out.push(Referenceable::GlossaryTerm(p, &self.glossary_terms[i]));
            i += 1;
        }
        assert(self.glossary_terms@.subrange(0, i as int) =~= self.glossary_terms@);
        proof {
            acc = acc + self.glossary_terms@.map_values(term_of(p@));
        }

        let mut i: usize = 0;
        while i < self.myst_symbols.len()
            invariant
                i <= self.myst_symbols.len(),
                views(out@) == acc + self.myst_symbols@.subrange(0, i as int).filter(math_pred()).map_values(
                    math_of(p@),
                ),
            decreases self.myst_symbols.len() - i,
        {
            proof {
                lemma_extend_filter(acc, self.myst_symbols@, i as int, math_pred(), math_of(p@));
                lemma_views_push(out@, Referenceable::MathLabel(p, &self.myst_symbols[i as int]));
            }
            let sym = &self.myst_symbols[i];
            let is_math = crate::text::str_eq(sym.name.as_str(), "math");
            if sym.kind == MystSymbolKind::Directive && is_math && sym.label.is_some() {
                out.push(Referenceable::MathLabel(p, sym));
            }
            i += 1;
        }
        assert(self.myst_symbols@.subrange(0, i as int) =~= self.myst_symbols@);
        proof {
            acc = acc + self.myst_symbols@.filter(math_pred()).map_values(math_of(p@));
        }

        let mut i: usize = 0;
        while i < self.substitution_defs.len()
            invariant
                i <= self.substitution_defs.len(),
                views(out@) == acc + self.substitution_defs@.subrange(0, i as int).map_values(subst_of(p@)),
            decreases self.substitution_defs.len() - i,
        {
            proof {
                lemma_extend(acc, self.substitution_defs@, i as int, subst_of(p@));
                lemma_views_push(out@, Referenceable::SubstitutionDef(p, &self.substitution_defs[i as int]));
            }
            out.push(Referenceable::SubstitutionDef(p, &self.substitution_defs[i]));
            i += 1;
        }
        assert(self.substitution_defs@.subrange(0, i as int) =~= self.substitution_defs@);
        proof {
            acc = acc + self.substitution_defs@.map_values(subst_of(p@));
        }
        assert(views(out@) == file_referenceables(*self));
        out
    }
}

} // verus!

verus! {

/// No code block covers the range.
pub open spec fn outside_blocks(cbs: Seq<MDCodeBlock>, r: Range) -> bool {
    forall|k: int| 0 <= k < cbs.len() ==> !range_includes(#[trigger] cbs[k].range.0, r)
}

/// Items that no code block covers.
pub open spec fn outside_pred<T: Rangeable>(cbs: Seq<MDCodeBlock>) -> spec_fn(T) -> bool {
    |t: T| outside_blocks(cbs, t.spec_range())
}

fn in_any_block(cbs: &Vec<MDCodeBlock>, r: &MyRange) -> (b: bool)
    ensures
        b == !outside_blocks(cbs@, r.0),
{
    let mut k: usize = 0;
    while k < cbs.len()
        invariant
            k <= cbs.len(),
            forall|j: int| 0 <= j < k ==> !range_includes(#[trigger] cbs@[j].range.0, r.0),
        decreases cbs.len() - k,
    {
        if includes(&cbs[k].range, r) {
            return true;
        }
        k += 1;
    }
    false
}

/// The items that no code block covers, in order.
pub fn keep_outside_blocks<T: Rangeable>(items: Vec<T>, cbs: &Vec<MDCodeBlock>) -> (r: Vec<T>)
    ensures
        r@ == items@.filter(outside_pred::<T>(cbs@)),
{
    let ghost all = items@;
    let ghost pred = outside_pred::<T>(cbs@);
    let mut items = items;
    let mut out: Vec<T> = Vec::new();
    let ghost mut i: int = 0;
    assert(all.subrange(0, 0).filter(pred) =~= Seq::<T>::empty()) by {
        reveal_with_fuel(Seq::filter, 1);
    }
    assert(all.subrange(0, all.len() as int) =~= all);
    while items.len() > 0
        invariant
            0 <= i <= all.len(),
            items@ == all.subrange(i, all.len() as int),
            pred == outside_pred::<T>(cbs@),
            out@ == all.subrange(0, i).filter(pred),
        decreases items.len(),
    {
        let item = items.remove(0);
        assert(item == all[i]);
        proof {
            assert(all.subrange(0, i + 1).drop_last() =~= all.subrange(0, i));
            assert(all.subrange(0, i + 1).last() == all[i]);
            reveal_with_fuel(Seq::filter, 1);
        }
        let covered = in_any_block(cbs, item.range());
        if !covered {
            out.push(item);
        }
        proof {
            i = i + 1;
            assert(items@ =~= all.subrange(i, all.len() as int));
        }
        assert(out@ =~= all.subrange(0, i).filter(pred));
    }
    assert(all.subrange(0, i) =~= all);
    out
}

/// Filtering commutes with mapping when the predicate reads the image.
pub proof fn lemma_filter_map<T, V>(s: Seq<T>, p: spec_fn(T) -> bool, f: spec_fn(T) -> V, q: spec_fn(V) -> bool)
    requires
        forall|t: T| #[trigger] p(t) == q(f(t)),
    ensures
        s.filter(p).map_values(f) == s.map_values(f).filter(q),
    decreases s.len(),
{
    reveal_with_fuel(Seq::filter, 1);
    if s.len() > 0 {
        lemma_filter_map(s.drop_last(), p, f, q);
        assert(s.map_values(f).drop_last() =~= s.drop_last().map_values(f));
        assert(s.map_values(f).last() == f(s.last()));
        if p(s.last()) {
            assert(s.filter(p).map_values(f) =~= s.drop_last().filter(p).map_values(f).push(f(s.last())));
        } else {
            assert(s.filter(p).map_values(f) =~= s.drop_last().filter(p).map_values(f));
        }
    } else {
        assert(s.filter(p).map_values(f) =~= s.map_values(f).filter(q));
    }
}

} // verus!

verus! {

pub open spec fn ref_outside(cbs: Seq<MDCodeBlock>) -> spec_fn(ReferenceView) -> bool {
    |v: ReferenceView| outside_blocks(cbs, view_data(v).range)
}

pub open spec fn heading_outside(cbs: Seq<MDCodeBlock>) -> spec_fn((Seq<char>, Range, usize)) -> bool {
    |h: (Seq<char>, Range, usize)| outside_blocks(cbs, h.1)
}

pub open spec fn block_outside(cbs: Seq<MDCodeBlock>) -> spec_fn((Seq<char>, Range)) -> bool {
    |b: (Seq<char>, Range)| outside_blocks(cbs, b.1)
}

pub open spec fn footnote_outside(cbs: Seq<MDCodeBlock>) -> spec_fn((Seq<char>, Seq<char>, Range)) -> bool {
    |f: (Seq<char>, Seq<char>, Range)| outside_blocks(cbs, f.2)
}

pub open spec fn link_def_outside(cbs: Seq<MDCodeBlock>) -> spec_fn(
    (Seq<char>, Range, Seq<char>, Option<Seq<char>>),
) -> bool {
    |d: (Seq<char>, Range, Seq<char>, Option<Seq<char>>)| outside_blocks(cbs, d.1)
}

/// Substitution definitions as plain values.
pub open spec fn subst_views(v: Seq<MDSubstitutionDef>) -> Seq<(Seq<char>, Seq<char>)> {
    v.map_values(|d: MDSubstitutionDef| (d.name@, d.value@))
}

/// The substitution definitions of the metadata, in its order.
pub open spec fn metadata_substitutions(m: Option<MDMetadata>) -> Seq<(Seq<char>, Seq<char>)> {
    match m {
        Some(md) => pair_views(md.substitutions@),
        None => Seq::empty(),
    }
}

fn substitution_defs_of(metadata: &Option<MDMetadata>) -> (r: Vec<MDSubstitutionDef>)
    ensures
        subst_views(r@) == metadata_substitutions(*metadata),
{
    let mut out: Vec<MDSubstitutionDef> = Vec::new();
    match metadata {
        Some(m) => {
            let subs = m.substitutions();
            let mut i: usize = 0;
            while i < subs.len()
                invariant
                    i <= subs.len(),
                    subs@ == m.substitutions@,
                    subst_views(out@) == pair_views(subs@).subrange(0, i as int),
                decreases subs.len() - i,
            {
                let name = subs[i].0.clone();
                let value = subs[i].1.clone();
                assert(name@ == subs@[i as int].0@ && value@ == subs@[i as int].1@);
                let ghost before = subst_views(out@);
                out.push(MDSubstitutionDef { name, value });
                assert(subst_views(out@) =~= before.push((subs@[i as int].0@, subs@[i as int].1@)));
                assert(subst_views(out@) =~= pair_views(subs@).subrange(0, i + 1));
                i += 1;
            }
            assert(pair_views(subs@).subrange(0, i as int) =~= pair_views(subs@));
        },
        None => {
            assert(subst_views(out@) =~= Seq::<(Seq<char>, Seq<char>)>::empty());
        },
    }
    out
}

/// `f` is the parse of the document `text` (of `nbytes` UTF-8 bytes) at
/// `path`, with the given settings and frontmatter metadata: its fenced
/// code blocks are those of the text, and the items that lie inside one are
/// left out.
pub open spec fn parsed_file(
    f: MDFile,
    settings: Settings,
    text: Seq<char>,
    nbytes: nat,
    path: Seq<char>,
    metadata: Option<MDMetadata>,
) -> bool {
    let code_blocks = f.codeblocks@;
    &&& f.path@ == path
    &&& code_blocks.map_values(|b: MDCodeBlock| b.range.0) == spec_code_blocks(text)
    &&& f.metadata == metadata
    &&& symbol_views(f.myst_symbols@) == spec_parse(text)
    &&& term_views(f.glossary_terms@) == spec_glossary_terms(text)
    &&& ref_views(f.references@) == if settings.references_in_codeblocks {
        spec_extract_references(text, nbytes)
    } else {
        spec_extract_references(text, nbytes).filter(ref_outside(code_blocks))
    }
    &&& f.headings@.map_values(|h: MDHeading| heading_view(h)) == spec_headings(text).filter(
        heading_outside(code_blocks),
    )
    &&& f.footnotes@.map_values(|x: MDFootnote| footnote_view(x)) == spec_footnotes(text).filter(
        footnote_outside(code_blocks),
    )
    &&& f.link_reference_definitions@.map_values(|d: MDLinkReferenceDefinition| link_def_view(d))
        == spec_link_defs(text).filter(link_def_outside(code_blocks))
    &&& f.indexed_blocks@.map_values(|b: MDIndexedBlock| block_view(b)) == spec_indexed_blocks(
        text,
    ).filter(block_outside(code_blocks))
    &&& f.tags@.map_values(|t: MDTag| tag_view(t)) == if settings.tags_in_codeblocks {
        spec_tags(text)
    } else {
        spec_tags(text).filter(block_outside(code_blocks))
    }
    &&& subst_views(f.substitution_defs@) == metadata_substitutions(metadata)
}

/// No heading, footnote, link reference definition or indexed block of a
/// parsed document lies inside one of its code blocks; neither do its
/// references and tags, unless the settings keep those.
pub proof fn lemma_parsed_items_outside_code(
    f: MDFile,
    settings: Settings,
    text: Seq<char>,
    nbytes: nat,
    path: Seq<char>,
    metadata: Option<MDMetadata>,
)
    requires
        parsed_file(f, settings, text, nbytes, path, metadata),
    ensures
        forall|i: int|
            0 <= i < f.headings@.len() ==> outside_blocks(f.codeblocks@, #[trigger] f.headings@[i].range.0),
        forall|i: int|
            0 <= i < f.footnotes@.len() ==> outside_blocks(f.codeblocks@, #[trigger] f.footnotes@[i].range.0),
        forall|i: int|
            0 <= i < f.link_reference_definitions@.len() ==> outside_blocks(
                f.codeblocks@,
                #[trigger] f.link_reference_definitions@[i].range.0,
            ),
        forall|i: int|
            0 <= i < f.indexed_blocks@.len() ==> outside_blocks(
                f.codeblocks@,
                #[trigger] f.indexed_blocks@[i].range.0,
            ),
        !settings.tags_in_codeblocks ==> forall|i: int|
            0 <= i < f.tags@.len() ==> outside_blocks(f.codeblocks@, #[trigger] f.tags@[i].range.0),
        !settings.references_in_codeblocks ==> forall|i: int|
            0 <= i < f.references@.len() ==> outside_blocks(
                f.codeblocks@,
                view_data(#[trigger] f.references@[i]@).range,
            ),
{
    broadcast use vstd::seq_lib::group_filter_ensures;

    let cbs = f.codeblocks@;
    assert forall|i: int| 0 <= i < f.headings@.len() implies outside_blocks(
        cbs,
        #[trigger] f.headings@[i].range.0,
    ) by {
        let v = f.headings@.map_values(|h: MDHeading| heading_view(h));
        assert(v[i] == heading_view(f.headings@[i]));
        assert(heading_outside(cbs)(spec_headings(text).filter(heading_outside(cbs))[i]));
    }
    assert forall|i: int| 0 <= i < f.footnotes@.len() implies outside_blocks(
        cbs,
        #[trigger] f.footnotes@[i].range.0,
    ) by {
        let v = f.footnotes@.map_values(|x: MDFootnote| footnote_view(x));
        assert(v[i] == footnote_view(f.footnotes@[i]));
        assert(footnote_outside(cbs)(spec_footnotes(text).filter(footnote_outside(cbs))[i]));
    }
    assert forall|i: int| 0 <= i < f.link_reference_definitions@.len() implies outside_blocks(
        cbs,
        #[trigger] f.link_reference_definitions@[i].range.0,
    ) by {
        let v = f.link_reference_definitions@.map_values(|d: MDLinkReferenceDefinition| link_def_view(d));
        assert(v[i] == link_def_view(f.link_reference_definitions@[i]));
        assert(link_def_outside(cbs)(spec_link_defs(text).filter(link_def_outside(cbs))[i]));
    }
    assert forall|i: int| 0 <= i < f.indexed_blocks@.len() implies outside_blocks(
        cbs,
        #[trigger] f.indexed_blocks@[i].range.0,
    ) by {
        let v = f.indexed_blocks@.map_values(|b: MDIndexedBlock| block_view(b));
        assert(v[i] == block_view(f.indexed_blocks@[i]));
        assert(block_outside(cbs)(spec_indexed_blocks(text).filter(block_outside(cbs))[i]));
    }
    if !settings.tags_in_codeblocks {
        assert forall|i: int| 0 <= i < f.tags@.len() implies outside_blocks(
            cbs,
            #[trigger] f.tags@[i].range.0,
        ) by {
            let v = f.tags@.map_values(|t: MDTag| tag_view(t));
            assert(v[i] == tag_view(f.tags@[i]));
            assert(block_outside(cbs)(spec_tags(text).filter(block_outside(cbs))[i]));
        }
    }
    if !settings.references_in_codeblocks {
        assert forall|i: int| 0 <= i < f.references@.len() implies outside_blocks(
            cbs,
            view_data(#[trigger] f.references@[i]@).range,
        ) by {
            assert(ref_views(f.references@)[i] == f.references@[i]@);
            assert(ref_outside(cbs)(
                spec_extract_references(text, nbytes).filter(ref_outside(cbs))[i],
            ));
        }
    }
}

impl MDFile {
    /// Parses a document at `path` whose frontmatter metadata is `metadata`:
    /// its fenced code blocks, its MyST symbols and glossary terms, and its
    /// references, headings, footnotes,
    /// link reference definitions, indexed blocks and tags, leaving out
    /// those inside a code block (references and tags only when the
    /// settings say so). Its substitution definitions are the metadata's.
    pub fn new(
        settings: &Settings,
        text: &str,
        path: String,
        metadata: Option<MDMetadata>,
    ) -> (r: MDFile)
        requires
            path_file_stem(path@) is Some,
        ensures
            parsed_file(r, *settings, text@, text.len() as nat, path@, metadata),
    {
        let code_blocks = MDCodeBlock::new(text);
        let ghost cbs = code_blocks@;
        let myst_symbols = parse(text);
        let glossary_terms = parse_glossary_terms(text);
        let all_refs = Reference::new(text, "");
        let references = if settings.references_in_codeblocks {
            all_refs
        } else {
            let kept = keep_outside_blocks(all_refs, &code_blocks);
            proof {
                lemma_filter_map(
                    all_refs@,
                    outside_pred::<Reference>(cbs),
                    |r: Reference| r@,
                    ref_outside(cbs),
                );
            }
            kept
        };
        let all_headings = MDHeading::new(text);
        let headings = keep_outside_blocks(all_headings, &code_blocks);
        proof {
            lemma_filter_map(
                all_headings@,
                outside_pred::<MDHeading>(cbs),
                |h: MDHeading| heading_view(h),
                heading_outside(cbs),
            );
        }
        let all_footnotes = MDFootnote::new(text);
        let footnotes = keep_outside_blocks(all_footnotes, &code_blocks);
        proof {
            lemma_filter_map(
                all_footnotes@,
                outside_pred::<MDFootnote>(cbs),
                |f: MDFootnote| footnote_view(f),
                footnote_outside(cbs),
            );
        }
        let all_link_refs = MDLinkReferenceDefinition::new(text);
        let link_refs = keep_outside_blocks(all_link_refs, &code_blocks);
        proof {
            lemma_filter_map(
                all_link_refs@,
                outside_pred::<MDLinkReferenceDefinition>(cbs),
                |d: MDLinkReferenceDefinition| link_def_view(d),
                link_def_outside(cbs),
            );
        }
        let all_blocks = MDIndexedBlock::new(text);
        let indexed_blocks = keep_outside_blocks(all_blocks, &code_blocks);
        proof {
            lemma_filter_map(
                all_blocks@,
                outside_pred::<MDIndexedBlock>(cbs),
                |b: MDIndexedBlock| block_view(b),
                block_outside(cbs),
            );
        }
        let all_tags = MDTag::new(text);
        let tags = if settings.tags_in_codeblocks {
            all_tags
        } else {
            let kept = keep_outside_blocks(all_tags, &code_blocks);
            proof {
                lemma_filter_map(
                    all_tags@,
                    outside_pred::<MDTag>(cbs),
                    |t: MDTag| tag_view(t),
                    block_outside(cbs),
                );
            }
            kept
        };
        let substitution_defs = substitution_defs_of(&metadata);
        MDFile {
            references,
            headings,
            indexed_blocks,
            tags,
            footnotes,
            path,
            link_reference_definitions: link_refs,
            metadata,
            codeblocks: code_blocks,
            myst_symbols,
            glossary_terms,
            substitution_defs,
        }
    }

    /// Parses a document like `new`, if its path has a file stem (as every
    /// Markdown file's path has); `None` otherwise.
    pub fn try_new(
        settings: &Settings,
        text: &str,
        path: String,
        metadata: Option<MDMetadata>,
    ) -> (r: Option<MDFile>)
        ensures
            path_file_stem(path@) is None ==> r is None,
            path_file_stem(path@) is Some ==> r is Some,
            r matches Some(f) ==> parsed_file(
                f,
                *settings,
                text@,
                text.len() as nat,
                path@,
                metadata,
            ),
    {
        match file_stem(path.as_str()) {
            Some(_) => Some(MDFile::new(settings, text, path, metadata)),
            None => None,
        }
    }

    /// The file's name without extension.
    pub fn file_name(&self) -> (r: Option<String>)
        ensures
            opt_view(r) == path_file_stem(self.path@),
    {
        file_stem(self.path.as_str())
    }
}

} // verus!
