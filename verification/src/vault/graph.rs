//! The vault as a graph: each document a node, and the relationships
//! between documents (references, toctree entries, includes) as edges.
//! These are the node and edge types, for a graph such as
//! `petgraph::DiGraph<DocumentNode, EdgeKind>` to hold.

use vstd::prelude::*;

use super::file::MDFile;
use super::metadata::MDMetadata;
use super::paths::{file_stem, path_file_stem};
use super::helpers::opt_view;
use super::reference::{Reference, ReferenceData};
use super::types::{
    MDCodeBlock, MDFootnote, MDHeading, MDIndexedBlock, MDLinkReferenceDefinition,
    MDSubstitutionDef, MDTag,
};
use crate::myst_parser::{GlossaryTerm, MystSymbol};

verus! {

/// A parsed Markdown document stored as a graph node: the contents of an
/// `MDFile`.
#[derive(Debug, Clone, PartialEq, Eq)]
pub struct DocumentNode {
    /// Absolute path to the Markdown file
    pub path: String,
    /// All references in this file (links, tags, footnotes, etc.)
    pub references: Vec<Reference>,
    /// Parsed headings (# Title, ## Section, etc.)
    pub headings: Vec<MDHeading>,
    /// Indexed blocks (^block-id)
    pub indexed_blocks: Vec<MDIndexedBlock>,
    /// Tag references (#topic, #project/subtopic)
    pub tags: Vec<MDTag>,
    /// Footnote definitions ([^1]: footnote text)
    pub footnotes: Vec<MDFootnote>,
    /// Link reference definitions ([label]: url)
    pub link_reference_definitions: Vec<MDLinkReferenceDefinition>,
    /// Parsed frontmatter metadata
    pub metadata: Option<MDMetadata>,
    /// Code blocks (```lang ... ```)
    pub codeblocks: Vec<MDCodeBlock>,
    /// MyST symbols (directives, anchors)
    pub myst_symbols: Vec<MystSymbol>,
    /// Glossary terms from {glossary} directives
    pub glossary_terms: Vec<GlossaryTerm>,
    /// Substitution definitions from frontmatter
    pub substitution_defs: Vec<MDSubstitutionDef>,
}

impl Default for DocumentNode {
    fn default() -> (r: DocumentNode)
        ensures
            r.path@.len() == 0,
            r.references@.len() == 0,
            r.headings@.len() == 0,
            r.indexed_blocks@.len() == 0,
            r.tags@.len() == 0,
            r.footnotes@.len() == 0,
            r.link_reference_definitions@.len() == 0,
            r.metadata is None,
            r.codeblocks@.len() == 0,
            r.myst_symbols@.len() == 0,
            r.glossary_terms@.len() == 0,
            r.substitution_defs@.len() == 0,
    {
        DocumentNode {
            path: String::new(),
            references: Vec::new(),
            headings: Vec::new(),
            indexed_blocks: Vec::new(),
            tags: Vec::new(),
            footnotes: Vec::new(),
            link_reference_definitions: Vec::new(),
            metadata: None,
            codeblocks: Vec::new(),
            myst_symbols: Vec::new(),
            glossary_terms: Vec::new(),
            substitution_defs: Vec::new(),
        }
    }
}


fn copy_string(s: &String) -> (r: String)
    ensures
        r == *s,
{
    s.clone()
}

fn copy_opt_string(s: &Option<String>) -> (r: Option<String>)
    ensures
        r == *s,
{
    match s {
        Some(t) => Some(t.clone()),
        None => None,
    }
}

fn copy_pair(p: &(String, String)) -> (r: (String, String))
    ensures
        r == *p,
{
    (p.0.clone(), p.1.clone())
}

/// A copy of every item of `v`, by `f`, which copies one item.
fn copy_vec<T, F: Fn(&T) -> T>(v: &Vec<T>, f: F) -> (r: Vec<T>)
    requires
        forall|x: &T| #[trigger] f.requires((x,)),
        forall|x: &T, y: T| f.ensures((x,), y) ==> y == *x,
    ensures
        r@ == v@,
{
    let mut out: Vec<T> = Vec::new();
    let mut i: usize = 0;
    while i < v.len()
        invariant
            i <= v.len(),
            forall|x: &T| #[trigger] f.requires((x,)),
            forall|x: &T, y: T| f.ensures((x,), y) ==> y == *x,
            out@ == v@.subrange(0, i as int),
        decreases v.len() - i,
    {
        let y = f(&v[i]);
        out.push(y);
        assert(out@ =~= v@.subrange(0, i + 1));
        i += 1;
    }
    assert(v@.subrange(0, i as int) =~= v@);
    out
}

fn copy_data(d: &ReferenceData) -> (r: ReferenceData)
    ensures
        r == *d,
{
    ReferenceData {
        reference_text: d.reference_text.clone(),
        display_text: copy_opt_string(&d.display_text),
        range: d.range,
    }
}

fn copy_reference(r: &Reference) -> (c: Reference)
    ensures
        c == *r,
{
    match r {
        Reference::Tag(d) => Reference::Tag(copy_data(d)),
        Reference::MDFileLink(d) => Reference::MDFileLink(copy_data(d)),
        Reference::MDHeadingLink(d, f, h) => Reference::MDHeadingLink(copy_data(d), f.clone(), h.clone()),
        Reference::MDIndexedBlockLink(d, f, b) => Reference::MDIndexedBlockLink(
            copy_data(d),
            f.clone(),
            b.clone(),
        ),
        Reference::Footnote(d) => Reference::Footnote(copy_data(d)),
        Reference::LinkRef(d) => Reference::LinkRef(copy_data(d)),
        Reference::MystRole(d, k, t) => Reference::MystRole(copy_data(d), *k, t.clone()),
        Reference::ImageLink(d) => Reference::ImageLink(copy_data(d)),
        Reference::Substitution(d) => Reference::Substitution(copy_data(d)),
    }
}

fn copy_heading(h: &MDHeading) -> (r: MDHeading)
    ensures
        r == *h,
{
    MDHeading { heading_text: h.heading_text.clone(), range: h.range, level: h.level }
}

fn copy_block(b: &MDIndexedBlock) -> (r: MDIndexedBlock)
    ensures
        r == *b,
{
    MDIndexedBlock { index: b.index.clone(), range: b.range }
}

fn copy_tag(t: &MDTag) -> (r: MDTag)
    ensures
        r == *t,
{
    MDTag { tag_ref: t.tag_ref.clone(), range: t.range }
}

fn copy_footnote(f: &MDFootnote) -> (r: MDFootnote)
    ensures
        r == *f,
{
    MDFootnote { index: f.index.clone(), footnote_text: f.footnote_text.clone(), range: f.range }
}

fn copy_link_def(d: &MDLinkReferenceDefinition) -> (r: MDLinkReferenceDefinition)
    ensures
        r == *d,
{
    MDLinkReferenceDefinition {
        link_ref_name: d.link_ref_name.clone(),
        range: d.range,
        url: d.url.clone(),
        title: copy_opt_string(&d.title),
    }
}

fn copy_code_block(b: &MDCodeBlock) -> (r: MDCodeBlock)
    ensures
        r == *b,
{
    MDCodeBlock { range: b.range }
}

fn copy_symbol(s: &MystSymbol) -> (r: MystSymbol)
    ensures
        r == *s,
{
    MystSymbol {
        kind: s.kind,
        name: s.name.clone(),
        line: s.line,
        range: s.range,
        label: copy_opt_string(&s.label),
    }
}

fn copy_term(t: &GlossaryTerm) -> (r: GlossaryTerm)
    ensures
        r == *t,
{
    GlossaryTerm { term: t.term.clone(), definition: t.definition.clone(), range: t.range }
}

fn copy_substitution(d: &MDSubstitutionDef) -> (r: MDSubstitutionDef)
    ensures
        r == *d,
{
    MDSubstitutionDef { name: d.name.clone(), value: d.value.clone() }
}

/// Two metadata hold the same aliases and substitutions.
pub open spec fn same_metadata(a: Option<MDMetadata>, b: Option<MDMetadata>) -> bool {
    match (a, b) {
        (Some(x), Some(y)) => x.aliases@ == y.aliases@ && x.substitutions@ == y.substitutions@,
        (None, None) => true,
        _ => false,
    }
}

fn copy_metadata(m: &MDMetadata) -> (r: MDMetadata)
    ensures
        same_metadata(Some(r), Some(*m)),
{
    MDMetadata {
        aliases: copy_vec(&m.aliases, copy_string),
        substitutions: copy_vec(&m.substitutions, copy_pair),
    }
}

impl DocumentNode {
    /// The document node of a file: a copy of all its contents.
    pub fn from(file: &MDFile) -> (r: DocumentNode)
        ensures
            r.path == file.path,
            r.references@ == file.references@,
            r.headings@ == file.headings@,
            r.indexed_blocks@ == file.indexed_blocks@,
            r.tags@ == file.tags@,
            r.footnotes@ == file.footnotes@,
            r.link_reference_definitions@ == file.link_reference_definitions@,
            same_metadata(r.metadata, file.metadata),
            r.codeblocks@ == file.codeblocks@,
            r.myst_symbols@ == file.myst_symbols@,
            r.glossary_terms@ == file.glossary_terms@,
            r.substitution_defs@ == file.substitution_defs@,
    {
        DocumentNode {
            path: file.path.clone(),
            references: copy_vec(&file.references, copy_reference),
            headings: copy_vec(&file.headings, copy_heading),
            indexed_blocks: copy_vec(&file.indexed_blocks, copy_block),
            tags: copy_vec(&file.tags, copy_tag),
            footnotes: copy_vec(&file.footnotes, copy_footnote),
            link_reference_definitions: copy_vec(&file.link_reference_definitions, copy_link_def),
            metadata: match &file.metadata {
                Some(m) => Some(copy_metadata(m)),
                None => None,
            },
            codeblocks: copy_vec(&file.codeblocks, copy_code_block),
            myst_symbols: copy_vec(&file.myst_symbols, copy_symbol),
            glossary_terms: copy_vec(&file.glossary_terms, copy_term),
            substitution_defs: copy_vec(&file.substitution_defs, copy_substitution),
        }
    }

    /// Returns the file name (stem) without extension.
    pub fn file_name(&self) -> (r: Option<String>)
        ensures
            opt_view(r) == path_file_stem(self.path@),
    {
        file_stem(self.path.as_str())
    }
}

/// Edge data representing relationships between documents.
#[derive(Debug, Clone, PartialEq, Eq)]
pub enum EdgeKind {
    /// Reference edge: links, roles, footnotes
    Reference { reference: Reference, source_path: String },
    /// Structural edge: toctree parent-child
    Toctree { caption: Option<String> },
    /// Transclusion edge: include directive
    Include,
}

} // verus!
