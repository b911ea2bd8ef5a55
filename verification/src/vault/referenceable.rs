//! Referenceables: anything that a Markdown link, a MyST role, a tag or a
//! substitution can point at, and the rules that decide whether a reference
//! points at one.

use vstd::prelude::*;

use super::file::MDFile;
use super::helpers::{
    get_obsidian_ref_path, opt_view, spec_link_file_key, spec_obsidian_ref_path, Refname,
    RefnameView,
};
use super::paths::{file_stem, is_absolute, path_file_stem, path_is_absolute, path_with_extension,
    path_with_file_name, with_extension, with_file_name, path_equal, same_path};
use super::reference::{
    view_data, MystRoleKind, Reference, ReferenceData, ReferenceDataView, ReferenceView,
};
use super::types::{
    MDFootnote, MDHeading, MDIndexedBlock, MDLinkReferenceDefinition, MDSubstitutionDef, MDTag,
    MyRange, Range,
};
use crate::myst_parser::{GlossaryTerm, MystSymbol};
use crate::text::{
    chars_of, concat, concat3, eq_ignore_case, lemma_after_last_no_sep, lowercase, replace_all,
    replace_first, starts_with, str_contains_char, str_eq, str_replace_all, str_replace_first,
    string_of, sub_vec, vec_starts_with,
};

verus! {

/// Anything able to be referenced through a Markdown link, a MyST role, a tag
/// or a substitution. Each variant holds the path of the file it belongs to.
#[derive(Debug, Clone, Eq, PartialEq)]
pub enum Referenceable<'a> {
    File(&'a String, &'a MDFile),
    Heading(&'a String, &'a MDHeading),
    IndexedBlock(&'a String, &'a MDIndexedBlock),
    Tag(&'a String, &'a MDTag),
    Footnote(&'a String, &'a MDFootnote),
    /// full path, link path
    UnresolvedFile(String, &'a String),
    /// full path, link path, heading
    UnresolvedHeading(String, &'a String, &'a String),
    /// full path, link path, index (without ^)
    UnresolvedIndexedBlock(String, &'a String, &'a String),
    LinkRefDef(&'a String, &'a MDLinkReferenceDefinition),
    /// MyST anchor target: `(my-target)=`
    MystAnchor(&'a String, &'a MystSymbol),
    /// Glossary term: referenced via {term}`term`
    GlossaryTerm(&'a String, &'a GlossaryTerm),
    /// Math equation label: referenced via {eq}`label`
    MathLabel(&'a String, &'a MystSymbol),
    /// Substitution definition from frontmatter: {{variable}}
    SubstitutionDef(&'a String, &'a MDSubstitutionDef),
}

/// A referenceable with its paths and names as sequences.
pub enum ReferenceableView {
    File(Seq<char>, MDFile),
    Heading(Seq<char>, MDHeading),
    IndexedBlock(Seq<char>, MDIndexedBlock),
    Tag(Seq<char>, MDTag),
    Footnote(Seq<char>, MDFootnote),
    UnresolvedFile(Seq<char>, Seq<char>),
    UnresolvedHeading(Seq<char>, Seq<char>, Seq<char>),
    UnresolvedIndexedBlock(Seq<char>, Seq<char>, Seq<char>),
    LinkRefDef(Seq<char>, MDLinkReferenceDefinition),
    MystAnchor(Seq<char>, MystSymbol),
    GlossaryTerm(Seq<char>, GlossaryTerm),
    MathLabel(Seq<char>, MystSymbol),
    SubstitutionDef(Seq<char>, MDSubstitutionDef),
}

impl<'a> View for Referenceable<'a> {
    type V = ReferenceableView;

    open spec fn view(&self) -> ReferenceableView {
        match *self {
            Referenceable::File(p, f) => ReferenceableView::File(p@, *f),
            Referenceable::Heading(p, h) => ReferenceableView::Heading(p@, *h),
            Referenceable::IndexedBlock(p, b) => ReferenceableView::IndexedBlock(p@, *b),
            Referenceable::Tag(p, t) => ReferenceableView::Tag(p@, *t),
            Referenceable::Footnote(p, n) => ReferenceableView::Footnote(p@, *n),
            Referenceable::UnresolvedFile(p, l) => ReferenceableView::UnresolvedFile(p@, l@),
            Referenceable::UnresolvedHeading(p, l, h) => ReferenceableView::UnresolvedHeading(
                p@,
                l@,
                h@,
            ),
            Referenceable::UnresolvedIndexedBlock(p, l, i) => {
                ReferenceableView::UnresolvedIndexedBlock(p@, l@, i@)
            },
            Referenceable::LinkRefDef(p, d) => ReferenceableView::LinkRefDef(p@, *d),
            Referenceable::MystAnchor(p, s) => ReferenceableView::MystAnchor(p@, *s),
            Referenceable::GlossaryTerm(p, g) => ReferenceableView::GlossaryTerm(p@, *g),
            Referenceable::MathLabel(p, s) => ReferenceableView::MathLabel(p@, *s),
            Referenceable::SubstitutionDef(p, d) => ReferenceableView::SubstitutionDef(p@, *d),
        }
    }
}

/// The path a referenceable belongs to.
pub open spec fn spec_path(r: ReferenceableView) -> Seq<char> {
    match r {
        ReferenceableView::File(p, _) => p,
        ReferenceableView::Heading(p, _) => p,
        ReferenceableView::IndexedBlock(p, _) => p,
        ReferenceableView::Tag(p, _) => p,
        ReferenceableView::Footnote(p, _) => p,
        ReferenceableView::UnresolvedFile(p, _) => p,
        ReferenceableView::UnresolvedHeading(p, _, _) => p,
        ReferenceableView::UnresolvedIndexedBlock(p, _, _) => p,
        ReferenceableView::LinkRefDef(p, _) => p,
        ReferenceableView::MystAnchor(p, _) => p,
        ReferenceableView::GlossaryTerm(p, _) => p,
        ReferenceableView::MathLabel(p, _) => p,
        ReferenceableView::SubstitutionDef(p, _) => p,
    }
}

/// The range of a referenceable within its file, where it has one.
pub open spec fn spec_range(r: ReferenceableView) -> Option<Range> {
    match r {
        ReferenceableView::Heading(_, h) => Some(h.range.0),
        ReferenceableView::IndexedBlock(_, b) => Some(b.range.0),
        ReferenceableView::Tag(_, t) => Some(t.range.0),
        ReferenceableView::Footnote(_, n) => Some(n.range.0),
        ReferenceableView::LinkRefDef(_, d) => Some(d.range.0),
        ReferenceableView::MystAnchor(_, s) => Some(s.range.0),
        ReferenceableView::GlossaryTerm(_, g) => Some(g.range.0),
        ReferenceableView::MathLabel(_, s) => Some(s.range.0),
        _ => None,
    }
}

/// Unresolved referenceables stand for link targets that do not exist.
pub open spec fn spec_is_unresolved(r: ReferenceableView) -> bool {
    r is UnresolvedHeading || r is UnresolvedFile || r is UnresolvedIndexedBlock
}

/// A refname with the given full text, path and in-file part.
pub open spec fn refname(full: Seq<char>, path: Option<Seq<char>>, infile: Option<Seq<char>>) -> RefnameView {
    RefnameView { full, path, infile }
}

/// The generic reference name of a referenceable (no display text).
pub open spec fn spec_refname(r: ReferenceableView, root_dir: Seq<char>) -> Option<RefnameView> {
    match r {
        ReferenceableView::File(path, _) => match spec_obsidian_ref_path(root_dir, path) {
            Some(s) => Some(refname(s, Some(s), None)),
            None => None,
        },
        ReferenceableView::Heading(path, h) => match spec_obsidian_ref_path(root_dir, path) {
            Some(s) => Some(
                refname(s + seq!['#'] + h.heading_text@, Some(s), Some(h.heading_text@)),
            ),
            None => None,
        },
        ReferenceableView::IndexedBlock(path, b) => match spec_obsidian_ref_path(root_dir, path) {
            Some(s) => Some(
                refname(s + seq!['#', '^'] + b.index@, Some(s), Some(seq!['^'] + b.index@)),
            ),
            None => None,
        },
        ReferenceableView::Tag(_, t) => Some(refname(seq!['#'] + t.tag_ref@, Some(t.tag_ref@), None)),
        ReferenceableView::Footnote(_, n) => Some(refname(n.index@, None, None)),
        ReferenceableView::UnresolvedHeading(_, p, h) => Some(
            refname(p + seq!['#'] + h, Some(p), Some(h)),
        ),
        ReferenceableView::UnresolvedFile(_, p) => Some(refname(p, Some(p), None)),
        ReferenceableView::UnresolvedIndexedBlock(_, p, i) => Some(
            refname(p + seq!['#', '^'] + i, Some(p), Some(seq!['^'] + i)),
        ),
        ReferenceableView::LinkRefDef(_, d) => Some(refname(d.link_ref_name@, None, None)),
        ReferenceableView::MystAnchor(_, s) => Some(refname(s.name@, None, Some(s.name@))),
        ReferenceableView::GlossaryTerm(_, g) => Some(refname(g.term@, None, Some(g.term@))),
        ReferenceableView::MathLabel(_, s) => match s.label {
            Some(l) => Some(refname(l@, None, Some(l@))),
            None => None,
        },
        ReferenceableView::SubstitutionDef(_, d) => Some(refname(d.name@, None, Some(d.name@))),
    }
}

/// A link's file part names a file: a file part with a `/` must equal the
/// file's vault-relative path (after decoding `%20` and `\ ` as spaces and
/// dropping a leading `./` or `/`); a bare name must equal, ignoring case,
/// the last segment of that path.
pub open spec fn spec_matches_path_or_file(file_ref_text: Seq<char>, refname: Option<RefnameView>) -> bool {
    match refname {
        None => false,
        Some(n) => match n.path {
            None => false,
            Some(p) => if file_ref_text.contains('/') {
                let t = replace_all(replace_all(file_ref_text, "%20"@, " "@), "\\ "@, " "@);
                let u = if starts_with(t, seq!['.', '/']) {
                    t.skip(2)
                } else if starts_with(t, seq!['/']) {
                    t.skip(1)
                } else {
                    t
                };
                u == p
            } else {
                match spec_link_file_key(n) {
                    Some(last) => lowercase(file_ref_text) == lowercase(last),
                    None => false,
                }
            },
        },
    }
}

/// The in-file name of a heading or indexed block referenceable (resolved or not).
pub open spec fn infile_name(r: ReferenceableView) -> Seq<char> {
    match r {
        ReferenceableView::Heading(_, h) => h.heading_text@,
        ReferenceableView::UnresolvedHeading(_, _, h) => h,
        ReferenceableView::IndexedBlock(_, b) => b.index@,
        ReferenceableView::UnresolvedIndexedBlock(_, _, i) => i,
        _ => Seq::empty(),
    }
}

/// Two names are equal ignoring case.
pub open spec fn same_name(a: Seq<char>, b: Seq<char>) -> bool {
    lowercase(a) == lowercase(b)
}

/// Whether `reference`, found in the file `file_path`, points at `r`.
pub open spec fn spec_references(
    reference: ReferenceView,
    root_dir: Seq<char>,
    file_path: Seq<char>,
    r: ReferenceableView,
) -> bool {
    let text = view_data(reference).reference_text;
    let name = spec_refname(r, root_dir);
    match r {
        ReferenceableView::Tag(..) => reference is Tag && name is Some && name->0.full == text,
        ReferenceableView::Footnote(path, _) => reference is Footnote && name is Some
            && name->0.full == text && path_equal(path, file_path),
        ReferenceableView::File(..) | ReferenceableView::UnresolvedFile(..) => match reference {
            ReferenceView::MDFileLink(d) => spec_matches_path_or_file(d.reference_text, name),
            ReferenceView::MystRole(_, MystRoleKind::Doc, target) => spec_matches_path_or_file(
                target,
                name,
            ),
            _ => false,
        },
        ReferenceableView::Heading(..)
        | ReferenceableView::UnresolvedHeading(..)
        | ReferenceableView::IndexedBlock(..)
        | ReferenceableView::UnresolvedIndexedBlock(..) => match reference {
            ReferenceView::MDHeadingLink(_, file, infile)
            | ReferenceView::MDIndexedBlockLink(_, file, infile) => spec_matches_path_or_file(
                file,
                name,
            ) && same_name(infile, infile_name(r)),
            ReferenceView::MystRole(_, MystRoleKind::Ref, target) => same_name(
                target,
                infile_name(r),
            ),
            _ => false,
        },
        ReferenceableView::LinkRefDef(path, _) => reference is LinkRef && name is Some && same_name(
            text,
            name->0.full,
        ) && path_equal(file_path, path),
        ReferenceableView::MystAnchor(_, s) => match reference {
            ReferenceView::MystRole(_, kind, target) => (kind == MystRoleKind::Ref || kind
                == MystRoleKind::NumRef) && same_name(target, s.name@),
            _ => false,
        },
        ReferenceableView::GlossaryTerm(_, g) => match reference {
            ReferenceView::MystRole(_, MystRoleKind::Term, target) => same_name(target, g.term@),
            _ => false,
        },
        ReferenceableView::MathLabel(_, s) => match reference {
            ReferenceView::MystRole(_, MystRoleKind::Eq, target) => s.label is Some && same_name(
                target,
                s.label->0@,
            ),
            _ => false,
        },
        ReferenceableView::SubstitutionDef(path, d) => match reference {
            ReferenceView::Substitution(data) => path_equal(file_path, path) && same_name(
                data.reference_text,
                d.name@,
            ),
            _ => false,
        },
    }
}

/// The `/`-separated segments of a text, as `str::split('/')` yields them.
pub open spec fn split_segments(s: Seq<char>, c: char) -> Seq<Seq<char>>
    decreases s.len(),
{
    if s.len() == 0 {
        seq![Seq::empty()]
    } else {
        let rest = split_segments(s.drop_last(), c);
        if s.last() == c {
            rest.push(Seq::empty())
        } else {
            rest.update(rest.len() - 1, rest.last().push(s.last()))
        }
    }
}

/// Splitting gives at least one segment.
pub proof fn lemma_split_segments_nonempty(s: Seq<char>, c: char)
    ensures
        split_segments(s, c).len() > 0,
    decreases s.len(),
{
    if s.len() > 0 {
        lemma_split_segments_nonempty(s.drop_last(), c);
    }
}

/// The segments of `prefix` are the first segments of `text`.
pub open spec fn segments_prefix(prefix: Seq<Seq<char>>, text: Seq<Seq<char>>) -> bool {
    prefix.len() <= text.len() && text.subrange(0, prefix.len() as int) == prefix
}

/// Whether `reference`, found in `reference_path`, points at `r`, as the
/// references panel sees it: a tag matches nested tags below it, and a file
/// is also matched by links to its headings and blocks.
pub open spec fn spec_matches_reference(
    r: ReferenceableView,
    root_dir: Seq<char>,
    reference: ReferenceView,
    reference_path: Seq<char>,
) -> bool {
    let text = view_data(reference).reference_text;
    let name = spec_refname(r, root_dir);
    match r {
        ReferenceableView::Tag(..) => reference is Tag && name is Some && segments_prefix(
            split_segments(name->0.full, '/'),
            split_segments(text, '/'),
        ),
        ReferenceableView::Footnote(path, _) => reference is Footnote && name is Some
            && name->0.full == text && path_equal(path, reference_path),
        ReferenceableView::File(..) | ReferenceableView::UnresolvedFile(..) => match reference {
            ReferenceView::MDFileLink(d) => spec_matches_path_or_file(d.reference_text, name),
            ReferenceView::MDHeadingLink(_, file, _)
            | ReferenceView::MDIndexedBlockLink(_, file, _) => spec_matches_path_or_file(file, name),
            ReferenceView::MystRole(_, MystRoleKind::Doc, target) => spec_matches_path_or_file(
                target,
                name,
            ),
            _ => false,
        },
        _ => spec_references(reference, root_dir, reference_path, r),
    }
}

/// The type name of a referenceable.
pub open spec fn spec_referenceable_type_name(r: ReferenceableView) -> &'static str {
    match r {
        ReferenceableView::File(..) => "file",
        ReferenceableView::Heading(..) => "heading",
        ReferenceableView::IndexedBlock(..) => "indexed_block",
        ReferenceableView::Tag(..) => "tag",
        ReferenceableView::Footnote(..) => "footnote",
        ReferenceableView::UnresolvedFile(..) => "unresolved_file",
        ReferenceableView::UnresolvedHeading(..) => "unresolved_heading",
        ReferenceableView::UnresolvedIndexedBlock(..) => "unresolved_indexed_block",
        ReferenceableView::LinkRefDef(..) => "link_ref_def",
        ReferenceableView::MystAnchor(..) => "myst_anchor",
        ReferenceableView::GlossaryTerm(..) => "glossary_term",
        ReferenceableView::MathLabel(..) => "math_label",
        ReferenceableView::SubstitutionDef(..) => "substitution_def",
    }
}

/// Files, headings, tags and MyST anchors can be renamed.
pub open spec fn spec_is_renameable(r: ReferenceableView) -> bool {
    r is File || r is Heading || r is Tag || r is MystAnchor
}

/// Only renameable referenceables have a definition-side rename; a tag's is
/// no edit, with the new name as its reference name.
pub proof fn lemma_definition_rename_renameable(r: ReferenceableView, new_name: Seq<char>)
    ensures
        spec_definition_rename(r, new_name) is Some ==> spec_is_renameable(r),
        r is Tag ==> spec_definition_rename(r, new_name) == Some((None::<(Seq<char>, Option<Range>, Seq<char>)>, new_name)),
{
}

fn hash_text() -> (r: String)
    ensures
        r@ == seq!['#'],
{
    let v = vec!['#'];
    string_of(&v)
}

fn hash_caret_text() -> (r: String)
    ensures
        r@ == seq!['#', '^'],
{
    let v = vec!['#', '^'];
    string_of(&v)
}

fn caret_text() -> (r: String)
    ensures
        r@ == seq!['^'],
{
    let v = vec!['^'];
    string_of(&v)
}

fn refname_exec(full: String, path: Option<String>, infile: Option<String>) -> (r: Refname)
    ensures
        r@ == refname(full@, opt_view(path), opt_view(infile)),
{
    Refname { full_refname: full, path, infile_ref: infile }
}

/// `matches_path_or_file` on a link's file part and a refname.
pub fn matches_path_or_file(file_ref_text: &str, refname: Option<Refname>) -> (b: bool)
    ensures
        b == spec_matches_path_or_file(
            file_ref_text@,
            match refname {
                Some(n) => Some(n@),
                None => None,
            },
        ),
{
    let n = match refname {
        Some(n) => n,
        None => return false,
    };
    let p = match &n.path {
        Some(p) => p,
        None => return false,
    };
    if str_contains_char(file_ref_text, '/') {
        let t1 = str_replace_all(file_ref_text, "%20", " ");
        let t2 = str_replace_all(t1.as_str(), "\\ ", " ");
        let v = chars_of(t2.as_str());
        let dot_slash = vec!['.', '/'];
        let slash = vec!['/'];
        assert(dot_slash@ =~= seq!['.', '/']);
        assert(slash@ =~= seq!['/']);
        assert(t2@ == replace_all(replace_all(file_ref_text@, "%20"@, " "@), "\\ "@, " "@));
        let u = if vec_starts_with(&v, &dot_slash) {
            sub_vec(&v, 2, v.len())
        } else if vec_starts_with(&v, &slash) {
            sub_vec(&v, 1, v.len())
        } else {
            sub_vec(&v, 0, v.len())
        };
        assert(v@.subrange(2, v@.len() as int) =~= v@.skip(2));
        assert(v@.subrange(1, v@.len() as int) =~= v@.skip(1));
        assert(v@.subrange(0, v@.len() as int) =~= v@);
        let us = string_of(&u);
        let res = str_eq(us.as_str(), p.as_str());
        assert(res == spec_matches_path_or_file(file_ref_text@, Some(n@)));
        res
    } else {
        let key = n.link_file_key();
        match key {
            Some(last) => {
                let res = eq_ignore_case(file_ref_text, last.as_str());
                assert(res == spec_matches_path_or_file(file_ref_text@, Some(n@)));
                res
            },
            None => false,
        }
    }
}

/// What `Path::is_absolute` answers, and the two-line rule that decides
/// whether a `file://` URL can be made of a path.
pub open spec fn url_ok(p: Seq<char>) -> bool {
    path_is_absolute(p)
}

/// A change to a document that a rename produces.
#[derive(Debug, Clone, PartialEq, Eq)]
pub enum DocumentChange {
    /// Replace the text at `range` of the file at `path` by `new_text`.
    Edit { path: String, range: MyRange, new_text: String },
    /// Rename the file at `old_path` to `new_path`.
    Rename { old_path: String, new_path: String },
}

/// The heading text `#` repeated `level` times, a space and the new name.
pub open spec fn heading_line(level: nat, new_name: Seq<char>) -> Seq<char> {
    Seq::new(level, |i: int| '#') + seq![' '] + new_name
}

/// The definition-side edit of renaming `r` to `new_name`, and the name that
/// the references take; `None` where `r` cannot be renamed or its file path
/// cannot be made a URL.
pub open spec fn spec_definition_rename(r: ReferenceableView, new_name: Seq<char>) -> Option<
    (Option<(Seq<char>, Option<Range>, Seq<char>)>, Seq<char>),
> {
    match r {
        ReferenceableView::Heading(path, h) => if url_ok(path) && path_file_stem(path) is Some {
            let change = (path, Some(h.range.0), heading_line(h.level.0 as nat, new_name));
            Some((Some(change), path_file_stem(path)->0 + seq!['#'] + new_name))
        } else {
            None
        },
        ReferenceableView::File(path, _) => {
            let new_path = path_with_extension(path_with_file_name(path, new_name), "md"@);
            if url_ok(path) && url_ok(new_path) {
                Some((Some((path, None, new_path)), new_name))
            } else {
                None
            }
        },
        ReferenceableView::Tag(..) => Some((None, new_name)),
        ReferenceableView::MystAnchor(path, s) => if url_ok(path) {
            let text = seq!['\u{28}'] + new_name + seq!['\u{29}', '='];
            let change = (path, Some(s.range.0), text);
            Some((Some(change), new_name))
        } else {
            None
        },
        _ => None,
    }
}

/// The flat form of a rename's definition change: the path, the edited range
/// (none for a file rename) and the new text or new path.
pub open spec fn change_view(c: DocumentChange) -> (Seq<char>, Option<Range>, Seq<char>) {
    match c {
        DocumentChange::Edit { path, range, new_text } => (path@, Some(range.0), new_text@),
        DocumentChange::Rename { old_path, new_path } => (old_path@, None, new_path@),
    }
}

/// The flat form of a rename result.
pub open spec fn rename_view(r: Option<(Option<DocumentChange>, String)>) -> Option<
    (Option<(Seq<char>, Option<Range>, Seq<char>)>, Seq<char>),
> {
    match r {
        Some((c, n)) => Some((opt_change_view(c), n@)),
        None => None,
    }
}

pub open spec fn opt_change_view(c: Option<DocumentChange>) -> Option<(Seq<char>, Option<Range>, Seq<char>)> {
    match c {
        Some(ch) => Some(change_view(ch)),
        None => None,
    }
}

impl<'a> Referenceable<'a> {
    /// A copy of this referenceable.
    pub fn duplicate(&self) -> (r: Referenceable<'a>)
        ensures
            r@ == self@,
    {
        match self {
            Referenceable::File(p, f) => Referenceable::File(p, f),
            Referenceable::Heading(p, h) => Referenceable::Heading(p, h),
            Referenceable::IndexedBlock(p, b) => Referenceable::IndexedBlock(p, b),
            Referenceable::Tag(p, t) => Referenceable::Tag(p, t),
            Referenceable::Footnote(p, n) => Referenceable::Footnote(p, n),
            Referenceable::UnresolvedFile(p, l) => Referenceable::UnresolvedFile(p.clone(), l),
            Referenceable::UnresolvedHeading(p, l, h) => Referenceable::UnresolvedHeading(
                p.clone(),
                l,
                h,
            ),
            Referenceable::UnresolvedIndexedBlock(p, l, i) => Referenceable::UnresolvedIndexedBlock(
                p.clone(),
                l,
                i,
            ),
            Referenceable::LinkRefDef(p, d) => Referenceable::LinkRefDef(p, d),
            Referenceable::MystAnchor(p, s) => Referenceable::MystAnchor(p, s),
            Referenceable::GlossaryTerm(p, g) => Referenceable::GlossaryTerm(p, g),
            Referenceable::MathLabel(p, s) => Referenceable::MathLabel(p, s),
            Referenceable::SubstitutionDef(p, d) => Referenceable::SubstitutionDef(p, d),
        }
    }

    /// The generic reference name of this referenceable (no display text).
    pub fn get_refname(&self, root_dir: &str) -> (r: Option<Refname>)
        ensures
            match r {
                Some(n) => spec_refname(self@, root_dir@) == Some(n@),
                None => spec_refname(self@, root_dir@) is None,
            },
    {
        match self {
            Referenceable::File(path, _) => match get_obsidian_ref_path(root_dir, path.as_str()) {
                Some(s) => Some(refname_exec(s.clone(), Some(s), None)),
                None => None,
            },
            Referenceable::Heading(path, heading) => match get_obsidian_ref_path(
                root_dir,
                path.as_str(),
            ) {
                Some(s) => {
                    let full = concat3(s.as_str(), hash_text().as_str(), heading.heading_text.as_str());
                    Some(refname_exec(full, Some(s), Some(heading.heading_text.clone())))
                },
                None => None,
            },
            Referenceable::IndexedBlock(path, index) => match get_obsidian_ref_path(
                root_dir,
                path.as_str(),
            ) {
                Some(s) => {
                    let full = concat3(s.as_str(), hash_caret_text().as_str(), index.index.as_str());
                    let infile = concat(caret_text().as_str(), index.index.as_str());
                    Some(refname_exec(full, Some(s), Some(infile)))
                },
                None => None,
            },
            Referenceable::Tag(_, tag) => {
                let full = concat(hash_text().as_str(), tag.tag_ref.as_str());
                Some(refname_exec(full, Some(tag.tag_ref.clone()), None))
            },
            Referenceable::Footnote(_, footnote) => Some(
                refname_exec(footnote.index.clone(), None, None),
            ),
            Referenceable::UnresolvedHeading(_, path, heading) => {
                let full = concat3(path.as_str(), hash_text().as_str(), heading.as_str());
                Some(refname_exec(full, Some((*path).clone()), Some((*heading).clone())))
            },
            Referenceable::UnresolvedFile(_, path) => Some(
                refname_exec((*path).clone(), Some((*path).clone()), None),
            ),
            Referenceable::UnresolvedIndexedBlock(_, path, index) => {
                let full = concat3(path.as_str(), hash_caret_text().as_str(), index.as_str());
                let infile = concat(caret_text().as_str(), index.as_str());
                Some(refname_exec(full, Some((*path).clone()), Some(infile)))
            },
            Referenceable::LinkRefDef(_, refdef) => Some(
                refname_exec(refdef.link_ref_name.clone(), None, None),
            ),
            Referenceable::MystAnchor(_, symbol) => Some(
                refname_exec(symbol.name.clone(), None, Some(symbol.name.clone())),
            ),
            Referenceable::GlossaryTerm(_, glossary_term) => Some(
                refname_exec(glossary_term.term.clone(), None, Some(glossary_term.term.clone())),
            ),
            Referenceable::MathLabel(_, symbol) => match &symbol.label {
                Some(label) => Some(refname_exec(label.clone(), None, Some(label.clone()))),
                None => None,
            },
            Referenceable::SubstitutionDef(_, sub_def) => Some(
                refname_exec(sub_def.name.clone(), None, Some(sub_def.name.clone())),
            ),
        }
    }

    /// The path of the file this referenceable belongs to.
    pub fn get_path(&self) -> (r: &String)
        ensures
            r@ == spec_path(self@),
    {
        match self {
            Referenceable::File(path, _) => path,
            Referenceable::Heading(path, _) => path,
            Referenceable::IndexedBlock(path, _) => path,
            Referenceable::Tag(path, _) => path,
            Referenceable::Footnote(path, _) => path,
            Referenceable::UnresolvedIndexedBlock(path, ..) => path,
            Referenceable::UnresolvedFile(path, ..) => path,
            Referenceable::UnresolvedHeading(path, ..) => path,
            Referenceable::LinkRefDef(path, ..) => path,
            Referenceable::MystAnchor(path, ..) => path,
            Referenceable::GlossaryTerm(path, ..) => path,
            Referenceable::MathLabel(path, ..) => path,
            Referenceable::SubstitutionDef(path, ..) => path,
        }
    }

    /// The range of this referenceable in its file; files, unresolved targets
    /// and substitution definitions have none.
    pub fn get_range(&self) -> (r: Option<MyRange>)
        ensures
            match r {
                Some(m) => spec_range(self@) == Some(m.0),
                None => spec_range(self@) is None,
            },
    {
        match self {
            Referenceable::File(_, _) => None,
            Referenceable::Heading(_, heading) => Some(heading.range),
            Referenceable::IndexedBlock(_, indexed_block) => Some(indexed_block.range),
            Referenceable::Tag(_, tag) => Some(tag.range),
            Referenceable::Footnote(_, footnote) => Some(footnote.range),
            Referenceable::LinkRefDef(_, refdef) => Some(refdef.range),
            Referenceable::UnresolvedFile(..)
            | Referenceable::UnresolvedHeading(..)
            | Referenceable::UnresolvedIndexedBlock(..) => None,
            Referenceable::MystAnchor(_, symbol) => Some(symbol.range),
            Referenceable::GlossaryTerm(_, term) => Some(term.range),
            Referenceable::MathLabel(_, symbol) => Some(symbol.range),
            Referenceable::SubstitutionDef(_, _) => None,
        }
    }

    /// Whether this stands for a link target that does not exist.
    pub fn is_unresolved(&self) -> (b: bool)
        ensures
            b == spec_is_unresolved(self@),
    {
        matches!(
            self,
            Referenceable::UnresolvedHeading(..) | Referenceable::UnresolvedFile(..)
                | Referenceable::UnresolvedIndexedBlock(..)
        )
    }

    /// A static string identifying the referenceable type.
    pub fn referenceable_type_name(&self) -> (r: &'static str)
        ensures
            r == spec_referenceable_type_name(self@),
    {
        match self {
            Referenceable::File(..) => "file",
            Referenceable::Heading(..) => "heading",
            Referenceable::IndexedBlock(..) => "indexed_block",
            Referenceable::Tag(..) => "tag",
            Referenceable::Footnote(..) => "footnote",
            Referenceable::UnresolvedFile(..) => "unresolved_file",
            Referenceable::UnresolvedHeading(..) => "unresolved_heading",
            Referenceable::UnresolvedIndexedBlock(..) => "unresolved_indexed_block",
            Referenceable::LinkRefDef(..) => "link_ref_def",
            Referenceable::MystAnchor(..) => "myst_anchor",
            Referenceable::GlossaryTerm(..) => "glossary_term",
            Referenceable::MathLabel(..) => "math_label",
            Referenceable::SubstitutionDef(..) => "substitution_def",
        }
    }

    /// Whether this referenceable can be renamed.
    pub fn is_renameable(&self) -> (b: bool)
        ensures
            b == spec_is_renameable(self@),
    {
        matches!(
            self,
            Referenceable::File(..) | Referenceable::Heading(..) | Referenceable::Tag(..)
                | Referenceable::MystAnchor(..)
        )
    }

    /// Whether `reference`, found in `reference_path`, points at this referenceable.
    pub fn matches_reference(&self, root_dir: &str, reference: &Reference, reference_path: &str) -> (b:
        bool)
        ensures
            b == spec_matches_reference(self@, root_dir@, reference@, reference_path@),
    {
        let text = &reference.data().reference_text;
        match self {
            Referenceable::Tag(_, _) => {
                if !matches!(reference, Reference::Tag(_)) {
                    return false;
                }
                match self.get_refname(root_dir) {
                    Some(n) => {
                        let a = split_text(n.full_refname.as_str(), '/');
                        let b = split_text(text.as_str(), '/');
                        segments_prefix_exec(&a, &b)
                    },
                    None => false,
                }
            },
            Referenceable::Footnote(path, _) => {
                if !matches!(reference, Reference::Footnote(_)) {
                    return false;
                }
                match self.get_refname(root_dir) {
                    Some(n) => str_eq(n.full_refname.as_str(), text.as_str()) && same_path(
                        path.as_str(),
                        reference_path,
                    ),
                    None => false,
                }
            },
            Referenceable::File(..) | Referenceable::UnresolvedFile(..) => match reference {
                Reference::MDFileLink(data) => matches_path_or_file(
                    data.reference_text.as_str(),
                    self.get_refname(root_dir),
                ),
                Reference::MDHeadingLink(_, file, _) | Reference::MDIndexedBlockLink(_, file, _) => {
                    matches_path_or_file(file.as_str(), self.get_refname(root_dir))
                },
                Reference::MystRole(_, MystRoleKind::Doc, target) => matches_path_or_file(
                    target.as_str(),
                    self.get_refname(root_dir),
                ),
                _ => false,
            },
            _ => reference.references(root_dir, reference_path, self),
        }
    }

    /// The definition-side edit of renaming this referenceable to `new_name`,
    /// with the name its references take; `None` when this kind of
    /// referenceable cannot be renamed or its path cannot be made a URL.
    pub fn get_definition_rename_edit(&self, new_name: &str) -> (r: Option<
        (Option<DocumentChange>, String),
    >)
        ensures
            rename_view(r) == spec_definition_rename(self@, new_name@),
    {
        match self {
            Referenceable::Heading(path, heading) => {
                if !is_absolute(path.as_str()) {
                    return None;
                }
                let stem = match file_stem(path.as_str()) {
                    Some(s) => s,
                    None => return None,
                };
                let mut line: Vec<char> = Vec::new();
                let mut i: usize = 0;
                while i < heading.level.0
                    invariant
                        i <= heading.level.0,
                        line@ == Seq::new(i as nat, |k: int| '#'),
                    decreases heading.level.0 - i,
                {
                    line.push('#');
                    assert(line@ =~= Seq::new((i + 1) as nat, |k: int| '#'));
                    i += 1;
                }
                line.push(' ');
                let prefix = string_of(&line);
                let new_text = concat(prefix.as_str(), new_name);
                assert(new_text@ =~= heading_line(heading.level.0 as nat, new_name@));
                let ref_name = concat3(stem.as_str(), hash_text().as_str(), new_name);
                Some(
                    (
                        Some(
                            DocumentChange::Edit {
                                path: (*path).clone(),
                                range: heading.range,
                                new_text,
                            },
                        ),
                        ref_name,
                    ),
                )
            },
            Referenceable::File(path, _file) => {
                let named = with_file_name(path.as_str(), new_name);
                let md = "md";
                proof {
                    reveal_strlit("md");
                }
                let new_path = with_extension(named.as_str(), md);
                if !is_absolute(path.as_str()) || !is_absolute(new_path.as_str()) {
                    return None;
                }
                Some(
                    (
                        Some(DocumentChange::Rename { old_path: (*path).clone(), new_path }),
                        String::from_str(new_name),
                    ),
                )
            },
            Referenceable::Tag(_path, _tag) => Some((None, String::from_str(new_name))),
            Referenceable::MystAnchor(anchor_path, symbol) => {
                if !is_absolute(anchor_path.as_str()) {
                    return None;
                }
                let open = string_of(&vec!['\u{28}']);
                let close = string_of(&vec!['\u{29}', '=']);
                let new_text = concat3(open.as_str(), new_name, close.as_str());
                Some(
                    (
                        Some(
                            DocumentChange::Edit {
                                path: (*anchor_path).clone(),
                                range: symbol.range,
                                new_text,
                            },
                        ),
                        String::from_str(new_name),
                    ),
                )
            },
            _ => None,
        }
    }
}

/// Splits a text at every `c`.
pub fn split_text(s: &str, c: char) -> (r: Vec<Vec<char>>)
    ensures
        r@.map_values(|v: Vec<char>| v@) == split_segments(s@, c),
{
    let v = chars_of(s);
    let mut out: Vec<Vec<char>> = Vec::new();
    let mut cur: Vec<char> = Vec::new();
    let mut i: usize = 0;
    while i < v.len()
        invariant
            i <= v.len(),
            v@ == s@,
            out@.map_values(|w: Vec<char>| w@).push(cur@) == split_segments(
                v@.subrange(0, i as int),
                c,
            ),
        decreases v.len() - i,
    {
        let ghost prev = v@.subrange(0, i as int);
        assert(v@.subrange(0, i + 1).drop_last() =~= prev);
        if v[i] == c {
            let done = cur;
            out.push(done);
            cur = Vec::new();
            assert(out@.map_values(|w: Vec<char>| w@).push(cur@) =~= split_segments(prev, c).push(
                Seq::empty(),
            ));
        } else {
            cur.push(v[i]);
            assert(out@.map_values(|w: Vec<char>| w@).push(cur@) =~= split_segments(prev, c).update(
                split_segments(prev, c).len() - 1,
                split_segments(prev, c).last().push(v@[i as int]),
            ));
        }
        i += 1;
    }
    assert(v@.subrange(0, i as int) =~= v@);
    out.push(cur);
    out
}

fn vec_char_eq(a: &Vec<char>, b: &Vec<char>) -> (r: bool)
    ensures
        r == (a@ == b@),
{
    if a.len() != b.len() {
        return false;
    }
    let mut i: usize = 0;
    while i < a.len()
        invariant
            i <= a.len() == b.len(),
            forall|k: int| 0 <= k < i ==> a@[k] == b@[k],
        decreases a.len() - i,
    {
        if a[i] != b[i] {
            assert(a@[i as int] != b@[i as int]);
            return false;
        }
        i += 1;
    }
    assert(a@ =~= b@);
    true
}

/// The segments `a` are the first segments of `b`.
fn segments_prefix_exec(a: &Vec<Vec<char>>, b: &Vec<Vec<char>>) -> (r: bool)
    ensures
        r == segments_prefix(
            a@.map_values(|v: Vec<char>| v@),
            b@.map_values(|v: Vec<char>| v@),
        ),
{
    let ghost av = a@.map_values(|v: Vec<char>| v@);
    let ghost bv = b@.map_values(|v: Vec<char>| v@);
    if a.len() > b.len() {
        return false;
    }
    let mut i: usize = 0;
    while i < a.len()
        invariant
            i <= a.len() <= b.len(),
            av == a@.map_values(|v: Vec<char>| v@),
            bv == b@.map_values(|v: Vec<char>| v@),
            forall|k: int| 0 <= k < i ==> av[k] == bv[k],
        decreases a.len() - i,
    {
        if !vec_char_eq(&a[i], &b[i]) {
            assert(bv.subrange(0, av.len() as int)[i as int] != av[i as int]);
            return false;
        }
        i += 1;
    }
    assert(bv.subrange(0, av.len() as int) =~= av);
    true
}

/// The `|display` part that a rewritten link keeps.
pub open spec fn display_part(d: Option<Seq<char>>) -> Seq<char> {
    match d {
        Some(t) => seq!['|'] + t,
        None => Seq::empty(),
    }
}

/// The new text of `reference` when `r` is renamed so that its references
/// name `new_ref_name`; `None` when the reference does not follow that rename.
pub open spec fn spec_rename_text(
    reference: ReferenceView,
    r: ReferenceableView,
    new_ref_name: Seq<char>,
    root_dir: Seq<char>,
) -> Option<Seq<char>> {
    match reference {
        ReferenceView::Tag(data) => if r is Tag {
            match spec_refname(r, root_dir) {
                Some(n) => Some(
                    seq!['#'] + replace_first(data.reference_text, n.full, new_ref_name),
                ),
                None => None,
            }
        } else {
            None
        },
        ReferenceView::MDFileLink(data) => if r is File {
            Some("["@ + display_part(data.display_text) + "]("@ + new_ref_name + ")"@)
        } else {
            None
        },
        ReferenceView::MDHeadingLink(data, _, infile)
        | ReferenceView::MDIndexedBlockLink(data, _, infile) => if r is File {
            Some(
                "["@ + display_part(data.display_text) + "]("@ + new_ref_name + "#"@ + infile
                    + ")"@,
            )
        } else if r is Heading && reference is MDHeadingLink {
            Some("["@ + display_part(data.display_text) + "]("@ + new_ref_name + ")"@)
        } else {
            None
        },
        ReferenceView::MystRole(data, kind, _) => if r is MystAnchor && (kind == MystRoleKind::Ref
            || kind == MystRoleKind::NumRef) {
            let role = if kind == MystRoleKind::Ref {
                "ref"@
            } else {
                "numref"@
            };
            match data.display_text {
                Some(d) => Some("{"@ + role + "}`"@ + d + " <"@ + new_ref_name + ">`"@),
                None => Some("{"@ + role + "}`"@ + new_ref_name + "`"@),
            }
        } else {
            None
        },
        _ => None,
    }
}

fn display_part_exec(d: &Option<String>) -> (r: String)
    ensures
        r@ == display_part(opt_view(*d)),
{
    match d {
        Some(t) => {
            let bar_chars = vec!['|'];
            assert(bar_chars@ =~= seq!['|']);
            let bar = string_of(&bar_chars);
            concat(bar.as_str(), t.as_str())
        },
        None => String::new(),
    }
}

impl Reference {
    /// The replacement text of this reference when `referenceable` is renamed
    /// and its references are to name `new_ref_name`; `None` when this
    /// reference does not follow that rename.
    pub fn get_rename_text(&self, referenceable: &Referenceable, new_ref_name: &str, root_dir: &str) -> (r:
        Option<String>)
        ensures
            opt_view(r) == spec_rename_text(self@, referenceable@, new_ref_name@, root_dir@),
    {
        match self {
            Reference::Tag(data) => {
                if !matches!(referenceable, Referenceable::Tag(..)) {
                    return None;
                }
                let old_refname = match referenceable.get_refname(root_dir) {
                    Some(n) => n,
                    None => return None,
                };
                let replaced = str_replace_first(
                    data.reference_text.as_str(),
                    old_refname.full_refname.as_str(),
                    new_ref_name,
                );
                Some(concat(hash_text().as_str(), replaced.as_str()))
            },
            Reference::MDFileLink(data) => {
                if !matches!(referenceable, Referenceable::File(..)) {
                    return None;
                }
                let dp = display_part_exec(&data.display_text);
                let head = concat3("[", dp.as_str(), "](");
                Some(concat3(head.as_str(), new_ref_name, ")"))
            },
            Reference::MDHeadingLink(data, _file, infile)
            | Reference::MDIndexedBlockLink(data, _file, infile) => {
                match referenceable {
                    Referenceable::File(..) => {
                        let dp = display_part_exec(&data.display_text);
                        let head = concat3("[", dp.as_str(), "](");
                        let mid = concat3(head.as_str(), new_ref_name, "#");
                        Some(concat3(mid.as_str(), infile.as_str(), ")"))
                    },
                    Referenceable::Heading(..) => {
                        if matches!(self, Reference::MDHeadingLink(..)) {
                            let dp = display_part_exec(&data.display_text);
                            let head = concat3("[", dp.as_str(), "](");
                            Some(concat3(head.as_str(), new_ref_name, ")"))
                        } else {
                            None
                        }
                    },
                    _ => None,
                }
            },
            Reference::MystRole(data, role_kind, _old_target) => {
                if !matches!(referenceable, Referenceable::MystAnchor(..)) {
                    return None;
                }
                let role_name = match role_kind {
                    MystRoleKind::Ref => "ref",
                    MystRoleKind::NumRef => "numref",
                    _ => return None,
                };
                let head = concat3("{", role_name, "}`");
                match &data.display_text {
                    Some(display) => {
                        let a = concat3(head.as_str(), display.as_str(), " <");
                        Some(concat3(a.as_str(), new_ref_name, ">`"))
                    },
                    None => Some(concat3(head.as_str(), new_ref_name, "`")),
                }
            },
            Reference::Footnote(..)
            | Reference::LinkRef(..)
            | Reference::ImageLink(..)
            | Reference::Substitution(..) => None,
        }
    }

    /// Whether this reference, found in the file `file_path`, points at `referenceable`.
    pub fn references(&self, root_dir: &str, file_path: &str, referenceable: &Referenceable) -> (b:
        bool)
        ensures
            b == spec_references(self@, root_dir@, file_path@, referenceable@),
    {
        let text = &self.data().reference_text;
        match referenceable {
            Referenceable::Tag(_, _) => match self {
                Reference::Tag(..) => match referenceable.get_refname(root_dir) {
                    Some(n) => str_eq(n.full_refname.as_str(), text.as_str()),
                    None => false,
                },
                _ => false,
            },
            Referenceable::Footnote(path, _footnote) => match self {
                Reference::Footnote(..) => match referenceable.get_refname(root_dir) {
                    Some(n) => str_eq(n.full_refname.as_str(), text.as_str()) && same_path(
                        path.as_str(),
                        file_path,
                    ),
                    None => false,
                },
                _ => false,
            },
            Referenceable::File(..) | Referenceable::UnresolvedFile(..) => match self {
                Reference::MDFileLink(data) => matches_path_or_file(
                    data.reference_text.as_str(),
                    referenceable.get_refname(root_dir),
                ),
                Reference::MystRole(_, MystRoleKind::Doc, target) => matches_path_or_file(
                    target.as_str(),
                    referenceable.get_refname(root_dir),
                ),
                _ => false,
            },
            Referenceable::Heading(..)
            | Referenceable::UnresolvedHeading(..)
            | Referenceable::IndexedBlock(..)
            | Referenceable::UnresolvedIndexedBlock(..) => {
                let infile_ref: &String = match referenceable {
                    Referenceable::Heading(_, h) => &h.heading_text,
                    Referenceable::UnresolvedHeading(_, _, h) => h,
                    Referenceable::IndexedBlock(_, b) => &b.index,
                    Referenceable::UnresolvedIndexedBlock(_, _, i) => i,
                    _ => {
                        proof {
                            assert(false);
                        }
                        text
                    },
                };
                match self {
                    Reference::MDHeadingLink(_, file_ref_text, link_infile_ref)
                    | Reference::MDIndexedBlockLink(_, file_ref_text, link_infile_ref) => {
                        matches_path_or_file(
                            file_ref_text.as_str(),
                            referenceable.get_refname(root_dir),
                        ) && eq_ignore_case(link_infile_ref.as_str(), infile_ref.as_str())
                    },
                    Reference::MystRole(_, MystRoleKind::Ref, target) => eq_ignore_case(
                        target.as_str(),
                        infile_ref.as_str(),
                    ),
                    _ => false,
                }
            },
            Referenceable::LinkRefDef(path, _link_ref) => match self {
                Reference::LinkRef(data) => match referenceable.get_refname(root_dir) {
                    Some(n) => eq_ignore_case(
                        data.reference_text.as_str(),
                        n.full_refname.as_str(),
                    ) && same_path(file_path, path.as_str()),
                    None => false,
                },
                _ => false,
            },
            Referenceable::MystAnchor(_, symbol) => match self {
                Reference::MystRole(_, MystRoleKind::Ref, target)
                | Reference::MystRole(_, MystRoleKind::NumRef, target) => eq_ignore_case(
                    target.as_str(),
                    symbol.name.as_str(),
                ),
                _ => false,
            },
            Referenceable::GlossaryTerm(_, glossary_term) => match self {
                Reference::MystRole(_, MystRoleKind::Term, target) => eq_ignore_case(
                    target.as_str(),
                    glossary_term.term.as_str(),
                ),
                _ => false,
            },
            Referenceable::MathLabel(_, symbol) => match self {
                Reference::MystRole(_, MystRoleKind::Eq, target) => match &symbol.label {
                    Some(label) => eq_ignore_case(target.as_str(), label.as_str()),
                    None => false,
                },
                _ => false,
            },
            Referenceable::SubstitutionDef(def_path, sub_def) => match self {
                Reference::Substitution(data) => same_path(file_path, def_path.as_str())
                    && eq_ignore_case(data.reference_text.as_str(), sub_def.name.as_str()),
                _ => false,
            },
        }
    }
}

/// `{ref}` and `{numref}` roles both point at a MyST anchor whose name equals
/// their target ignoring case, wherever the anchor and the role are, for
/// goto-definition and for the references panel alike; no other role does.
pub proof fn lemma_ref_roles_reach_anchors(
    d: ReferenceDataView,
    kind: MystRoleKind,
    target: Seq<char>,
    root: Seq<char>,
    file_path: Seq<char>,
    anchor_path: Seq<char>,
    s: MystSymbol,
)
    requires
        lowercase(target) == lowercase(s.name@),
    ensures
        spec_references(
            ReferenceView::MystRole(d, MystRoleKind::Ref, target),
            root,
            file_path,
            ReferenceableView::MystAnchor(anchor_path, s),
        ),
        spec_references(
            ReferenceView::MystRole(d, MystRoleKind::NumRef, target),
            root,
            file_path,
            ReferenceableView::MystAnchor(anchor_path, s),
        ),
        spec_matches_reference(
            ReferenceableView::MystAnchor(anchor_path, s),
            root,
            ReferenceView::MystRole(d, MystRoleKind::Ref, target),
            file_path,
        ),
        spec_matches_reference(
            ReferenceableView::MystAnchor(anchor_path, s),
            root,
            ReferenceView::MystRole(d, MystRoleKind::NumRef, target),
            file_path,
        ),
        kind != MystRoleKind::Ref && kind != MystRoleKind::NumRef ==> !spec_references(
            ReferenceView::MystRole(d, kind, target),
            root,
            file_path,
            ReferenceableView::MystAnchor(anchor_path, s),
        ),
{
}

/// Renaming a MyST anchor whose file has a URL rewrites the anchor's own
/// range in its own file to `(new_name)=`, the target line that declares an
/// anchor named `new_name`, and its references take `new_name` itself.
pub proof fn lemma_anchor_rename_writes_target_line(
    path: Seq<char>,
    s: MystSymbol,
    new_name: Seq<char>,
)
    ensures
        url_ok(path) ==> spec_definition_rename(ReferenceableView::MystAnchor(path, s), new_name)
            == Some(
            (
                Some((path, Some(s.range.0), seq!['\u{28}'] + new_name + seq!['\u{29}', '='])),
                new_name,
            ),
        ),
        !url_ok(path) ==> spec_definition_rename(
            ReferenceableView::MystAnchor(path, s),
            new_name,
        ) is None,
{
}

/// In the references panel a file is referenced by a link to one of its
/// headings or blocks exactly when a plain link with the same file part
/// references it; in particular a heading or block link whose file part is
/// the file's own vault-relative name (with no `/` in it) does.
pub proof fn lemma_file_matched_by_heading_and_block_links(
    path: Seq<char>,
    f: MDFile,
    root: Seq<char>,
    d: ReferenceDataView,
    file: Seq<char>,
    infile: Seq<char>,
    reference_path: Seq<char>,
)
    ensures
        spec_matches_reference(
            ReferenceableView::File(path, f),
            root,
            ReferenceView::MDHeadingLink(d, file, infile),
            reference_path,
        ) == spec_matches_reference(
            ReferenceableView::File(path, f),
            root,
            ReferenceView::MDFileLink(ReferenceDataView { reference_text: file, ..d }),
            reference_path,
        ),
        spec_matches_reference(
            ReferenceableView::File(path, f),
            root,
            ReferenceView::MDIndexedBlockLink(d, file, infile),
            reference_path,
        ) == spec_matches_reference(
            ReferenceableView::File(path, f),
            root,
            ReferenceView::MDFileLink(ReferenceDataView { reference_text: file, ..d }),
            reference_path,
        ),
        spec_obsidian_ref_path(root, path) == Some(file) && !file.contains('/') ==> {
            &&& spec_matches_reference(
                ReferenceableView::File(path, f),
                root,
                ReferenceView::MDHeadingLink(d, file, infile),
                reference_path,
            )
            &&& spec_matches_reference(
                ReferenceableView::File(path, f),
                root,
                ReferenceView::MDIndexedBlockLink(d, file, infile),
                reference_path,
            )
        },
{
    if spec_obsidian_ref_path(root, path) == Some(file) && !file.contains('/') {
        lemma_after_last_no_sep(file, '/');
    }
}

} // verus!
