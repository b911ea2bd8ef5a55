//! The in-memory vault: the parsed files and their texts, with queries that
//! select the vault's data. The queries do no interpretation; they are
//! analogous to selecting from a database.

use vstd::prelude::*;

use super::file::{file_referenceables, parsed_file, views, MDFile};
use super::metadata::MDMetadata;
use super::paths::{components_key, file_stem, path_file_stem, path_key};
use crate::config::Settings;
use super::helpers::{opt_view, spec_link_file_key, Refname, RefnameView};
use super::paths::{join, path_join};
use super::reference::{view_data, Reference, ReferenceView};
use super::referenceable::{
    spec_matches_reference, spec_range, spec_references, spec_refname, Referenceable,
    ReferenceableView,
};
use super::rope::{get_line, rope_line};
use super::types::{MDHeading, Position};
use crate::myst_parser::{GlossaryTerm, MystSymbol, MystSymbolKind};
use crate::text::{concat, concat3, str_eq};

verus! {

/// The text of one file of the vault.
#[derive(Debug, PartialEq, Eq, Clone)]
pub struct FileText {
    pub path: String,
    pub text: String,
}

/// The in-memory representation of the Markdown vault files.
#[derive(Debug, PartialEq, Eq, Clone)]
pub struct Vault {
    pub md_files: Vec<MDFile>,
    pub ropes: Vec<FileText>,
    pub root_dir: String,
}

/// No two files have the same path (compared by components).
pub open spec fn file_paths_unique(files: Seq<MDFile>) -> bool {
    forall|i: int, j: int|
        0 <= i < j < files.len() ==> path_key(#[trigger] files[i].path@) != path_key(#[trigger] files[j].path@)
}

/// No two texts have the same path (compared by components).
pub open spec fn text_paths_unique(texts: Seq<FileText>) -> bool {
    forall|i: int, j: int|
        0 <= i < j < texts.len() ==> path_key(#[trigger] texts[i].path@) != path_key(#[trigger] texts[j].path@)
}

/// Index of the first file at the given path, paths compared by their
/// components.
pub open spec fn find_file(files: Seq<MDFile>, path: Seq<char>) -> Option<int>
    decreases files.len(),
{
    if files.len() == 0 {
        None
    } else if path_key(files[0].path@) == path_key(path) {
        Some(0)
    } else {
        match find_file(files.drop_first(), path) {
            Some(i) => Some(i + 1),
            None => None,
        }
    }
}

/// Index of the first text at the given path, paths compared by their
/// components.
pub open spec fn find_text(texts: Seq<FileText>, path: Seq<char>) -> Option<int>
    decreases texts.len(),
{
    if texts.len() == 0 {
        None
    } else if path_key(texts[0].path@) == path_key(path) {
        Some(0)
    } else {
        match find_text(texts.drop_first(), path) {
            Some(i) => Some(i + 1),
            None => None,
        }
    }
}

/// The file of the vault at `path`.
pub open spec fn file_at(files: Seq<MDFile>, path: Seq<char>) -> Option<MDFile> {
    match find_file(files, path) {
        Some(i) => Some(files[i]),
        None => None,
    }
}

/// The text of the vault's file at `path`.
pub open spec fn text_at(texts: Seq<FileText>, path: Seq<char>) -> Option<Seq<char>> {
    match find_text(texts, path) {
        Some(i) => Some(texts[i].text@),
        None => None,
    }
}

/// The references of a file, each with the file's path.
pub open spec fn refs_of(f: MDFile) -> Seq<(Seq<char>, ReferenceView)> {
    f.references@.map_values(|r: Reference| (f.path@, r@))
}

/// All references of the vault, file by file.
pub open spec fn all_refs(files: Seq<MDFile>) -> Seq<(Seq<char>, ReferenceView)>
    decreases files.len(),
{
    if files.len() == 0 {
        Seq::empty()
    } else {
        all_refs(files.drop_last()) + refs_of(files.last())
    }
}

/// The MyST symbols of a file, each with the file's path.
pub open spec fn symbols_of(f: MDFile) -> Seq<(Seq<char>, MystSymbol)> {
    f.myst_symbols@.map_values(|s: MystSymbol| (f.path@, s))
}

/// All MyST symbols of the vault, file by file.
pub open spec fn all_symbols(files: Seq<MDFile>) -> Seq<(Seq<char>, MystSymbol)>
    decreases files.len(),
{
    if files.len() == 0 {
        Seq::empty()
    } else {
        all_symbols(files.drop_last()) + symbols_of(files.last())
    }
}

/// All resolved referenceables of the vault, file by file.
pub open spec fn all_resolved(files: Seq<MDFile>) -> Seq<ReferenceableView>
    decreases files.len(),
{
    if files.len() == 0 {
        Seq::empty()
    } else {
        all_resolved(files.drop_last()) + file_referenceables(files.last())
    }
}

/// The names under which a resolved referenceable counts as existing: its
/// full refname, and its file key followed by `#` and its in-file part; a
/// referenceable whose refname has no path contributes no name.
pub open spec fn resolved_names(n: Option<RefnameView>) -> Seq<Seq<char>> {
    match n {
        Some(name) => match spec_link_file_key(name) {
            Some(key) => seq![
                name.full,
                key + match name.infile {
                    Some(i) => seq!['#'] + i,
                    None => Seq::empty(),
                },
            ],
            None => Seq::empty(),
        },
        None => Seq::empty(),
    }
}

/// All names of existing referenceables.
pub open spec fn name_set(resolved: Seq<ReferenceableView>, root_dir: Seq<char>) -> Seq<Seq<char>>
    decreases resolved.len(),
{
    if resolved.len() == 0 {
        Seq::empty()
    } else {
        name_set(resolved.drop_last(), root_dir) + resolved_names(
            spec_refname(resolved.last(), root_dir),
        )
    }
}

/// The references whose text does not occur in an earlier reference.
pub open spec fn first_by_text(refs: Seq<(Seq<char>, ReferenceView)>) -> Seq<
    (Seq<char>, ReferenceView),
>
    decreases refs.len(),
{
    if refs.len() == 0 {
        Seq::empty()
    } else {
        let rest = first_by_text(refs.drop_last());
        let t = view_data(refs.last().1).reference_text;
        if exists|j: int|
            0 <= j < refs.len() - 1 && #[trigger] view_data(refs[j].1).reference_text == t {
            rest
        } else {
            rest.push(refs.last())
        }
    }
}

/// The unresolved referenceable that a link of unknown target stands for.
pub open spec fn unresolved_for(reference: ReferenceView, root_dir: Seq<char>) -> Option<
    ReferenceableView,
> {
    match reference {
        ReferenceView::MDFileLink(d) => Some(
            ReferenceableView::UnresolvedFile(
                path_join(root_dir, d.reference_text),
                d.reference_text,
            ),
        ),
        ReferenceView::MDHeadingLink(_, f, h) => Some(
            ReferenceableView::UnresolvedHeading(path_join(root_dir, f), f, h),
        ),
        ReferenceView::MDIndexedBlockLink(_, f, i) => Some(
            ReferenceableView::UnresolvedIndexedBlock(path_join(root_dir, f), f, i),
        ),
        _ => None,
    }
}

/// The unresolved referenceables of the references (taken once per text)
/// whose text names nothing that exists.
pub open spec fn unresolved_of(
    refs: Seq<(Seq<char>, ReferenceView)>,
    names: Seq<Seq<char>>,
    root_dir: Seq<char>,
) -> Seq<ReferenceableView>
    decreases refs.len(),
{
    if refs.len() == 0 {
        Seq::empty()
    } else {
        let rest = unresolved_of(refs.drop_last(), names, root_dir);
        let r = refs.last().1;
        if !names.contains(view_data(r).reference_text) && unresolved_for(r, root_dir) is Some {
            rest.push(unresolved_for(r, root_dir)->0)
        } else {
            rest
        }
    }
}

/// All referenceables of the vault: the resolved ones, then the unresolved
/// link targets.
pub open spec fn all_referenceables(files: Seq<MDFile>, root_dir: Seq<char>) -> Seq<
    ReferenceableView,
> {
    let resolved = all_resolved(files);
    resolved + unresolved_of(
        first_by_text(all_refs(files)),
        name_set(resolved, root_dir),
        root_dir,
    )
}

pub open spec fn pair_views<'a>(v: Seq<(&'a String, &'a Reference)>) -> Seq<
    (Seq<char>, ReferenceView),
> {
    v.map_values(|p: (&'a String, &'a Reference)| (p.0@, p.1@))
}

pub open spec fn symbol_views<'a>(v: Seq<(&'a String, &'a MystSymbol)>) -> Seq<
    (Seq<char>, MystSymbol),
> {
    v.map_values(|p: (&'a String, &'a MystSymbol)| (p.0@, *p.1))
}

/// The references of the file at `path` (none when there is no such file),
/// each with the path the vault holds the file under, or of all files.
pub open spec fn spec_select_references(files: Seq<MDFile>, path: Option<Seq<char>>) -> Seq<
    (Seq<char>, ReferenceView),
> {
    match path {
        Some(p) => match file_at(files, p) {
            Some(f) => refs_of(f),
            None => Seq::empty(),
        },
        None => all_refs(files),
    }
}

/// The MyST symbols of the file at `path`, or of all files.
pub open spec fn spec_select_symbols(files: Seq<MDFile>, path: Option<Seq<char>>) -> Seq<
    (Seq<char>, MystSymbol),
> {
    match path {
        Some(p) => match file_at(files, p) {
            Some(f) => symbols_of(f),
            None => Seq::empty(),
        },
        None => all_symbols(files),
    }
}

pub open spec fn kind_pred(k: MystSymbolKind) -> spec_fn((Seq<char>, MystSymbol)) -> bool {
    |p: (Seq<char>, MystSymbol)| p.1.kind == k
}

/// The referenceables of the file at `path`, or all referenceables of the vault.
pub open spec fn spec_select_referenceables(
    files: Seq<MDFile>,
    root_dir: Seq<char>,
    path: Option<Seq<char>>,
) -> Seq<ReferenceableView> {
    match path {
        Some(p) => match file_at(files, p) {
            Some(f) => file_referenceables(f),
            None => Seq::empty(),
        },
        None => all_referenceables(files, root_dir),
    }
}

/// A range covers a position, compared line by line and column by column
/// separately (the check that cursor lookups use).
pub open spec fn box_covers(r: super::types::Range, position: Position) -> bool {
    r.start.line <= position.line && r.end.line >= position.line && r.start.character
        <= position.character && r.end.character >= position.character
}

/// The first element of `s` that satisfies `pred`.
pub open spec fn first_satisfying<T>(s: Seq<T>, pred: spec_fn(T) -> bool) -> Option<T>
    decreases s.len(),
{
    if s.len() == 0 {
        None
    } else if pred(s[0]) {
        Some(s[0])
    } else {
        first_satisfying(s.drop_first(), pred)
    }
}

pub proof fn lemma_first_satisfying<T>(s: Seq<T>, pred: spec_fn(T) -> bool, i: int)
    requires
        0 <= i <= s.len(),
        forall|k: int| 0 <= k < i ==> !pred(s[k]),
        i < s.len() ==> pred(s[i]),
    ensures
        first_satisfying(s, pred) == (if i < s.len() {
            Some(s[i])
        } else {
            None::<T>
        }),
    decreases s.len(),
{
    if s.len() > 0 && i > 0 {
        lemma_first_satisfying(s.drop_first(), pred, i - 1);
    }
}

proof fn lemma_find_file(files: Seq<MDFile>, path: Seq<char>, i: int)
    requires
        0 <= i <= files.len(),
        forall|k: int| 0 <= k < i ==> path_key(files[k].path@) != path_key(path),
        i < files.len() ==> path_key(files[i].path@) == path_key(path),
    ensures
        find_file(files, path) == (if i < files.len() {
            Some(i)
        } else {
            None::<int>
        }),
    decreases files.len(),
{
    if files.len() > 0 && i > 0 {
        lemma_find_file(files.drop_first(), path, i - 1);
    }
}

proof fn lemma_find_text(texts: Seq<FileText>, path: Seq<char>, i: int)
    requires
        0 <= i <= texts.len(),
        forall|k: int| 0 <= k < i ==> path_key(texts[k].path@) != path_key(path),
        i < texts.len() ==> path_key(texts[i].path@) == path_key(path),
    ensures
        find_text(texts, path) == (if i < texts.len() {
            Some(i)
        } else {
            None::<int>
        }),
    decreases texts.len(),
{
    if texts.len() > 0 && i > 0 {
        lemma_find_text(texts.drop_first(), path, i - 1);
    }
}

impl Vault {
    /// A vault of the given parsed files and texts, rooted at `root_dir`.
    pub fn new(md_files: Vec<MDFile>, ropes: Vec<FileText>, root_dir: String) -> (v: Vault)
        ensures
            v.md_files@ == md_files@,
            v.ropes@ == ropes@,
            v.spec_root_dir() == root_dir@,
            v.well_formed() <==> file_paths_unique(md_files@) && text_paths_unique(ropes@),
    {
        Vault { md_files, ropes, root_dir }
    }

    pub open spec fn spec_root_dir(&self) -> Seq<char> {
        self.root_dir@
    }

    /// The vault holds at most one parsed file and one text per path, as a
    /// map from paths would.
    pub open spec fn well_formed(&self) -> bool {
        file_paths_unique(self.md_files@) && text_paths_unique(self.ropes@)
    }

    /// The vault's root directory.
    pub fn root_dir(&self) -> (r: &String)
        ensures
            r@ == self.spec_root_dir(),
    {
        &self.root_dir
    }

    /// Index of the file at `path`.
    pub fn file_index(&self, path: &str) -> (r: Option<usize>)
        ensures
            match r {
                Some(i) => find_file(self.md_files@, path@) == Some(i as int),
                None => find_file(self.md_files@, path@) is None,
            },
    {
        let key = components_key(path);
        let mut i: usize = 0;
        while i < self.md_files.len()
            invariant
                i <= self.md_files.len(),
                key@ == path_key(path@),
                forall|k: int| 0 <= k < i ==> path_key(self.md_files@[k].path@) != path_key(path@),
            decreases self.md_files.len() - i,
        {
            let k = components_key(self.md_files[i].path.as_str());
            if str_eq(k.as_str(), key.as_str()) {
                proof {
                    lemma_find_file(self.md_files@, path@, i as int);
                }
                return Some(i);
            }
            i += 1;
        }
        proof {
            lemma_find_file(self.md_files@, path@, i as int);
        }
        None
    }

    /// Index of the text of the file at `path`.
    pub fn text_index(&self, path: &str) -> (r: Option<usize>)
        ensures
            match r {
                Some(i) => find_text(self.ropes@, path@) == Some(i as int),
                None => find_text(self.ropes@, path@) is None,
            },
    {
        let key = components_key(path);
        let mut i: usize = 0;
        while i < self.ropes.len()
            invariant
                i <= self.ropes.len(),
                key@ == path_key(path@),
                forall|k: int| 0 <= k < i ==> path_key(self.ropes@[k].path@) != path_key(path@),
            decreases self.ropes.len() - i,
        {
            let k = components_key(self.ropes[i].path.as_str());
            if str_eq(k.as_str(), key.as_str()) {
                proof {
                    lemma_find_text(self.ropes@, path@, i as int);
                }
                return Some(i);
            }
            i += 1;
        }
        proof {
            lemma_find_text(self.ropes@, path@, i as int);
        }
        None
    }

    /// The parsed file at `path`.
    pub fn get_file(&self, path: &str) -> (r: Option<&MDFile>)
        ensures
            match r {
                Some(f) => file_at(self.md_files@, path@) == Some(*f),
                None => file_at(self.md_files@, path@) is None,
            },
    {
        proof {
            lemma_find_file_props(self.md_files@, path@);
        }
        match self.file_index(path) {
            Some(i) => Some(&self.md_files[i]),
            None => None,
        }
    }

    /// The text of the file at `path`.
    pub fn get_text(&self, path: &str) -> (r: Option<&String>)
        ensures
            match r {
                Some(t) => text_at(self.ropes@, path@) == Some(t@),
                None => text_at(self.ropes@, path@) is None,
            },
    {
        proof {
            lemma_find_text_props(self.ropes@, path@);
        }
        match self.text_index(path) {
            Some(i) => Some(&self.ropes[i].text),
            None => None,
        }
    }

    /// Replaces the parsed file and the text stored for `path`, or adds them
    /// when the vault has no file at `path`.
    pub fn update_file(&mut self, path: &str, md_file: MDFile, text: String)
        requires
            md_file.path@ == path@,
        ensures
            file_at(final(self).md_files@, path@) == Some(md_file),
            text_at(final(self).ropes@, path@) == Some(text@),
            forall|q: Seq<char>| path_key(q) != path_key(path@) ==> file_at(final(self).md_files@, q) == file_at(
                old(self).md_files@,
                q,
            ),
            forall|q: Seq<char>| path_key(q) != path_key(path@) ==> text_at(final(self).ropes@, q) == text_at(
                old(self).ropes@,
                q,
            ),
            final(self).spec_root_dir() == old(self).spec_root_dir(),
            old(self).well_formed() ==> final(self).well_formed(),
    {
        let ghost old_files = self.md_files@;
        let ghost old_texts = self.ropes@;
        proof {
            lemma_find_file_props(self.md_files@, path@);
            lemma_find_text_props(self.ropes@, path@);
        }
        match self.file_index(path) {
            Some(i) => {
                self.md_files.set(i, md_file);
                proof {
                    lemma_find_update_file(old_files, i as int, md_file, path@);
                    assert(path_key(old_files[i as int].path@) == path_key(path@));
                    if file_paths_unique(old_files) {
                        assert forall|a: int, b: int|
                            0 <= a < b < self.md_files@.len() implies path_key(#[trigger] self.md_files@[a].path@) != path_key(#[trigger] self.md_files@[b].path@) by {
                            assert(path_key(old_files[a].path@) != path_key(old_files[b].path@));
                        }
                    }
                }
            },
            None => {
                self.md_files.push(md_file);
                proof {
                    lemma_find_push_file(old_files, md_file, path@);
                    if file_paths_unique(old_files) {
                        assert forall|a: int, b: int|
                            0 <= a < b < self.md_files@.len() implies path_key(#[trigger] self.md_files@[a].path@) != path_key(#[trigger] self.md_files@[b].path@) by {
                            if b < old_files.len() {
                                assert(path_key(old_files[a].path@) != path_key(old_files[b].path@));
                            } else {
                                assert(path_key(old_files[a].path@) != path_key(path@));
                            }
                        }
                    }
                }
            },
        }
        let entry = FileText { path: String::from_str(path), text };
        match self.text_index(path) {
            Some(i) => {
                self.ropes.set(i, entry);
                proof {
                    lemma_find_update_text(old_texts, i as int, entry, path@);
                    assert(path_key(old_texts[i as int].path@) == path_key(path@));
                    if text_paths_unique(old_texts) {
                        assert forall|a: int, b: int|
                            0 <= a < b < self.ropes@.len() implies path_key(#[trigger] self.ropes@[a].path@) != path_key(#[trigger] self.ropes@[b].path@) by {
                            assert(path_key(old_texts[a].path@) != path_key(old_texts[b].path@));
                        }
                    }
                }
            },
            None => {
                self.ropes.push(entry);
                proof {
                    lemma_find_push_text(old_texts, entry, path@);
                    if text_paths_unique(old_texts) {
                        assert forall|a: int, b: int|
                            0 <= a < b < self.ropes@.len() implies path_key(#[trigger] self.ropes@[a].path@) != path_key(#[trigger] self.ropes@[b].path@) by {
                            if b < old_texts.len() {
                                assert(path_key(old_texts[a].path@) != path_key(old_texts[b].path@));
                            } else {
                                assert(path_key(old_texts[a].path@) != path_key(path@));
                            }
                        }
                    }
                }
            },
        }
    }

    /// Parses the new text of the document at `path` (with its frontmatter
    /// metadata) and stores the parse and the text in
    /// the vault, replacing what it held for `path`; every other document
    /// stays as it was.
    pub fn update_vault(
        context: &Settings,
        vault: &mut Vault,
        path: &str,
        text: &str,
        metadata: Option<MDMetadata>,
    )
        requires
            path_file_stem(path@) is Some,
        ensures
            file_at(final(vault).md_files@, path@) matches Some(f) && parsed_file(
                f,
                *context,
                text@,
                text.len() as nat,
                path@,
                metadata,
            ),
            text_at(final(vault).ropes@, path@) == Some(text@),
            forall|q: Seq<char>| path_key(q) != path_key(path@) ==> file_at(final(vault).md_files@, q) == file_at(
                old(vault).md_files@,
                q,
            ),
            forall|q: Seq<char>| path_key(q) != path_key(path@) ==> text_at(final(vault).ropes@, q) == text_at(
                old(vault).ropes@,
                q,
            ),
            final(vault).spec_root_dir() == old(vault).spec_root_dir(),
            old(vault).well_formed() ==> final(vault).well_formed(),
    {
        let md_file = MDFile::new(context, text, String::from_str(path), metadata);
        vault.update_file(path, md_file, String::from_str(text));
    }

    /// Like `update_vault`, where `path` has a file stem (as every Markdown
    /// file's path has); otherwise the vault stays as it is. Answers whether
    /// it was updated.
    pub fn try_update_vault(
        context: &Settings,
        vault: &mut Vault,
        path: &str,
        text: &str,
        metadata: Option<MDMetadata>,
    ) -> (updated: bool)
        ensures
            updated == (path_file_stem(path@) is Some),
            updated ==> (file_at(final(vault).md_files@, path@) matches Some(f) && parsed_file(
                f,
                *context,
                text@,
                text.len() as nat,
                path@,
                metadata,
            )),
            updated ==> text_at(final(vault).ropes@, path@) == Some(text@),
            forall|q: Seq<char>| path_key(q) != path_key(path@) ==> file_at(final(vault).md_files@, q) == file_at(
                old(vault).md_files@,
                q,
            ),
            forall|q: Seq<char>| path_key(q) != path_key(path@) ==> text_at(final(vault).ropes@, q) == text_at(
                old(vault).ropes@,
                q,
            ),
            !updated ==> *final(vault) == *old(vault),
            final(vault).spec_root_dir() == old(vault).spec_root_dir(),
            old(vault).well_formed() ==> final(vault).well_formed(),
    {
        match file_stem(path) {
            Some(_) => {
                Vault::update_vault(context, vault, path, text, metadata);
                true
            },
            None => false,
        }
    }
}

proof fn lemma_find_file_props(files: Seq<MDFile>, path: Seq<char>)
    ensures
        match find_file(files, path) {
            Some(i) => 0 <= i < files.len() && path_key(files[i].path@) == path_key(path) && forall|k: int|
                0 <= k < i ==> path_key(files[k].path@) != path_key(path),
            None => forall|k: int| 0 <= k < files.len() ==> path_key(files[k].path@) != path_key(path),
        },
    decreases files.len(),
{
    if files.len() > 0 {
        lemma_find_file_props(files.drop_first(), path);
        if path_key(files[0].path@) != path_key(path) {
            match find_file(files.drop_first(), path) {
                Some(j) => {
                    assert forall|k: int| 0 <= k < j + 1 implies path_key(files[k].path@) != path_key(path) by {
                        if k > 0 {
                            assert(files[k] == files.drop_first()[k - 1]);
                        }
                    }
                },
                None => {
                    assert forall|k: int| 0 <= k < files.len() implies path_key(files[k].path@) != path_key(path) by {
                        if k > 0 {
                            assert(files[k] == files.drop_first()[k - 1]);
                        }
                    }
                },
            }
        }
    }
}

proof fn lemma_find_text_props(texts: Seq<FileText>, path: Seq<char>)
    ensures
        match find_text(texts, path) {
            Some(i) => 0 <= i < texts.len() && path_key(texts[i].path@) == path_key(path) && forall|k: int|
                0 <= k < i ==> path_key(texts[k].path@) != path_key(path),
            None => forall|k: int| 0 <= k < texts.len() ==> path_key(texts[k].path@) != path_key(path),
        },
    decreases texts.len(),
{
    if texts.len() > 0 {
        lemma_find_text_props(texts.drop_first(), path);
        if path_key(texts[0].path@) != path_key(path) {
            match find_text(texts.drop_first(), path) {
                Some(j) => {
                    assert forall|k: int| 0 <= k < j + 1 implies path_key(texts[k].path@) != path_key(path) by {
                        if k > 0 {
                            assert(texts[k] == texts.drop_first()[k - 1]);
                        }
                    }
                },
                None => {
                    assert forall|k: int| 0 <= k < texts.len() implies path_key(texts[k].path@) != path_key(path) by {
                        if k > 0 {
                            assert(texts[k] == texts.drop_first()[k - 1]);
                        }
                    }
                },
            }
        }
    }
}

/// The file lookup finds the same file in two file lists that agree on
/// every index except one whose paths both differ from the path sought.
proof fn lemma_file_at_other(a: Seq<MDFile>, b: Seq<MDFile>, i: int, q: Seq<char>)
    requires
        a.len() <= b.len(),
        forall|k: int| 0 <= k < a.len() && k != i ==> b[k] == a[k],
        0 <= i < b.len() ==> path_key(b[i].path@) != path_key(q),
        0 <= i < a.len() ==> path_key(a[i].path@) != path_key(q),
        b.len() <= a.len() + 1,
        b.len() == a.len() + 1 ==> i == a.len(),
    ensures
        file_at(b, q) == file_at(a, q),
{
    lemma_find_file_props(a, q);
    match find_file(a, q) {
        Some(j) => {
            assert forall|k: int| 0 <= k < j implies path_key(b[k].path@) != path_key(q) by {
                if k != i {
                    assert(b[k] == a[k]);
                }
            }
            lemma_find_file(b, q, j);
        },
        None => {
            assert forall|k: int| 0 <= k < b.len() implies path_key(b[k].path@) != path_key(q) by {
                if k != i {
                    assert(b[k] == a[k]);
                }
            }
            lemma_find_file(b, q, b.len() as int);
        },
    }
}

proof fn lemma_text_at_other(a: Seq<FileText>, b: Seq<FileText>, i: int, q: Seq<char>)
    requires
        a.len() <= b.len(),
        forall|k: int| 0 <= k < a.len() && k != i ==> b[k] == a[k],
        0 <= i < b.len() ==> path_key(b[i].path@) != path_key(q),
        0 <= i < a.len() ==> path_key(a[i].path@) != path_key(q),
        b.len() <= a.len() + 1,
        b.len() == a.len() + 1 ==> i == a.len(),
    ensures
        text_at(b, q) == text_at(a, q),
{
    lemma_find_text_props(a, q);
    match find_text(a, q) {
        Some(j) => {
            assert forall|k: int| 0 <= k < j implies path_key(b[k].path@) != path_key(q) by {
                if k != i {
                    assert(b[k] == a[k]);
                }
            }
            lemma_find_text(b, q, j);
        },
        None => {
            assert forall|k: int| 0 <= k < b.len() implies path_key(b[k].path@) != path_key(q) by {
                if k != i {
                    assert(b[k] == a[k]);
                }
            }
            lemma_find_text(b, q, b.len() as int);
        },
    }
}

proof fn lemma_find_update_file(files: Seq<MDFile>, i: int, f: MDFile, path: Seq<char>)
    requires
        find_file(files, path) == Some(i),
        f.path@ == path,
    ensures
        file_at(files.update(i, f), path) == Some(f),
        forall|q: Seq<char>| path_key(q) != path_key(path) ==> file_at(files.update(i, f), q) == file_at(files, q),
{
    lemma_find_file_props(files, path);
    let b = files.update(i, f);
    lemma_find_file(b, path, i);
    assert forall|q: Seq<char>| path_key(q) != path_key(path) implies file_at(b, q) == file_at(files, q) by {
        lemma_file_at_other(files, b, i, q);
    }
}

proof fn lemma_find_push_file(files: Seq<MDFile>, f: MDFile, path: Seq<char>)
    requires
        find_file(files, path) is None,
        f.path@ == path,
    ensures
        file_at(files.push(f), path) == Some(f),
        forall|q: Seq<char>| path_key(q) != path_key(path) ==> file_at(files.push(f), q) == file_at(files, q),
{
    lemma_find_file_props(files, path);
    let b = files.push(f);
    lemma_find_file(b, path, files.len() as int);
    assert forall|q: Seq<char>| path_key(q) != path_key(path) implies file_at(b, q) == file_at(files, q) by {
        lemma_file_at_other(files, b, files.len() as int, q);
    }
}

proof fn lemma_find_update_text(texts: Seq<FileText>, i: int, t: FileText, path: Seq<char>)
    requires
        find_text(texts, path) == Some(i),
        t.path@ == path,
    ensures
        text_at(texts.update(i, t), path) == Some(t.text@),
        forall|q: Seq<char>| path_key(q) != path_key(path) ==> text_at(texts.update(i, t), q) == text_at(texts, q),
{
    lemma_find_text_props(texts, path);
    let b = texts.update(i, t);
    lemma_find_text(b, path, i);
    assert forall|q: Seq<char>| path_key(q) != path_key(path) implies text_at(b, q) == text_at(texts, q) by {
        lemma_text_at_other(texts, b, i, q);
    }
}

proof fn lemma_find_push_text(texts: Seq<FileText>, t: FileText, path: Seq<char>)
    requires
        find_text(texts, path) is None,
        t.path@ == path,
    ensures
        text_at(texts.push(t), path) == Some(t.text@),
        forall|q: Seq<char>| path_key(q) != path_key(path) ==> text_at(texts.push(t), q) == text_at(texts, q),
{
    lemma_find_text_props(texts, path);
    let b = texts.push(t);
    lemma_find_text(b, path, texts.len() as int);
    assert forall|q: Seq<char>| path_key(q) != path_key(path) implies text_at(b, q) == text_at(texts, q) by {
        lemma_text_at_other(texts, b, texts.len() as int, q);
    }
}


proof fn lemma_all_refs_step(files: Seq<MDFile>, i: int)
    requires
        0 <= i < files.len(),
    ensures
        all_refs(files.subrange(0, i + 1)) == all_refs(files.subrange(0, i)) + refs_of(files[i]),
{
    assert(files.subrange(0, i + 1).drop_last() =~= files.subrange(0, i));
}

proof fn lemma_all_symbols_step(files: Seq<MDFile>, i: int)
    requires
        0 <= i < files.len(),
    ensures
        all_symbols(files.subrange(0, i + 1)) == all_symbols(files.subrange(0, i)) + symbols_of(
            files[i],
        ),
{
    assert(files.subrange(0, i + 1).drop_last() =~= files.subrange(0, i));
}

proof fn lemma_all_resolved_step(files: Seq<MDFile>, i: int)
    requires
        0 <= i < files.len(),
    ensures
        all_resolved(files.subrange(0, i + 1)) == all_resolved(files.subrange(0, i))
            + file_referenceables(files[i]),
{
    assert(files.subrange(0, i + 1).drop_last() =~= files.subrange(0, i));
}

/// Whether a text is among the given texts.
fn texts_contain(names: &Vec<String>, t: &str) -> (r: bool)
    ensures
        r == names@.map_values(|s: String| s@).contains(t@),
{
    let ghost nv = names@.map_values(|s: String| s@);
    let mut i: usize = 0;
    while i < names.len()
        invariant
            i <= names.len(),
            nv == names@.map_values(|s: String| s@),
            forall|k: int| 0 <= k < i ==> nv[k] != t@,
        decreases names.len() - i,
    {
        if str_eq(names[i].as_str(), t) {
            assert(nv[i as int] == t@);
            return true;
        }
        i += 1;
    }
    false
}

impl Vault {
    /// Select all references in the file at `path` if given, else all
    /// references of the vault.
    pub fn select_references<'a>(&'a self, path: Option<&str>) -> (r: Vec<(&'a String, &'a Reference)>)
        ensures
            pair_views(r@) == spec_select_references(
                self.md_files@,
                match path {
                    Some(p) => Some(p@),
                    None => None,
                },
            ),
    {
        match path {
            Some(p) => {
                let mut out: Vec<(&'a String, &'a Reference)> = Vec::new();
                match self.get_file(p) {
                    Some(f) => {
                        proof {
                            lemma_find_file_props(self.md_files@, p@);
                        }
                        let mut j: usize = 0;
                        while j < f.references.len()
                            invariant
                                j <= f.references.len(),
                                pair_views(out@) == f.references@.subrange(0, j as int).map_values(
                                    |r: Reference| (f.path@, r@),
                                ),
                            decreases f.references.len() - j,
                        {
                            let ghost old_out = pair_views(out@);
                            out.push((&f.path, &f.references[j]));
                            assert(pair_views(out@) =~= old_out.push((f.path@, f.references@[j as int]@)));
                            assert(f.references@.subrange(0, j + 1) =~= f.references@.subrange(
                                0,
                                j as int,
                            ).push(f.references@[j as int]));
                            assert(pair_views(out@) =~= f.references@.subrange(
                                0,
                                j + 1,
                            ).map_values(|r: Reference| (f.path@, r@)));
                            j += 1;
                        }
                        assert(f.references@.subrange(0, j as int) =~= f.references@);
                        proof {
                            lemma_find_file_props(self.md_files@, p@);
                        }
                    },
                    None => {
                        assert(pair_views(out@) =~= Seq::<(Seq<char>, ReferenceView)>::empty());
                    },
                }
                out
            },
            None => {
                let mut out: Vec<(&'a String, &'a Reference)> = Vec::new();
                let mut i: usize = 0;
                assert(all_refs(self.md_files@.subrange(0, 0)) =~= Seq::empty());
                assert(pair_views(out@) =~= Seq::<(Seq<char>, ReferenceView)>::empty());
                while i < self.md_files.len()
                    invariant
                        i <= self.md_files.len(),
                        pair_views(out@) == all_refs(self.md_files@.subrange(0, i as int)),
                    decreases self.md_files.len() - i,
                {
                    let f = &self.md_files[i];
                    let ghost before = pair_views(out@);
                    let mut j: usize = 0;
                    while j < f.references.len()
                        invariant
                            j <= f.references.len(),
                            pair_views(out@) == before + refs_of(*f).subrange(0, j as int),
                        decreases f.references.len() - j,
                    {
                        let ghost old_out = pair_views(out@);
                        out.push((&f.path, &f.references[j]));
                        assert(pair_views(out@) =~= old_out.push((f.path@, f.references@[j as int]@)));
                        assert(refs_of(*f).subrange(0, j + 1) =~= refs_of(*f).subrange(
                            0,
                            j as int,
                        ).push((f.path@, f.references@[j as int]@)));
                        assert(pair_views(out@) =~= before + refs_of(*f).subrange(0, j + 1));
                        j += 1;
                    }
                    assert(refs_of(*f).subrange(0, j as int) =~= refs_of(*f));
                    proof {
                        lemma_all_refs_step(self.md_files@, i as int);
                    }
                    i += 1;
                }
                assert(self.md_files@.subrange(0, i as int) =~= self.md_files@);
                out
            },
        }
    }

    /// Select all MyST symbols in the file at `path` if given, else all of the vault.
    pub fn select_myst_symbols<'a>(&'a self, path: Option<&str>) -> (r: Vec<(&'a String, &'a MystSymbol)>)
        ensures
            symbol_views(r@) == spec_select_symbols(
                self.md_files@,
                match path {
                    Some(p) => Some(p@),
                    None => None,
                },
            ),
    {
        match path {
            Some(p) => {
                let mut out: Vec<(&'a String, &'a MystSymbol)> = Vec::new();
                match self.get_file(p) {
                    Some(f) => {
                        proof {
                            lemma_find_file_props(self.md_files@, p@);
                        }
                        let mut j: usize = 0;
                        while j < f.myst_symbols.len()
                            invariant
                                j <= f.myst_symbols.len(),
                                symbol_views(out@) == f.myst_symbols@.subrange(
                                    0,
                                    j as int,
                                ).map_values(|s: MystSymbol| (f.path@, s)),
                            decreases f.myst_symbols.len() - j,
                        {
                            let ghost old_out = symbol_views(out@);
                            out.push((&f.path, &f.myst_symbols[j]));
                            assert(symbol_views(out@) =~= old_out.push((f.path@, f.myst_symbols@[j as int])));
                            assert(f.myst_symbols@.subrange(0, j + 1) =~= f.myst_symbols@.subrange(
                                0,
                                j as int,
                            ).push(f.myst_symbols@[j as int]));
                            assert(symbol_views(out@) =~= f.myst_symbols@.subrange(
                                0,
                                j + 1,
                            ).map_values(|s: MystSymbol| (f.path@, s)));
                            j += 1;
                        }
                        assert(f.myst_symbols@.subrange(0, j as int) =~= f.myst_symbols@);
                    },
                    None => {
                        assert(symbol_views(out@) =~= Seq::<(Seq<char>, MystSymbol)>::empty());
                    },
                }
                out
            },
            None => {
                let mut out: Vec<(&'a String, &'a MystSymbol)> = Vec::new();
                let mut i: usize = 0;
                assert(all_symbols(self.md_files@.subrange(0, 0)) =~= Seq::empty());
                assert(symbol_views(out@) =~= Seq::<(Seq<char>, MystSymbol)>::empty());
                while i < self.md_files.len()
                    invariant
                        i <= self.md_files.len(),
                        symbol_views(out@) == all_symbols(self.md_files@.subrange(0, i as int)),
                    decreases self.md_files.len() - i,
                {
                    let f = &self.md_files[i];
                    let ghost before = symbol_views(out@);
                    let mut j: usize = 0;
                    while j < f.myst_symbols.len()
                        invariant
                            j <= f.myst_symbols.len(),
                            symbol_views(out@) == before + symbols_of(*f).subrange(0, j as int),
                        decreases f.myst_symbols.len() - j,
                    {
                        let ghost old_out = symbol_views(out@);
                        out.push((&f.path, &f.myst_symbols[j]));
                        assert(symbol_views(out@) =~= old_out.push((f.path@, f.myst_symbols@[j as int])));
                        assert(symbols_of(*f).subrange(0, j + 1) =~= symbols_of(*f).subrange(
                            0,
                            j as int,
                        ).push((f.path@, f.myst_symbols@[j as int])));
                        assert(symbol_views(out@) =~= before + symbols_of(*f).subrange(0, j + 1));
                        j += 1;
                    }
                    assert(symbols_of(*f).subrange(0, j as int) =~= symbols_of(*f));
                    proof {
                        lemma_all_symbols_step(self.md_files@, i as int);
                    }
                    i += 1;
                }
                assert(self.md_files@.subrange(0, i as int) =~= self.md_files@);
                out
            },
        }
    }

    fn select_symbols_of_kind<'a>(&'a self, path: Option<&str>, kind: MystSymbolKind) -> (r: Vec<
        (&'a String, &'a MystSymbol),
    >)
        ensures
            symbol_views(r@) == spec_select_symbols(
                self.md_files@,
                match path {
                    Some(p) => Some(p@),
                    None => None,
                },
            ).filter(kind_pred(kind)),
    {
        let all = self.select_myst_symbols(path);
        let ghost av = symbol_views(all@);
        let mut out: Vec<(&'a String, &'a MystSymbol)> = Vec::new();
        let mut i: usize = 0;
        assert(av.subrange(0, 0).filter(kind_pred(kind)) =~= Seq::empty()) by {
            reveal_with_fuel(Seq::filter, 1);
        }
        assert(symbol_views(out@) =~= Seq::<(Seq<char>, MystSymbol)>::empty());
        while i < all.len()
            invariant
                i <= all.len(),
                av == symbol_views(all@),
                symbol_views(out@) == av.subrange(0, i as int).filter(kind_pred(kind)),
            decreases all.len() - i,
        {
            let item = all[i];
            proof {
                assert(av.subrange(0, i + 1).drop_last() =~= av.subrange(0, i as int));
                assert(av.subrange(0, i + 1).last() == av[i as int]);
                reveal_with_fuel(Seq::filter, 1);
            }
            if item.1.kind == kind {
                out.push(item);
                assert(symbol_views(out@) =~= av.subrange(0, i + 1).filter(kind_pred(kind)));
            } else {
                assert(symbol_views(out@) =~= av.subrange(0, i + 1).filter(kind_pred(kind)));
            }
            i += 1;
        }
        assert(av.subrange(0, i as int) =~= av);
        out
    }

    /// Select MyST directives (```{note}, ```{warning}, ...) in a file or the vault.
    pub fn select_myst_directives<'a>(&'a self, path: Option<&str>) -> (r: Vec<
        (&'a String, &'a MystSymbol),
    >)
        ensures
            symbol_views(r@) == spec_select_symbols(
                self.md_files@,
                match path {
                    Some(p) => Some(p@),
                    None => None,
                },
            ).filter(kind_pred(MystSymbolKind::Directive)),
    {
        self.select_symbols_of_kind(path, MystSymbolKind::Directive)
    }

    /// Select MyST anchors ((target-name)=) in a file or the vault.
    pub fn select_myst_anchors<'a>(&'a self, path: Option<&str>) -> (r: Vec<(&'a String, &'a MystSymbol)>)
        ensures
            symbol_views(r@) == spec_select_symbols(
                self.md_files@,
                match path {
                    Some(p) => Some(p@),
                    None => None,
                },
            ).filter(kind_pred(MystSymbolKind::Anchor)),
    {
        self.select_symbols_of_kind(path, MystSymbolKind::Anchor)
    }

    /// The headings of the file at `path`.
    pub fn select_headings(&self, path: &str) -> (r: Option<&Vec<MDHeading>>)
        ensures
            match r {
                Some(h) => file_at(self.md_files@, path@) is Some && h@ == file_at(
                    self.md_files@,
                    path@,
                )->0.headings@,
                None => file_at(self.md_files@, path@) is None,
            },
    {
        match self.get_file(path) {
            Some(f) => Some(&f.headings),
            None => None,
        }
    }

    /// The characters of line `line` of the file at `path`, line break included.
    pub fn select_line(&self, path: &str, line: isize) -> (r: Option<Vec<char>>)
        ensures
            match r {
                Some(v) => line >= 0 && text_at(self.ropes@, path@) is Some && rope_line(
                    text_at(self.ropes@, path@)->0,
                    line as nat,
                ) == Some(v@),
                None => line < 0 || text_at(self.ropes@, path@) is None || rope_line(
                    text_at(self.ropes@, path@)->0,
                    line as nat,
                ) is None,
            },
    {
        let text = match self.get_text(path) {
            Some(t) => t,
            None => return None,
        };
        if line < 0 {
            return None;
        }
        get_line(text.as_str(), line as usize)
    }
}


pub open spec fn text_views(v: Seq<String>) -> Seq<Seq<char>> {
    v.map_values(|s: String| s@)
}

proof fn lemma_name_set_step(resolved: Seq<ReferenceableView>, root_dir: Seq<char>, i: int)
    requires
        0 <= i < resolved.len(),
    ensures
        name_set(resolved.subrange(0, i + 1), root_dir) == name_set(resolved.subrange(0, i), root_dir)
            + resolved_names(spec_refname(resolved[i], root_dir)),
{
    assert(resolved.subrange(0, i + 1).drop_last() =~= resolved.subrange(0, i));
}

/// Whether some reference before index `i` has the same text as reference `i`.
fn earlier_same_text<'a>(refs: &Vec<(&'a String, &'a Reference)>, i: usize) -> (r: bool)
    requires
        i < refs.len(),
    ensures
        r == exists|j: int|
            0 <= j < i && #[trigger] view_data(pair_views(refs@)[j].1).reference_text == view_data(
                pair_views(refs@)[i as int].1,
            ).reference_text,
{
    let ghost pv = pair_views(refs@);
    let t = &refs[i].1.data().reference_text;
    let mut j: usize = 0;
    while j < i
        invariant
            j <= i < refs.len(),
            pv == pair_views(refs@),
            t@ == view_data(pv[i as int].1).reference_text,
            forall|k: int| 0 <= k < j ==> view_data(pv[k].1).reference_text != t@,
        decreases i - j,
    {
        if str_eq(refs[j].1.data().reference_text.as_str(), t.as_str()) {
            assert(view_data(pv[j as int].1).reference_text == t@);
            return true;
        }
        j += 1;
    }
    false
}

impl Vault {
    fn all_resolved_exec(&self) -> (r: Vec<Referenceable<'_>>)
        ensures
            views(r@) == all_resolved(self.md_files@),
    {
        let mut out: Vec<Referenceable> = Vec::new();
        let mut i: usize = 0;
        assert(all_resolved(self.md_files@.subrange(0, 0)) =~= Seq::empty());
        assert(views(out@) =~= Seq::<ReferenceableView>::empty());
        while i < self.md_files.len()
            invariant
                i <= self.md_files.len(),
                views(out@) == all_resolved(self.md_files@.subrange(0, i as int)),
            decreases self.md_files.len() - i,
        {
            let mut items = self.md_files[i].get_referenceables();
            let ghost before = views(out@);
            let ghost added = views(items@);
            out.append(&mut items);
            assert(views(out@) =~= before + added);
            proof {
                lemma_all_resolved_step(self.md_files@, i as int);
            }
            i += 1;
        }
        assert(self.md_files@.subrange(0, i as int) =~= self.md_files@);
        out
    }

    fn resolved_names_exec(&self, resolved: &Vec<Referenceable>) -> (r: Vec<String>)
        ensures
            text_views(r@) == name_set(views(resolved@), self.spec_root_dir()),
    {
        let ghost rv = views(resolved@);
        let mut out: Vec<String> = Vec::new();
        let mut i: usize = 0;
        assert(name_set(rv.subrange(0, 0), self.spec_root_dir()) =~= Seq::empty());
        assert(text_views(out@) =~= Seq::<Seq<char>>::empty());
        while i < resolved.len()
            invariant
                i <= resolved.len(),
                rv == views(resolved@),
                text_views(out@) == name_set(rv.subrange(0, i as int), self.spec_root_dir()),
            decreases resolved.len() - i,
        {
            proof {
                lemma_name_set_step(rv, self.spec_root_dir(), i as int);
            }
            let ghost before = text_views(out@);
            match resolved[i].get_refname(self.root_dir.as_str()) {
                Some(n) => match n.link_file_key() {
                    Some(key) => {
                        let tail = match &n.infile_ref {
                            Some(inf) => {
                                let hash = vec!['#'];
                                assert(hash@ =~= seq!['#']);
                                let h = crate::text::string_of(&hash);
                                concat(h.as_str(), inf.as_str())
                            },
                            None => String::new(),
                        };
                        let second = concat(key.as_str(), tail.as_str());
                        out.push(n.full_refname);
                        out.push(second);
                        assert(text_views(out@) =~= before + resolved_names(
                            spec_refname(rv[i as int], self.spec_root_dir()),
                        ));
                    },
                    None => {
                        assert(text_views(out@) =~= before + resolved_names(
                            spec_refname(rv[i as int], self.spec_root_dir()),
                        ));
                    },
                },
                None => {
                    assert(text_views(out@) =~= before + resolved_names(
                        spec_refname(rv[i as int], self.spec_root_dir()),
                    ));
                },
            }
            i += 1;
        }
        assert(rv.subrange(0, i as int) =~= rv);
        out
    }

    /// The references of `refs` whose text occurs in no earlier reference.
    fn first_by_text_exec<'a>(refs: &Vec<(&'a String, &'a Reference)>) -> (r: Vec<
        (&'a String, &'a Reference),
    >)
        ensures
            pair_views(r@) == first_by_text(pair_views(refs@)),
    {
        let ghost pv = pair_views(refs@);
        let mut out: Vec<(&'a String, &'a Reference)> = Vec::new();
        let mut i: usize = 0;
        assert(first_by_text(pv.subrange(0, 0)) =~= Seq::empty());
        assert(pair_views(out@) =~= Seq::<(Seq<char>, ReferenceView)>::empty());
        while i < refs.len()
            invariant
                i <= refs.len(),
                pv == pair_views(refs@),
                pair_views(out@) == first_by_text(pv.subrange(0, i as int)),
            decreases refs.len() - i,
        {
            let seen = earlier_same_text(refs, i);
            proof {
                let s = pv.subrange(0, i + 1);
                assert(s.drop_last() =~= pv.subrange(0, i as int));
                assert(s.last() == pv[i as int]);
                assert forall|j: int| 0 <= j < i implies s[j] == pv[j] by {}
                if seen {
                    let j = choose|j: int|
                        0 <= j < i && #[trigger] view_data(pv[j].1).reference_text == view_data(
                            pv[i as int].1,
                        ).reference_text;
                    assert(view_data(s[j].1).reference_text == view_data(s.last().1).reference_text);
                } else {
                    assert forall|j: int| 0 <= j < s.len() - 1 implies #[trigger] view_data(
                        s[j].1,
                    ).reference_text != view_data(s.last().1).reference_text by {
                        assert(s[j] == pv[j]);
                    }
                }
            }
            if !seen {
                let ghost before = pair_views(out@);
                out.push(refs[i]);
                assert(pair_views(out@) =~= before.push(pv[i as int]));
            }
            i += 1;
        }
        assert(pv.subrange(0, i as int) =~= pv);
        out
    }

    /// The unresolved link targets among `refs` whose text is not in `names`.
    fn unresolved_exec<'a>(&'a self, refs: &Vec<(&'a String, &'a Reference)>, names: &Vec<String>) -> (r:
        Vec<Referenceable<'a>>)
        ensures
            views(r@) == unresolved_of(pair_views(refs@), text_views(names@), self.spec_root_dir()),
    {
        let ghost pv = pair_views(refs@);
        let mut out: Vec<Referenceable<'a>> = Vec::new();
        let mut i: usize = 0;
        assert(unresolved_of(pv.subrange(0, 0), text_views(names@), self.spec_root_dir())
            =~= Seq::empty());
        assert(views(out@) =~= Seq::<ReferenceableView>::empty());
        while i < refs.len()
            invariant
                i <= refs.len(),
                pv == pair_views(refs@),
                views(out@) == unresolved_of(
                    pv.subrange(0, i as int),
                    text_views(names@),
                    self.spec_root_dir(),
                ),
            decreases refs.len() - i,
        {
            let reference: &'a Reference = refs[i].1;
            proof {
                let s = pv.subrange(0, i + 1);
                assert(s.drop_last() =~= pv.subrange(0, i as int));
                assert(s.last() == pv[i as int]);
            }
            let known = texts_contain(names, reference.data().reference_text.as_str());
            let ghost before = views(out@);
            if !known {
                match reference {
                    Reference::MDFileLink(data) => {
                        let path = join(self.root_dir.as_str(), data.reference_text.as_str());
                        out.push(Referenceable::UnresolvedFile(path, &data.reference_text));
                        assert(views(out@) =~= before.push(
                            unresolved_for(reference@, self.spec_root_dir())->0,
                        ));
                    },
                    Reference::MDHeadingLink(_data, end_path, heading) => {
                        let path = join(self.root_dir.as_str(), end_path.as_str());
                        out.push(Referenceable::UnresolvedHeading(path, end_path, heading));
                        assert(views(out@) =~= before.push(
                            unresolved_for(reference@, self.spec_root_dir())->0,
                        ));
                    },
                    Reference::MDIndexedBlockLink(_data, end_path, index) => {
                        let path = join(self.root_dir.as_str(), end_path.as_str());
                        out.push(Referenceable::UnresolvedIndexedBlock(path, end_path, index));
                        assert(views(out@) =~= before.push(
                            unresolved_for(reference@, self.spec_root_dir())->0,
                        ));
                    },
                    _ => {},
                }
            }
            i += 1;
        }
        assert(pv.subrange(0, i as int) =~= pv);
        out
    }

    /// Select all referenceables of the file at `path` if given; else every
    /// referenceable of the vault followed by the unresolved link targets.
    pub fn select_referenceable_nodes<'a>(&'a self, path: Option<&str>) -> (r: Vec<Referenceable<'a>>)
        ensures
            views(r@) == spec_select_referenceables(
                self.md_files@,
                self.spec_root_dir(),
                match path {
                    Some(p) => Some(p@),
                    None => None,
                },
            ),
    {
        match path {
            Some(p) => match self.get_file(p) {
                Some(f) => f.get_referenceables(),
                None => {
                    let out: Vec<Referenceable<'a>> = Vec::new();
                    assert(views(out@) =~= Seq::<ReferenceableView>::empty());
                    out
                },
            },
            None => {
                let mut resolved = self.all_resolved_exec();
                let names = self.resolved_names_exec(&resolved);
                let references = self.select_references(None);
                let uniq = Vault::first_by_text_exec(&references);
                let mut unresolved = self.unresolved_exec(&uniq, &names);
                let ghost a = views(resolved@);
                let ghost b = views(unresolved@);
                resolved.append(&mut unresolved);
                assert(views(resolved@) =~= a + b);
                resolved
            },
        }
    }

    /// The referenceables of the vault that `reference`, found in
    /// `reference_path`, points at.
    pub fn select_referenceables_for_reference<'a>(&'a self, reference: &Reference, reference_path: &str) -> (r:
        Vec<Referenceable<'a>>)
        ensures
            views(r@) == all_referenceables(self.md_files@, self.spec_root_dir()).filter(
                |rb: ReferenceableView|
                    spec_references(reference@, self.spec_root_dir(), reference_path@, rb),
            ),
    {
        let all = self.select_referenceable_nodes(None);
        let ghost av = views(all@);
        let ghost pred = |rb: ReferenceableView|
            spec_references(reference@, self.spec_root_dir(), reference_path@, rb);
        let mut out: Vec<Referenceable<'a>> = Vec::new();
        let mut i: usize = 0;
        assert(av.subrange(0, 0).filter(pred) =~= Seq::empty()) by {
            reveal_with_fuel(Seq::filter, 1);
        }
        assert(views(out@) =~= Seq::<ReferenceableView>::empty());
        while i < all.len()
            invariant
                i <= all.len(),
                av == views(all@),
                pred == (|rb: ReferenceableView|
                    spec_references(reference@, self.spec_root_dir(), reference_path@, rb)),
                views(out@) == av.subrange(0, i as int).filter(pred),
            decreases all.len() - i,
        {
            proof {
                assert(av.subrange(0, i + 1).drop_last() =~= av.subrange(0, i as int));
                assert(av.subrange(0, i + 1).last() == av[i as int]);
                reveal_with_fuel(Seq::filter, 1);
            }
            if reference.references(self.root_dir.as_str(), reference_path, &all[i]) {
                let ghost before = views(out@);
                out.push(all[i].duplicate());
                assert(views(out@) =~= before.push(av[i as int]));
            }
            i += 1;
        }
        assert(av.subrange(0, i as int) =~= av);
        out
    }

    /// The references of the vault that point at `referenceable`, in vault
    /// order. (Ordering them by the files' modification times is left to the
    /// caller, which can read the file system.)
    pub fn select_references_for_referenceable<'a>(&'a self, referenceable: &Referenceable) -> (r: Option<
        Vec<(&'a String, &'a Reference)>,
    >)
        ensures
            r is Some,
            pair_views(r->0@) == all_refs(self.md_files@).filter(
                |p: (Seq<char>, ReferenceView)|
                    spec_matches_reference(referenceable@, self.spec_root_dir(), p.1, p.0),
            ),
    {
        let all = self.select_references(None);
        let ghost av = pair_views(all@);
        let ghost pred = |p: (Seq<char>, ReferenceView)|
            spec_matches_reference(referenceable@, self.spec_root_dir(), p.1, p.0);
        let mut out: Vec<(&'a String, &'a Reference)> = Vec::new();
        let mut i: usize = 0;
        assert(av.subrange(0, 0).filter(pred) =~= Seq::empty()) by {
            reveal_with_fuel(Seq::filter, 1);
        }
        assert(pair_views(out@) =~= Seq::<(Seq<char>, ReferenceView)>::empty());
        while i < all.len()
            invariant
                i <= all.len(),
                av == pair_views(all@),
                pred == (|p: (Seq<char>, ReferenceView)|
                    spec_matches_reference(referenceable@, self.spec_root_dir(), p.1, p.0)),
                pair_views(out@) == av.subrange(0, i as int).filter(pred),
            decreases all.len() - i,
        {
            proof {
                assert(av.subrange(0, i + 1).drop_last() =~= av.subrange(0, i as int));
                assert(av.subrange(0, i + 1).last() == av[i as int]);
                reveal_with_fuel(Seq::filter, 1);
            }
            let item = all[i];
            if referenceable.matches_reference(self.root_dir.as_str(), item.1, item.0.as_str()) {
                let ghost before = pair_views(out@);
                out.push(item);
                assert(pair_views(out@) =~= before.push(av[i as int]));
            }
            i += 1;
        }
        assert(av.subrange(0, i as int) =~= av);
        Some(out)
    }
}


/// A referenceable has a range that covers the position.
pub open spec fn at_position(position: Position) -> spec_fn(ReferenceableView) -> bool {
    |r: ReferenceableView| spec_range(r) is Some && box_covers(spec_range(r)->0, position)
}

/// A reference's range covers the position.
pub open spec fn ref_at_position(position: Position) -> spec_fn((Seq<char>, ReferenceView)) -> bool {
    |p: (Seq<char>, ReferenceView)| box_covers(view_data(p.1).range, position)
}

/// The referenceable of the file at `path` under the cursor: the first
/// whose range covers the position, else the file itself.
pub open spec fn spec_referenceable_at(
    files: Seq<MDFile>,
    root_dir: Seq<char>,
    path: Seq<char>,
    position: Position,
) -> Option<ReferenceableView> {
    match first_satisfying(
        spec_select_referenceables(files, root_dir, Some(path)),
        at_position(position),
    ) {
        Some(r) => Some(r),
        None => match file_at(files, path) {
            Some(f) => Some(ReferenceableView::File(f.path@, f)),
            None => None,
        },
    }
}

impl Vault {
    /// The referenceable under the cursor in the file at `path`; the file
    /// itself when nothing else covers the position.
    pub fn select_referenceable_at_position<'a>(&'a self, path: &str, position: Position) -> (r: Option<
        Referenceable<'a>,
    >)
        ensures
            match r {
                Some(x) => spec_referenceable_at(
                    self.md_files@,
                    self.spec_root_dir(),
                    path@,
                    position,
                ) == Some(x@),
                None => spec_referenceable_at(
                    self.md_files@,
                    self.spec_root_dir(),
                    path@,
                    position,
                ) is None,
            },
    {
        let nodes = self.select_referenceable_nodes(Some(path));
        let ghost nv = views(nodes@);
        let mut i: usize = 0;
        while i < nodes.len()
            invariant
                i <= nodes.len(),
                nv == views(nodes@),
                nv == spec_select_referenceables(
                    self.md_files@,
                    self.spec_root_dir(),
                    Some(path@),
                ),
                forall|k: int| 0 <= k < i ==> !(at_position(position))(nv[k]),
            decreases nodes.len() - i,
        {
            assert(nv[i as int] == nodes@[i as int]@);
            match nodes[i].get_range() {
                Some(range) => {
                    let rr = range.0;
                    if rr.start.line <= position.line && rr.end.line >= position.line
                        && rr.start.character <= position.character && rr.end.character
                        >= position.character {
                        proof {
                            lemma_first_satisfying(nv, at_position(position), i as int);
                        }
                        return Some(nodes[i].duplicate());
                    }
                },
                None => {},
            }
            i += 1;
        }
        proof {
            lemma_first_satisfying(nv, at_position(position), i as int);
            lemma_find_file_props(self.md_files@, path@);
        }
        match self.get_file(path) {
            Some(f) => Some(Referenceable::File(&f.path, f)),
            None => None,
        }
    }

    /// The reference under the cursor in the file at `path`.
    pub fn select_reference_at_position<'a>(&'a self, path: &str, position: Position) -> (r: Option<
        &'a Reference,
    >)
        ensures
            match r {
                Some(x) => (first_satisfying(
                    spec_select_references(self.md_files@, Some(path@)),
                    ref_at_position(position),
                ) matches Some(q) && q.1 == x@),
                None => first_satisfying(
                    spec_select_references(self.md_files@, Some(path@)),
                    ref_at_position(position),
                ) is None,
            },
    {
        let links = self.select_references(Some(path));
        let ghost lv = pair_views(links@);
        let mut i: usize = 0;
        while i < links.len()
            invariant
                i <= links.len(),
                lv == pair_views(links@),
                lv == spec_select_references(self.md_files@, Some(path@)),
                forall|k: int| 0 <= k < i ==> !(ref_at_position(position))(lv[k]),
            decreases links.len() - i,
        {
            assert(lv[i as int] == (links@[i as int].0@, links@[i as int].1@));
            let rr = links[i].1.data().range.0;
            if rr.start.line <= position.line && rr.end.line >= position.line && rr.start.character
                <= position.character && rr.end.character >= position.character {
                proof {
                    lemma_first_satisfying(lv, ref_at_position(position), i as int);
                }
                return Some(links[i].1);
            }
            i += 1;
        }
        proof {
            lemma_first_satisfying(lv, ref_at_position(position), i as int);
        }
        None
    }
}

} // verus!

verus! {

/// The glossary terms of a file, each with the file's path.
pub open spec fn terms_of(f: MDFile) -> Seq<(Seq<char>, GlossaryTerm)> {
    f.glossary_terms@.map_values(|t: GlossaryTerm| (f.path@, t))
}

/// All glossary terms of the vault, file by file.
pub open spec fn all_terms(files: Seq<MDFile>) -> Seq<(Seq<char>, GlossaryTerm)>
    decreases files.len(),
{
    if files.len() == 0 {
        Seq::empty()
    } else {
        all_terms(files.drop_last()) + terms_of(files.last())
    }
}

/// The glossary terms of the file at `path`, or of all files.
pub open spec fn spec_select_terms(files: Seq<MDFile>, path: Option<Seq<char>>) -> Seq<
    (Seq<char>, GlossaryTerm),
> {
    match path {
        Some(p) => match file_at(files, p) {
            Some(f) => terms_of(f),
            None => Seq::empty(),
        },
        None => all_terms(files),
    }
}

pub open spec fn term_pair_views<'a>(v: Seq<(&'a String, &'a GlossaryTerm)>) -> Seq<
    (Seq<char>, GlossaryTerm),
> {
    v.map_values(|p: (&'a String, &'a GlossaryTerm)| (p.0@, *p.1))
}

impl Vault {
    fn push_terms<'a>(f: &'a MDFile, out: &mut Vec<(&'a String, &'a GlossaryTerm)>)
        ensures
            term_pair_views(final(out)@) == term_pair_views(old(out)@) + terms_of(*f),
    {
        let ghost before = term_pair_views(out@);
        let mut j: usize = 0;
        while j < f.glossary_terms.len()
            invariant
                j <= f.glossary_terms.len(),
                term_pair_views(out@) == before + terms_of(*f).subrange(0, j as int),
            decreases f.glossary_terms.len() - j,
        {
            let ghost old_out = term_pair_views(out@);
            out.push((&f.path, &f.glossary_terms[j]));
            assert(term_pair_views(out@) =~= old_out.push((f.path@, f.glossary_terms@[j as int])));
            assert(terms_of(*f).subrange(0, j + 1) =~= terms_of(*f).subrange(0, j as int).push(
                (f.path@, f.glossary_terms@[j as int]),
            ));
            j += 1;
        }
        assert(terms_of(*f).subrange(0, j as int) =~= terms_of(*f));
    }

    /// Select the glossary terms of the file at `path` if given, else all of
    /// the vault.
    pub fn select_glossary_terms<'a>(&'a self, path: Option<&str>) -> (r: Vec<(&'a String, &'a GlossaryTerm)>)
        ensures
            term_pair_views(r@) == spec_select_terms(
                self.md_files@,
                match path {
                    Some(p) => Some(p@),
                    None => None,
                },
            ),
    {
        let mut out: Vec<(&'a String, &'a GlossaryTerm)> = Vec::new();
        assert(term_pair_views(out@) =~= Seq::<(Seq<char>, GlossaryTerm)>::empty());
        match path {
            Some(p) => {
                match self.get_file(p) {
                    Some(f) => {
                        proof {
                            lemma_find_file_props(self.md_files@, p@);
                        }
                        Vault::push_terms(f, &mut out);
                        assert(term_pair_views(out@) =~= terms_of(*f));
                    },
                    None => {},
                }
                out
            },
            None => {
                let mut i: usize = 0;
                assert(all_terms(self.md_files@.subrange(0, 0)) =~= Seq::empty());
                while i < self.md_files.len()
                    invariant
                        i <= self.md_files.len(),
                        term_pair_views(out@) == all_terms(self.md_files@.subrange(0, i as int)),
                    decreases self.md_files.len() - i,
                {
                    Vault::push_terms(&self.md_files[i], &mut out);
                    assert(self.md_files@.subrange(0, i + 1).drop_last() =~= self.md_files@.subrange(0, i as int));
                    i += 1;
                }
                assert(self.md_files@.subrange(0, i as int) =~= self.md_files@);
                out
            },
        }
    }
}

} // verus!
