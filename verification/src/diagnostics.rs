//! Diagnostics for MyST Markdown documents.
//!
//! | Type | Severity |
//! |------|----------|
//! | Broken link or MyST role, undefined substitution | Information |
//! | Missing image file | Warning |
//! | Frontmatter error | Warning |
//! | Include cycle | Error |
//!
//! Whether an image file exists, what the frontmatter schema says, and which
//! include cycles the vault has are found by the caller (they need the file
//! system and the include graph); this module decides what is reported.

use vstd::prelude::*;

use crate::config::Settings;
use crate::frontmatter_schema::{FrontmatterValidationError, FrontmatterValidationResult};
use crate::lsp::{Diagnostic, DiagnosticSeverity};
use crate::text::{chars_of, concat, concat3, join_strings, join_words, starts_with, str_eq, string_of, sub_vec};
use crate::vault::ast_refs::is_external_url;
use crate::vault::file::views;
use crate::vault::paths::{file_name, join, parent, path_file_name, path_join, path_parent};
use crate::vault::reference::{diagnostic_message, variant_index, view_data, Reference, ReferenceView};
use crate::vault::referenceable::{spec_references, Referenceable, ReferenceableView};
use crate::vault::store::{
    first_satisfying, lemma_first_satisfying, pair_views, spec_select_referenceables,
    spec_select_references,
};
use crate::vault::types::{Position, Range};
use crate::vault::Vault;

verus! {

/// The source every diagnostic names.
pub open spec fn charip_source() -> Seq<char> {
    "charip"@
}

/// A diagnostic as plain values.
pub struct DiagnosticView {
    pub range: Range,
    pub message: Seq<char>,
    pub severity: DiagnosticSeverity,
    pub source: Seq<char>,
}

pub open spec fn diag_view(d: Diagnostic) -> DiagnosticView {
    DiagnosticView { range: d.range, message: d.message@, severity: d.severity, source: d.source@ }
}

pub open spec fn diag_views(v: Seq<Diagnostic>) -> Seq<DiagnosticView> {
    v.map_values(|d: Diagnostic| diag_view(d))
}

// ---------------------------------------------------------------------------
// Unresolved references
// ---------------------------------------------------------------------------

/// The referenceables that a reference in `path` points at.
pub open spec fn points_at(root: Seq<char>, path: Seq<char>, reference: ReferenceView) -> spec_fn(
    ReferenceableView,
) -> bool {
    |r: ReferenceableView| spec_references(reference, root, path, r)
}

/// The stand-ins for link targets that do not exist.
pub open spec fn is_unresolved_marker(r: ReferenceableView) -> bool {
    r is UnresolvedIndexedBlock || r is UnresolvedFile || r is UnresolvedHeading
}

/// A reference (with the path it is in) is unresolved when the first
/// referenceable it points at is a stand-in for a missing target, or when a
/// MyST role or a substitution points at nothing.
pub open spec fn unresolved_entry(refs: Seq<ReferenceableView>, root: Seq<char>) -> spec_fn(
    (Seq<char>, ReferenceView),
) -> bool {
    |p: (Seq<char>, ReferenceView)|
        match first_satisfying(refs, points_at(root, p.0, p.1)) {
            Some(m) => is_unresolved_marker(m),
            None => p.1 is MystRole || p.1 is Substitution,
        }
}

/// The unresolved references of the file at `path`, in its order.
pub open spec fn spec_unresolved_references(vault: Vault, path: Seq<char>) -> Seq<
    (Seq<char>, ReferenceView),
> {
    spec_select_references(vault.md_files@, Some(path)).filter(
        unresolved_entry(
            spec_select_referenceables(vault.md_files@, vault.root_dir@, None),
            vault.root_dir@,
        ),
    )
}

/// The first element of `s` that satisfies `pred` exists and satisfies it
/// once some element does.
proof fn lemma_first_satisfying_found<T>(s: Seq<T>, pred: spec_fn(T) -> bool, k: int)
    requires
        0 <= k < s.len(),
        pred(s[k]),
    ensures
        first_satisfying(s, pred) matches Some(m) && pred(m),
    decreases s.len(),
{
    if !pred(s[0]) {
        assert(s.drop_first()[k - 1] == s[k]);
        lemma_first_satisfying_found(s.drop_first(), pred, k - 1);
    }
}

/// A MyST role or a substitution of the file at `path` that points at no
/// referenceable of the vault is among the file's unresolved references
/// (and so gets a diagnostic); a substitution that points at some
/// referenceable of the vault is not.
pub proof fn lemma_dangling_roles_and_substitutions_reported(
    vault: Vault,
    path: Seq<char>,
    e: (Seq<char>, ReferenceView),
)
    requires
        spec_select_references(vault.md_files@, Some(path)).contains(e),
    ensures
        (e.1 is MystRole || e.1 is Substitution) && (forall|r: ReferenceableView|
            spec_select_referenceables(vault.md_files@, vault.root_dir@, None).contains(r)
                ==> !#[trigger] spec_references(e.1, vault.root_dir@, e.0, r))
            ==> spec_unresolved_references(vault, path).contains(e),
        e.1 is Substitution && (exists|r: ReferenceableView|
            spec_select_referenceables(vault.md_files@, vault.root_dir@, None).contains(r)
                && #[trigger] spec_references(e.1, vault.root_dir@, e.0, r))
            ==> !spec_unresolved_references(vault, path).contains(e),
{
    broadcast use vstd::seq_lib::group_filter_ensures;

    let sel = spec_select_references(vault.md_files@, Some(path));
    let refs = spec_select_referenceables(vault.md_files@, vault.root_dir@, None);
    let root = vault.root_dir@;
    let pred = unresolved_entry(refs, root);
    let j = choose|j: int| 0 <= j < sel.len() && sel[j] == e;
    if (e.1 is MystRole || e.1 is Substitution) && (forall|r: ReferenceableView|
        refs.contains(r) ==> !#[trigger] spec_references(e.1, root, e.0, r)) {
        assert forall|k: int| 0 <= k < refs.len() implies !(points_at(root, e.0, e.1))(refs[k]) by {
            assert(refs.contains(refs[k]));
        }
        lemma_first_satisfying(refs, points_at(root, e.0, e.1), refs.len() as int);
        assert(pred(sel[j]));
        assert(sel.filter(pred).contains(sel[j]));
    }
    if e.1 is Substitution && (exists|r: ReferenceableView|
        refs.contains(r) && #[trigger] spec_references(e.1, root, e.0, r)) {
        let r = choose|r: ReferenceableView|
            refs.contains(r) && #[trigger] spec_references(e.1, root, e.0, r);
        let k = choose|k: int| 0 <= k < refs.len() && refs[k] == r;
        lemma_first_satisfying_found(refs, points_at(root, e.0, e.1), k);
        let m = first_satisfying(refs, points_at(root, e.0, e.1))->0;
        assert(spec_references(e.1, root, e.0, m));
        assert(m is SubstitutionDef);
        assert(!pred(e));
        if sel.filter(pred).contains(e) {
            let x = choose|x: int| 0 <= x < sel.filter(pred).len() && sel.filter(pred)[x] == e;
            assert(pred(sel.filter(pred)[x]));
        }
    }
}

fn first_pointed<'a>(
    referenceables: &Vec<Referenceable<'a>>,
    root: &str,
    path: &str,
    reference: &Reference,
) -> (r: Option<usize>)
    ensures
        match r {
            Some(i) => i < referenceables.len() && first_satisfying(
                views(referenceables@),
                points_at(root@, path@, reference@),
            ) == Some(referenceables@[i as int]@),
            None => first_satisfying(views(referenceables@), points_at(root@, path@, reference@))
                is None,
        },
{
    let ghost nv = views(referenceables@);
    let mut i: usize = 0;
    while i < referenceables.len()
        invariant
            i <= referenceables.len(),
            nv == views(referenceables@),
            forall|k: int| 0 <= k < i ==> !(points_at(root@, path@, reference@))(nv[k]),
        decreases referenceables.len() - i,
    {
        assert(nv[i as int] == referenceables@[i as int]@);
        if reference.references(root, path, &referenceables[i]) {
            proof {
                lemma_first_satisfying(nv, points_at(root@, path@, reference@), i as int);
            }
            return Some(i);
        }
        i += 1;
    }
    proof {
        lemma_first_satisfying(nv, points_at(root@, path@, reference@), i as int);
    }
    None
}

/// Find unresolved references in a file: links whose target is missing,
/// and MyST roles and substitutions that point at nothing.
pub fn path_unresolved_references<'a>(vault: &'a Vault, path: &str) -> (r: Option<
    Vec<(&'a String, &'a Reference)>,
>)
    ensures
        r is Some,
        pair_views(r->0@) == spec_unresolved_references(*vault, path@),
{
    let referenceables = vault.select_referenceable_nodes(None);
    let refs = vault.select_references(Some(path));
    let root = vault.root_dir();
    let ghost rv = views(referenceables@);
    let ghost pv = pair_views(refs@);
    let ghost pred = unresolved_entry(rv, root@);
    let mut out: Vec<(&'a String, &'a Reference)> = Vec::new();
    let mut i: usize = 0;
    assert(pv.subrange(0, 0).filter(pred) =~= Seq::empty()) by {
        reveal_with_fuel(Seq::filter, 1);
    }
    assert(pair_views(out@) =~= Seq::<(Seq<char>, ReferenceView)>::empty());
    while i < refs.len()
        invariant
            i <= refs.len(),
            rv == views(referenceables@),
            pv == pair_views(refs@),
            pred == unresolved_entry(rv, root@),
            pair_views(out@) == pv.subrange(0, i as int).filter(pred),
        decreases refs.len() - i,
    {
        let (p, reference) = refs[i];
        proof {
            assert(pv.subrange(0, i + 1).drop_last() =~= pv.subrange(0, i as int));
            assert(pv.subrange(0, i + 1).last() == pv[i as int]);
            assert(pv[i as int] == (p@, reference@));
            reveal_with_fuel(Seq::filter, 1);
        }
        let unresolved = match first_pointed(&referenceables, root.as_str(), p.as_str(), reference) {
            Some(k) => match &referenceables[k] {
                Referenceable::UnresolvedIndexedBlock(..) | Referenceable::UnresolvedFile(..)
                | Referenceable::UnresolvedHeading(..) => true,
                _ => false,
            },
            None => match reference {
                Reference::MystRole(..) | Reference::Substitution(..) => true,
                _ => false,
            },
        };
        if unresolved {
            out.push((p, reference));
        }
        assert(pair_views(out@) =~= pv.subrange(0, i + 1).filter(pred));
        i += 1;
    }
    assert(pv.subrange(0, i as int) =~= pv);
    proof {
        assert(root@ == vault.root_dir@);
    }
    Some(out)
}

// ---------------------------------------------------------------------------
// Images
// ---------------------------------------------------------------------------

/// A question about one image reference of a file: does its file exist at
/// either candidate path? `reference` is the reference's index among the
/// file's references; `found` is the caller's answer.
#[derive(Debug, Clone, PartialEq, Eq)]
pub struct ImageCheck {
    pub reference: usize,
    pub from_file_dir: String,
    pub from_root: String,
    pub found: bool,
}

/// The image path without a leading `./`.
pub open spec fn clean_image_path(p: Seq<char>) -> Seq<char> {
    if starts_with(p, "./"@) {
        p.subrange(2, p.len() as int)
    } else {
        p
    }
}

/// The directory that relative image paths of the file at `path` start
/// from: the file's directory, or the vault root.
pub open spec fn image_base_dir(path: Seq<char>, root: Seq<char>) -> Seq<char> {
    match path_parent(path) {
        Some(d) => d,
        None => root,
    }
}

/// The two places where the image of a reference may be: relative to the
/// file's directory and relative to the vault root; none for references
/// that are not images and for web or data URLs.
pub open spec fn image_candidates(r: ReferenceView, base: Seq<char>, root: Seq<char>) -> Option<
    (Seq<char>, Seq<char>),
> {
    match r {
        ReferenceView::ImageLink(d) => if is_external_url(d.reference_text) {
            None
        } else {
            let clean = clean_image_path(d.reference_text);
            Some((path_join(base, clean), path_join(root, clean)))
        },
        _ => None,
    }
}

/// The checks for the first `k` references, in order.
pub open spec fn checks_upto(
    refs: Seq<(Seq<char>, ReferenceView)>,
    k: int,
    base: Seq<char>,
    root: Seq<char>,
) -> Seq<(nat, Seq<char>, Seq<char>)>
    decreases k,
{
    if k <= 0 {
        Seq::empty()
    } else {
        checks_upto(refs, k - 1, base, root) + match image_candidates(refs[k - 1].1, base, root) {
            Some(c) => seq![((k - 1) as nat, c.0, c.1)],
            None => Seq::empty(),
        }
    }
}

/// A check as plain values (without the answer).
pub open spec fn check_view(c: ImageCheck) -> (nat, Seq<char>, Seq<char>) {
    (c.reference as nat, c.from_file_dir@, c.from_root@)
}

/// The image checks of the file at `path`.
pub open spec fn spec_image_checks(vault: Vault, path: Seq<char>) -> Seq<(nat, Seq<char>, Seq<char>)> {
    let refs = spec_select_references(vault.md_files@, Some(path));
    checks_upto(refs, refs.len() as int, image_base_dir(path, vault.root_dir@), vault.root_dir@)
}

/// The checks to make for the image references of the file at `path`, each
/// not yet answered.
pub fn image_checks(vault: &Vault, path: &str) -> (r: Vec<ImageCheck>)
    ensures
        r@.map_values(|c: ImageCheck| check_view(c)) == spec_image_checks(*vault, path@),
        forall|i: int| 0 <= i < r@.len() ==> !(#[trigger] r@[i]).found,
{
    let refs = vault.select_references(Some(path));
    let ghost pv = pair_views(refs@);
    let root = vault.root_dir();
    let base = match parent(path) {
        Some(d) => d,
        None => root.clone(),
    };
    let mut out: Vec<ImageCheck> = Vec::new();
    let mut i: usize = 0;
    while i < refs.len()
        invariant
            i <= refs.len(),
            pv == pair_views(refs@),
            root@ == vault.root_dir@,
            base@ == image_base_dir(path@, vault.root_dir@),
            out@.map_values(|c: ImageCheck| check_view(c)) == checks_upto(pv, i as int, base@, root@),
            forall|k: int| 0 <= k < out@.len() ==> !(#[trigger] out@[k]).found,
        decreases refs.len() - i,
    {
        let (_p, reference) = refs[i];
        assert(pv[i as int].1 == reference@);
        let ghost before = out@.map_values(|c: ImageCheck| check_view(c));
        match reference {
            Reference::ImageLink(data) => {
                let image_path = data.reference_text.as_str();
                if !(crate::text::str_starts_with(image_path, "http://") || crate::text::str_starts_with(
                    image_path,
                    "https://",
                ) || crate::text::str_starts_with(image_path, "data:")) {
                    let v = chars_of(image_path);
                    let clean = if crate::text::str_starts_with(image_path, "./") {
                        proof {
                            reveal_strlit("./");
                        }
                        sub_vec(&v, 2, v.len())
                    } else {
                        sub_vec(&v, 0, v.len())
                    };
                    assert(v@.subrange(0, v@.len() as int) =~= v@);
                    let clean = string_of(&clean);
                    let c = ImageCheck {
                        reference: i,
                        from_file_dir: join(base.as_str(), clean.as_str()),
                        from_root: join(root.as_str(), clean.as_str()),
                        found: false,
                    };
                    out.push(c);
                    assert(out@.map_values(|c: ImageCheck| check_view(c)) =~= before.push(check_view(c)));
                }
            },
            _ => {},
        }
        assert(out@.map_values(|c: ImageCheck| check_view(c)) =~= checks_upto(pv, i + 1, base@, root@));
        i += 1;
    }
    out
}

/// The references of the answered checks whose image was not found, in the
/// checks' order (checks naming no reference of the file are ignored).
pub open spec fn missing_images(
    refs: Seq<(Seq<char>, ReferenceView)>,
    checks: Seq<ImageCheck>,
) -> Seq<(Seq<char>, ReferenceView)>
    decreases checks.len(),
{
    if checks.len() == 0 {
        Seq::empty()
    } else {
        let c = checks.last();
        missing_images(refs, checks.drop_last()) + if !c.found && c.reference < refs.len() {
            seq![refs[c.reference as int]]
        } else {
            Seq::empty()
        }
    }
}

/// The image references of the file at `path` whose file was found at
/// neither place, given the answered checks.
pub fn path_unresolved_images<'a>(vault: &'a Vault, path: &str, checks: &Vec<ImageCheck>) -> (r: Vec<
    (&'a String, &'a Reference),
>)
    ensures
        pair_views(r@) == missing_images(spec_select_references(vault.md_files@, Some(path@)), checks@),
{
    let refs = vault.select_references(Some(path));
    let ghost pv = pair_views(refs@);
    let mut out: Vec<(&'a String, &'a Reference)> = Vec::new();
    let mut i: usize = 0;
    assert(checks@.subrange(0, 0) =~= Seq::<ImageCheck>::empty());
    assert(pair_views(out@) =~= Seq::<(Seq<char>, ReferenceView)>::empty());
    while i < checks.len()
        invariant
            i <= checks.len(),
            pv == pair_views(refs@),
            pair_views(out@) == missing_images(pv, checks@.subrange(0, i as int)),
        decreases checks.len() - i,
    {
        assert(checks@.subrange(0, i + 1).drop_last() =~= checks@.subrange(0, i as int));
        let c = &checks[i];
        if !c.found && c.reference < refs.len() {
            let ghost before = pair_views(out@);
            out.push(refs[c.reference]);
            assert(pair_views(out@) =~= before.push(pv[c.reference as int]));
        }
        assert(pair_views(out@) =~= missing_images(pv, checks@.subrange(0, i + 1)));
        i += 1;
    }
    assert(checks@.subrange(0, i as int) =~= checks@);
    out
}

// ---------------------------------------------------------------------------
// Usage counts
// ---------------------------------------------------------------------------

/// The references of `all` that count as uses of `p`'s reference: same
/// variant and same text, and (for footnotes, or always when `same_path`)
/// in the same file.
pub open spec fn same_use(p: (Seq<char>, ReferenceView), same_path: bool) -> spec_fn(
    (Seq<char>, ReferenceView),
) -> bool {
    |o: (Seq<char>, ReferenceView)|
        variant_index(o.1) == variant_index(p.1) && ((!same_path && !(p.1 is Footnote)) || o.0 == p.0)
            && view_data(o.1).reference_text == view_data(p.1).reference_text
}

/// How many references of `all` count as uses of `p`'s reference.
pub open spec fn usage_count(
    all: Seq<(Seq<char>, ReferenceView)>,
    p: (Seq<char>, ReferenceView),
    same_path: bool,
) -> nat {
    all.filter(same_use(p, same_path)).len()
}

fn count_uses<'a>(
    all: &Vec<(&'a String, &'a Reference)>,
    path: &String,
    reference: &Reference,
    same_path: bool,
) -> (r: usize)
    ensures
        r == usage_count(pair_views(all@), (path@, reference@), same_path),
{
    let ghost av = pair_views(all@);
    let ghost pred = same_use((path@, reference@), same_path);
    let is_footnote = match reference {
        Reference::Footnote(_) => true,
        _ => false,
    };
    let mut n: usize = 0;
    let mut i: usize = 0;
    assert(av.subrange(0, 0).filter(pred) =~= Seq::empty()) by {
        reveal_with_fuel(Seq::filter, 1);
    }
    while i < all.len()
        invariant
            i <= all.len(),
            av == pair_views(all@),
            pred == same_use((path@, reference@), same_path),
            is_footnote == (reference@ is Footnote),
            n == av.subrange(0, i as int).filter(pred).len(),
            n <= i,
        decreases all.len() - i,
    {
        let (op, other) = all[i];
        proof {
            assert(av.subrange(0, i + 1).drop_last() =~= av.subrange(0, i as int));
            assert(av.subrange(0, i + 1).last() == av[i as int]);
            assert(av[i as int] == (op@, other@));
            reveal_with_fuel(Seq::filter, 1);
        }
        let path_ok = if !same_path && !is_footnote {
            true
        } else {
            str_eq(op.as_str(), path.as_str())
        };
        if other.matches_type(reference) && path_ok && str_eq(
            other.data().reference_text.as_str(),
            reference.data().reference_text.as_str(),
        ) {
            n += 1;
        }
        i += 1;
    }
    assert(av.subrange(0, i as int) =~= av);
    n
}

// ---------------------------------------------------------------------------
// Frontmatter and include cycles
// ---------------------------------------------------------------------------

/// The range of frontmatter diagnostics when the frontmatter has none.
pub open spec fn first_char_range() -> Range {
    Range { start: Position { line: 0, character: 0 }, end: Position { line: 0, character: 1 } }
}

/// The message of a frontmatter error: with the error's instance path when
/// it has one.
pub open spec fn frontmatter_message(e: FrontmatterValidationError) -> Seq<char> {
    if e.instance_path@.len() == 0 {
        "Frontmatter: "@ + e.message@
    } else {
        "Frontmatter "@ + e.instance_path@ + ": "@ + e.message@
    }
}

/// One warning per frontmatter error, placed on the frontmatter block.
pub open spec fn spec_frontmatter_diagnostics(result: FrontmatterValidationResult) -> Seq<DiagnosticView> {
    result.errors@.map_values(
        |e: FrontmatterValidationError|
            DiagnosticView {
                range: match result.frontmatter_range {
                    Some(r) => r,
                    None => first_char_range(),
                },
                message: frontmatter_message(e),
                severity: DiagnosticSeverity::Warning,
                source: charip_source(),
            },
    )
}

/// Diagnostics for frontmatter schema validation errors.
pub fn frontmatter_diagnostics(result: &FrontmatterValidationResult) -> (r: Vec<Diagnostic>)
    ensures
        diag_views(r@) == spec_frontmatter_diagnostics(*result),
{
    let range = match result.frontmatter_range {
        Some(r) => r,
        None => Range { start: Position { line: 0, character: 0 }, end: Position { line: 0, character: 1 } },
    };
    let mut out: Vec<Diagnostic> = Vec::new();
    let mut i: usize = 0;
    while i < result.errors.len()
        invariant
            i <= result.errors.len(),
            range == match result.frontmatter_range {
                Some(r) => r,
                None => first_char_range(),
            },
            diag_views(out@) == spec_frontmatter_diagnostics(*result).subrange(0, i as int),
        decreases result.errors.len() - i,
    {
        let e = &result.errors[i];
        let message = if e.instance_path.as_str().is_empty() {
            concat("Frontmatter: ", e.message.as_str())
        } else {
            let head = concat3("Frontmatter ", e.instance_path.as_str(), ": ");
            concat(head.as_str(), e.message.as_str())
        };
        let d = Diagnostic {
            range,
            message,
            severity: DiagnosticSeverity::Warning,
            source: String::from_str("charip"),
        };
        let ghost before = diag_views(out@);
        proof {
            let sp = spec_frontmatter_diagnostics(*result);
            assert(result.errors@[i as int] == *e);
            assert(d.message@ == frontmatter_message(*e));
            assert(d.source@ == charip_source());
            assert(sp[i as int] == diag_view(d));
        }
        out.push(d);
        assert(diag_views(out@) =~= before.push(diag_view(d)));
        assert(diag_views(out@) =~= spec_frontmatter_diagnostics(*result).subrange(0, i + 1));
        i += 1;
    }
    assert(spec_frontmatter_diagnostics(*result).subrange(0, i as int) =~= spec_frontmatter_diagnostics(*result));
    out
}

/// A file's name as a cycle message shows it (empty when it has none).
pub open spec fn cycle_name(p: Seq<char>) -> Seq<char> {
    match path_file_name(p) {
        Some(n) => n,
        None => Seq::empty(),
    }
}

/// The message of an include cycle: the file names joined by ` -> `.
pub open spec fn cycle_message(cycle: Seq<Seq<char>>) -> Seq<char> {
    "Circular include detected: "@ + join_arrow(cycle.map_values(|p: Seq<char>| cycle_name(p)))
}

/// The names joined with ` -> `.
pub open spec fn join_arrow(ws: Seq<Seq<char>>) -> Seq<char>
    decreases ws.len(),
{
    if ws.len() == 0 {
        Seq::empty()
    } else if ws.len() == 1 {
        ws[0]
    } else {
        join_arrow(ws.drop_last()) + " -> "@ + ws.last()
    }
}

/// One error per include cycle that the file at `path` is part of.
pub open spec fn spec_cycle_diagnostics(cycles: Seq<Seq<Seq<char>>>, path: Seq<char>) -> Seq<DiagnosticView>
    decreases cycles.len(),
{
    if cycles.len() == 0 {
        Seq::empty()
    } else {
        let c = cycles.last();
        spec_cycle_diagnostics(cycles.drop_last(), path) + if c.contains(path) {
            seq![
                DiagnosticView {
                    range: first_char_range(),
                    message: cycle_message(c),
                    severity: DiagnosticSeverity::Error,
                    source: charip_source(),
                },
            ]
        } else {
            Seq::empty()
        }
    }
}

/// Cycles as plain values.
pub open spec fn cycle_views(cycles: Seq<Vec<String>>) -> Seq<Seq<Seq<char>>> {
    cycles.map_values(|c: Vec<String>| c@.map_values(|p: String| p@))
}

fn cycle_text(cycle: &Vec<String>) -> (r: String)
    ensures
        r@ == cycle_message(cycle@.map_values(|p: String| p@)),
{
    let ghost cv = cycle@.map_values(|p: String| p@);
    let mut out = String::from_str("Circular include detected: ");
    let ghost head = out@;
    let mut i: usize = 0;
    assert(cv.map_values(|p: Seq<char>| cycle_name(p)).subrange(0, 0) =~= Seq::<Seq<char>>::empty());
    while i < cycle.len()
        invariant
            i <= cycle.len(),
            cv == cycle@.map_values(|p: String| p@),
            head == "Circular include detected: "@,
            out@ == head + join_arrow(cv.map_values(|p: Seq<char>| cycle_name(p)).subrange(0, i as int)),
        decreases cycle.len() - i,
    {
        let ghost names = cv.map_values(|p: Seq<char>| cycle_name(p));
        assert(names.subrange(0, i + 1).drop_last() =~= names.subrange(0, i as int));
        let name = match file_name(cycle[i].as_str()) {
            Some(n) => n,
            None => String::new(),
        };
        assert(name@ == names[i as int]);
        if i > 0 {
            out.append(" -> ");
        }
        out.append(name.as_str());
        assert(out@ =~= head + join_arrow(names.subrange(0, i + 1)));
        i += 1;
    }
    assert(cv.map_values(|p: Seq<char>| cycle_name(p)).subrange(0, i as int) =~= cv.map_values(
        |p: Seq<char>| cycle_name(p),
    ));
    out
}

fn contains_path(cycle: &Vec<String>, path: &str) -> (r: bool)
    ensures
        r == cycle@.map_values(|p: String| p@).contains(path@),
{
    let ghost cv = cycle@.map_values(|p: String| p@);
    let mut i: usize = 0;
    while i < cycle.len()
        invariant
            i <= cycle.len(),
            cv == cycle@.map_values(|p: String| p@),
            forall|k: int| 0 <= k < i ==> cv[k] != path@,
        decreases cycle.len() - i,
    {
        if str_eq(cycle[i].as_str(), path) {
            assert(cv[i as int] == path@);
            return true;
        }
        i += 1;
    }
    false
}

/// Diagnostics for the include cycles (each a list of file paths) that the
/// file at `path` is part of.
pub fn path_include_cycles(cycles: &Vec<Vec<String>>, path: &str) -> (r: Vec<Diagnostic>)
    ensures
        diag_views(r@) == spec_cycle_diagnostics(cycle_views(cycles@), path@),
{
    let ghost cv = cycle_views(cycles@);
    let mut out: Vec<Diagnostic> = Vec::new();
    let mut i: usize = 0;
    assert(cv.subrange(0, 0) =~= Seq::<Seq<Seq<char>>>::empty());
    assert(diag_views(out@) =~= Seq::<DiagnosticView>::empty());
    while i < cycles.len()
        invariant
            i <= cycles.len(),
            cv == cycle_views(cycles@),
            diag_views(out@) == spec_cycle_diagnostics(cv.subrange(0, i as int), path@),
        decreases cycles.len() - i,
    {
        assert(cv.subrange(0, i + 1).drop_last() =~= cv.subrange(0, i as int));
        assert(cv[i as int] == cycles@[i as int]@.map_values(|p: String| p@));
        let ghost before = diag_views(out@);
        if contains_path(&cycles[i], path) {
            let d = Diagnostic {
                range: Range {
                    start: Position { line: 0, character: 0 },
                    end: Position { line: 0, character: 1 },
                },
                message: cycle_text(&cycles[i]),
                severity: DiagnosticSeverity::Error,
                source: String::from_str("charip"),
            };
            out.push(d);
            assert(diag_views(out@) =~= before.push(diag_view(d)));
        }
        assert(diag_views(out@) =~= spec_cycle_diagnostics(cv.subrange(0, i + 1), path@));
        i += 1;
    }
    assert(cv.subrange(0, i as int) =~= cv);
    out
}

// ---------------------------------------------------------------------------
// All diagnostics of a file
// ---------------------------------------------------------------------------

/// The diagnostics of unresolved references, each with its usage count.
pub open spec fn reference_diagnostics(
    entries: Seq<(Seq<char>, ReferenceView)>,
    all: Seq<(Seq<char>, ReferenceView)>,
    same_path: bool,
    severity: DiagnosticSeverity,
) -> Seq<DiagnosticView> {
    entries.map_values(
        |p: (Seq<char>, ReferenceView)|
            DiagnosticView {
                range: view_data(p.1).range,
                message: diagnostic_message(p.1, usage_count(all, p, same_path)),
                severity,
                source: charip_source(),
            },
    )
}

fn reference_diags<'a>(
    entries: &Vec<(&'a String, &'a Reference)>,
    all: &Vec<(&'a String, &'a Reference)>,
    same_path: bool,
    severity: DiagnosticSeverity,
) -> (r: Vec<Diagnostic>)
    ensures
        diag_views(r@) == reference_diagnostics(pair_views(entries@), pair_views(all@), same_path, severity),
{
    let ghost spec = reference_diagnostics(pair_views(entries@), pair_views(all@), same_path, severity);
    let mut out: Vec<Diagnostic> = Vec::new();
    let mut i: usize = 0;
    while i < entries.len()
        invariant
            i <= entries.len(),
            spec == reference_diagnostics(pair_views(entries@), pair_views(all@), same_path, severity),
            diag_views(out@) == spec.subrange(0, i as int),
        decreases entries.len() - i,
    {
        let (p, reference) = entries[i];
        assert(pair_views(entries@)[i as int] == (p@, reference@));
        let count = count_uses(all, p, reference, same_path);
        let d = Diagnostic {
            range: reference.data().range.0,
            message: reference.generate_diagnostic_message(count),
            severity,
            source: String::from_str("charip"),
        };
        let ghost before = diag_views(out@);
        proof {
            assert(d.source@ == charip_source());
            assert(d.message@ == diagnostic_message(reference@, count as nat));
            assert(spec[i as int] == diag_view(d));
        }
        out.push(d);
        assert(diag_views(out@) =~= before.push(diag_view(d)));
        assert(diag_views(out@) =~= spec.subrange(0, i + 1));
        i += 1;
    }
    assert(spec.subrange(0, i as int) =~= spec);
    out
}

/// The diagnostics of the file at `path`, when the settings ask for them:
/// unresolved references (information), images found at neither place
/// (warnings), frontmatter errors (warnings) and the include cycles the file
/// is part of (errors), in that order.
pub open spec fn spec_diagnostics(
    vault: Vault,
    settings: Settings,
    path: Seq<char>,
    checks: Seq<ImageCheck>,
    frontmatter: Option<FrontmatterValidationResult>,
    cycles: Seq<Seq<Seq<char>>>,
) -> Option<Seq<DiagnosticView>> {
    if !settings.unresolved_diagnostics {
        None
    } else {
        let all = spec_select_references(vault.md_files@, None);
        let refs = spec_select_references(vault.md_files@, Some(path));
        Some(
            reference_diagnostics(
                spec_unresolved_references(vault, path),
                all,
                false,
                DiagnosticSeverity::Information,
            ) + reference_diagnostics(missing_images(refs, checks), all, true, DiagnosticSeverity::Warning)
                + match frontmatter {
                Some(f) => spec_frontmatter_diagnostics(f),
                None => Seq::empty(),
            } + spec_cycle_diagnostics(cycles, path),
        )
    }
}

fn append_diags(out: &mut Vec<Diagnostic>, more: Vec<Diagnostic>)
    ensures
        diag_views(final(out)@) == diag_views(old(out)@) + diag_views(more@),
{
    let mut more = more;
    let ghost a = diag_views(out@);
    let ghost b = diag_views(more@);
    out.append(&mut more);
    assert(diag_views(out@) =~= a + b);
}

/// Generate diagnostics for the file at `path`, given the answered image
/// checks (see `image_checks`), the frontmatter validation result (none when
/// no schema is configured or the file's text is not held), and the vault's
/// include cycles.
pub fn diagnostics_with_schema(
    vault: &Vault,
    settings: &Settings,
    path: &str,
    checks: &Vec<ImageCheck>,
    frontmatter: Option<&FrontmatterValidationResult>,
    cycles: &Vec<Vec<String>>,
) -> (r: Option<Vec<Diagnostic>>)
    ensures
        match r {
            Some(v) => spec_diagnostics(
                *vault,
                *settings,
                path@,
                checks@,
                match frontmatter {
                    Some(f) => Some(*f),
                    None => None,
                },
                cycle_views(cycles@),
            ) == Some(diag_views(v@)),
            None => spec_diagnostics(
                *vault,
                *settings,
                path@,
                checks@,
                match frontmatter {
                    Some(f) => Some(*f),
                    None => None,
                },
                cycle_views(cycles@),
            ) is None,
        },
{
    if !settings.unresolved_diagnostics {
        return None;
    }
    let unresolved = match path_unresolved_references(vault, path) {
        Some(u) => u,
        None => return None,
    };
    let images = path_unresolved_images(vault, path, checks);
    let all = vault.select_references(None);
    let mut diags = reference_diags(&unresolved, &all, false, DiagnosticSeverity::Information);
    let image_diags = reference_diags(&images, &all, true, DiagnosticSeverity::Warning);
    append_diags(&mut diags, image_diags);
    match frontmatter {
        Some(f) => {
            let fd = frontmatter_diagnostics(f);
            append_diags(&mut diags, fd);
        },
        None => {
            assert(diag_views(diags@) =~= diag_views(diags@) + Seq::<DiagnosticView>::empty());
        },
    }
    let cd = path_include_cycles(cycles, path);
    append_diags(&mut diags, cd);
    Some(diags)
}

/// Generate diagnostics for the file at `path` without frontmatter
/// validation.
pub fn diagnostics(
    vault: &Vault,
    settings: &Settings,
    path: &str,
    checks: &Vec<ImageCheck>,
    cycles: &Vec<Vec<String>>,
) -> (r: Option<Vec<Diagnostic>>)
    ensures
        match r {
            Some(v) => spec_diagnostics(*vault, *settings, path@, checks@, None, cycle_views(cycles@))
                == Some(diag_views(v@)),
            None => spec_diagnostics(*vault, *settings, path@, checks@, None, cycle_views(cycles@)) is None,
        },
{
    diagnostics_with_schema(vault, settings, path, checks, None, cycles)
}

} // verus!
