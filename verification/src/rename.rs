//! Rename: the definition's change and the edits of every reference to it.

use vstd::prelude::*;

use crate::lsp::WorkspaceEdit;
use crate::references::{mtime_views, order_by_modified, refs_for};
use crate::text::{eq_ignore_case, lowercase};
use crate::vault::file::views;
use crate::vault::paths::is_absolute;
use crate::vault::reference::{view_data, MystRoleKind, Reference, ReferenceView};
use crate::vault::referenceable::{
    change_view, opt_change_view, rename_view, spec_definition_rename, spec_references, spec_rename_text,
    url_ok, DocumentChange, Referenceable, ReferenceableView,
};
use crate::vault::store::{
    all_referenceables, first_satisfying, lemma_first_satisfying, pair_views, ref_at_position,
    spec_referenceable_at, spec_select_references,
};
use crate::vault::types::{Position, Range};
use crate::vault::Vault;

verus! {

/// A MyST anchor named `target`, letter case aside.
pub open spec fn anchor_named(target: Seq<char>) -> spec_fn(ReferenceableView) -> bool {
    |r: ReferenceableView|
        match r {
            ReferenceableView::MystAnchor(_, s) => lowercase(s.name@) == lowercase(target),
            _ => false,
        }
}

/// The anchor that a `{ref}` or `{numref}` role in `path` resolves to: the
/// first anchor it points at whose name is its target, letter case aside.
pub open spec fn spec_role_anchor(vault: Vault, reference: ReferenceView, path: Seq<char>) -> Option<
    ReferenceableView,
> {
    match reference {
        ReferenceView::MystRole(_, kind, target) => if kind == MystRoleKind::Ref || kind
            == MystRoleKind::NumRef {
            first_satisfying(
                all_referenceables(vault.md_files@, vault.root_dir@).filter(
                    |rb: ReferenceableView| spec_references(reference, vault.root_dir@, path, rb),
                ),
                anchor_named(target),
            )
        } else {
            None
        },
        _ => None,
    }
}

fn is_anchor_named(r: &Referenceable, target: &str) -> (b: bool)
    ensures
        b == (anchor_named(target@))(r@),
{
    match r {
        Referenceable::MystAnchor(_, symbol) => eq_ignore_case(symbol.name.as_str(), target),
        _ => false,
    }
}

/// Attempts to resolve a MyST role reference (`{ref}` or `{numref}`) to its
/// target anchor, so that renaming from the role renames the anchor.
pub fn resolve_myst_role_to_anchor<'a>(vault: &'a Vault, reference: &Reference, path: &str) -> (r: Option<
    Referenceable<'a>,
>)
    ensures
        match r {
            Some(x) => spec_role_anchor(*vault, reference@, path@) == Some(x@),
            None => spec_role_anchor(*vault, reference@, path@) is None,
        },
{
    let target = match reference {
        Reference::MystRole(_, MystRoleKind::Ref, target) => target,
        Reference::MystRole(_, MystRoleKind::NumRef, target) => target,
        _ => return None,
    };
    let candidates = vault.select_referenceables_for_reference(reference, path);
    let ghost cv = views(candidates@);
    proof {
        let p1 = |rb: ReferenceableView| spec_references(reference@, vault.spec_root_dir(), path@, rb);
        let p2 = |rb: ReferenceableView| spec_references(reference@, vault.root_dir@, path@, rb);
        assert(p1 =~= p2);
        assert(cv == all_referenceables(vault.md_files@, vault.root_dir@).filter(p2));
        assert(spec_role_anchor(*vault, reference@, path@) == first_satisfying(cv, anchor_named(target@)));
    }
    let mut i: usize = 0;
    while i < candidates.len()
        invariant
            i <= candidates.len(),
            cv == views(candidates@),
            spec_role_anchor(*vault, reference@, path@) == first_satisfying(cv, anchor_named(target@)),
            forall|k: int| 0 <= k < i ==> !(anchor_named(target@))(cv[k]),
        decreases candidates.len() - i,
    {
        assert(cv[i as int] == candidates@[i as int]@);
        if is_anchor_named(&candidates[i], target.as_str()) {
            proof {
                lemma_first_satisfying(cv, anchor_named(target@), i as int);
            }
            let d = candidates[i].duplicate();
            assert(d@ == cv[i as int]);
            assert(first_satisfying(cv, anchor_named(target@)) == Some(d@));
            return Some(d);
        }
        i += 1;
    }
    proof {
        lemma_first_satisfying(cv, anchor_named(target@), i as int);
    }
    None
}

/// What a rename at the cursor renames: the anchor of a `{ref}` or
/// `{numref}` role under the cursor, else the referenceable under it.
pub open spec fn rename_target(vault: Vault, path: Seq<char>, position: Position) -> Option<ReferenceableView> {
    let at = spec_referenceable_at(vault.md_files@, vault.root_dir@, path, position);
    match first_satisfying(spec_select_references(vault.md_files@, Some(path)), ref_at_position(position)) {
        Some(p) => match spec_role_anchor(vault, p.1, path) {
            Some(a) => Some(a),
            None => at,
        },
        None => at,
    }
}

/// The edits of the references: each reference that takes a new text, in a
/// file whose path can be made a URL, gets its range replaced.
pub open spec fn reference_edits(
    refs: Seq<(Seq<char>, ReferenceView)>,
    r: ReferenceableView,
    new_ref_name: Seq<char>,
    root: Seq<char>,
) -> Seq<(Seq<char>, Option<Range>, Seq<char>)>
    decreases refs.len(),
{
    if refs.len() == 0 {
        Seq::empty()
    } else {
        let p = refs.last();
        reference_edits(refs.drop_last(), r, new_ref_name, root) + match spec_rename_text(
            p.1,
            r,
            new_ref_name,
            root,
        ) {
            Some(t) => if url_ok(p.0) {
                seq![(p.0, Some(view_data(p.1).range), t)]
            } else {
                Seq::empty()
            },
            None => Seq::empty(),
        }
    }
}

/// The changes of renaming what is under the cursor to `new_name`: the
/// edits of its references (most recently modified file first), then the
/// definition's own change.
pub open spec fn spec_rename(
    vault: Vault,
    path: Seq<char>,
    position: Position,
    new_name: Seq<char>,
    mtimes: Seq<(Seq<char>, u128)>,
) -> Option<Seq<(Seq<char>, Option<Range>, Seq<char>)>> {
    match rename_target(vault, path, position) {
        None => None,
        Some(r) => match spec_definition_rename(r, new_name) {
            None => None,
            Some((change, new_ref)) => Some(
                reference_edits(refs_for(vault, r, mtimes), r, new_ref, vault.root_dir@) + match change {
                    Some(c) => seq![c],
                    None => Seq::empty(),
                },
            ),
        },
    }
}

pub open spec fn change_views(v: Seq<DocumentChange>) -> Seq<(Seq<char>, Option<Range>, Seq<char>)> {
    v.map_values(|c: DocumentChange| change_view(c))
}

/// Renames what is under the cursor in the file at `path` to `new_name`;
/// `mtimes` gives the files' modification times.
pub fn rename(vault: &Vault, path: &str, position: Position, new_name: &str, mtimes: &Vec<(String, u128)>) -> (r:
    Option<WorkspaceEdit>)
    ensures
        match (r, spec_rename(*vault, path@, position, new_name@, mtime_views(mtimes@))) {
            (Some(e), Some(s)) => change_views(e.document_changes@) == s,
            (None, None) => true,
            _ => false,
        },
{
    let from_role = match vault.select_reference_at_position(path, position) {
        Some(reference) => resolve_myst_role_to_anchor(vault, reference, path),
        None => None,
    };
    let referenceable = match from_role {
        Some(r) => r,
        None => match vault.select_referenceable_at_position(path, position) {
            Some(r) => r,
            None => return None,
        },
    };
    let (definition_change, new_ref_name) = match referenceable.get_definition_rename_edit(new_name) {
        Some(x) => x,
        None => return None,
    };
    let found = match vault.select_references_for_referenceable(&referenceable) {
        Some(f) => f,
        None => Vec::new(),
    };
    let refs = order_by_modified(&found, mtimes);
    let ghost rv = pair_views(refs@);
    let root = vault.root_dir();
    let mut changes: Vec<DocumentChange> = Vec::new();
    let mut i: usize = 0;
    assert(rv.subrange(0, 0) =~= Seq::<(Seq<char>, ReferenceView)>::empty());
    assert(change_views(changes@) =~= Seq::<(Seq<char>, Option<Range>, Seq<char>)>::empty());
    while i < refs.len()
        invariant
            i <= refs.len(),
            rv == pair_views(refs@),
            root@ == vault.root_dir@,
            change_views(changes@) == reference_edits(
                rv.subrange(0, i as int),
                referenceable@,
                new_ref_name@,
                root@,
            ),
        decreases refs.len() - i,
    {
        assert(rv.subrange(0, i + 1).drop_last() =~= rv.subrange(0, i as int));
        let (p, reference) = refs[i];
        assert(rv[i as int] == (p@, reference@));
        let ghost before = change_views(changes@);
        match reference.get_rename_text(&referenceable, new_ref_name.as_str(), root.as_str()) {
            Some(new_text) => {
                if is_absolute(p.as_str()) {
                    let c = DocumentChange::Edit {
                        path: p.clone(),
                        range: reference.data().range,
                        new_text,
                    };
                    changes.push(c);
                    assert(change_views(changes@) =~= before.push(change_view(c)));
                }
            },
            None => {},
        }
        assert(change_views(changes@) =~= reference_edits(
            rv.subrange(0, i + 1),
            referenceable@,
            new_ref_name@,
            root@,
        ));
        i += 1;
    }
    assert(rv.subrange(0, i as int) =~= rv);
    let ghost before = change_views(changes@);
    match definition_change {
        Some(c) => {
            changes.push(c);
            assert(change_views(changes@) =~= before.push(change_view(c)));
        },
        None => {},
    }
    Some(WorkspaceEdit { document_changes: changes })
}

} // verus!
