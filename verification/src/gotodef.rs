//! Go to definition: where the reference under the cursor points.

use vstd::prelude::*;

use crate::lsp::Location;
use crate::references::location_views;
use crate::vault::file::views;
use crate::vault::referenceable::{spec_path, spec_range, spec_references, Referenceable, ReferenceableView};
use crate::vault::store::{all_referenceables, first_satisfying, ref_at_position, spec_select_references};
use crate::vault::types::{Position, Range};
use crate::vault::Vault;

verus! {

/// Where a referenceable is defined: the start of a file, else its own
/// range (none when it has none).
pub open spec fn definition_location(r: ReferenceableView) -> Option<(Seq<char>, Range)> {
    match r {
        ReferenceableView::File(..) => Some(
            (
                spec_path(r),
                Range {
                    start: Position { line: 0, character: 0 },
                    end: Position { line: 0, character: 1 },
                },
            ),
        ),
        _ => match spec_range(r) {
            Some(range) => Some((spec_path(r), range)),
            None => None,
        },
    }
}

/// The definition locations of the referenceables, in order.
pub open spec fn definitions_of(rs: Seq<ReferenceableView>) -> Seq<(Seq<char>, Range)>
    decreases rs.len(),
{
    if rs.len() == 0 {
        Seq::empty()
    } else {
        definitions_of(rs.drop_last()) + match definition_location(rs.last()) {
            Some(l) => seq![l],
            None => Seq::empty(),
        }
    }
}

/// The definitions of what the reference under the cursor points at; none
/// when the cursor is on no reference.
pub open spec fn spec_goto_definition(vault: Vault, position: Position, path: Seq<char>) -> Option<
    Seq<(Seq<char>, Range)>,
> {
    match first_satisfying(spec_select_references(vault.md_files@, Some(path)), ref_at_position(position)) {
        Some(p) => Some(
            definitions_of(
                all_referenceables(vault.md_files@, vault.root_dir@).filter(
                    |rb: ReferenceableView| spec_references(p.1, vault.root_dir@, path, rb),
                ),
            ),
        ),
        None => None,
    }
}

/// The locations that the reference under the cursor in the file at
/// `path` points at.
pub fn goto_definition(vault: &Vault, cursor_position: Position, path: &str) -> (r: Option<Vec<Location>>)
    ensures
        match (r, spec_goto_definition(*vault, cursor_position, path@)) {
            (Some(v), Some(s)) => location_views(v@) == s,
            (None, None) => true,
            _ => false,
        },
{
    let reference = match vault.select_reference_at_position(path, cursor_position) {
        Some(x) => x,
        None => return None,
    };
    let targets = vault.select_referenceables_for_reference(reference, path);
    let ghost tv = views(targets@);
    proof {
        let p1 = |rb: ReferenceableView| spec_references(reference@, vault.spec_root_dir(), path@, rb);
        let p2 = |rb: ReferenceableView| spec_references(reference@, vault.root_dir@, path@, rb);
        assert(p1 =~= p2);
    }
    let mut out: Vec<Location> = Vec::new();
    let mut i: usize = 0;
    assert(tv.subrange(0, 0) =~= Seq::<ReferenceableView>::empty());
    assert(location_views(out@) =~= Seq::<(Seq<char>, Range)>::empty());
    while i < targets.len()
        invariant
            i <= targets.len(),
            tv == views(targets@),
            location_views(out@) == definitions_of(tv.subrange(0, i as int)),
        decreases targets.len() - i,
    {
        assert(tv.subrange(0, i + 1).drop_last() =~= tv.subrange(0, i as int));
        let t = &targets[i];
        assert(tv[i as int] == t@);
        let ghost before = location_views(out@);
        let range = match t {
            Referenceable::File(..) => Some(
                Range { start: Position { line: 0, character: 0 }, end: Position { line: 0, character: 1 } },
            ),
            _ => match t.get_range() {
                Some(m) => Some(m.0),
                None => None,
            },
        };
        match range {
            Some(range) => {
                let l = Location { path: t.get_path().clone(), range };
                out.push(l);
                assert(location_views(out@) =~= before.push((l.path@, l.range)));
            },
            None => {},
        }
        assert(location_views(out@) =~= definitions_of(tv.subrange(0, i + 1)));
        i += 1;
    }
    assert(tv.subrange(0, i as int) =~= tv);
    Some(out)
}

} // verus!
