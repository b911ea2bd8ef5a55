//! Find references, and the order in which references are reported: most
//! recently modified file first.

use vstd::prelude::*;

use crate::lsp::Location;
use crate::sort::{lemma_sort_map, map_items, sort_by_key, stable_sort_by_key};
use crate::text::str_eq;
use crate::vault::file::views;
use crate::vault::paths::{is_absolute, path_is_absolute};
use crate::vault::reference::{view_data, Reference, ReferenceView};
use crate::vault::referenceable::{spec_matches_reference, spec_references, Referenceable, ReferenceableView};
use crate::vault::store::{
    all_referenceables, all_refs, first_satisfying, pair_views, ref_at_position, spec_referenceable_at,
    spec_select_references,
};
use crate::vault::types::{Position, Range};
use crate::vault::Vault;

verus! {

/// The modification time of the file at `path` among the known ones (the
/// first entry for the path); the epoch (zero) when it is not known.
pub open spec fn modified_at(mtimes: Seq<(Seq<char>, u128)>, path: Seq<char>) -> u128
    decreases mtimes.len(),
{
    if mtimes.len() == 0 {
        0
    } else if mtimes[0].0 == path {
        mtimes[0].1
    } else {
        modified_at(mtimes.drop_first(), path)
    }
}

pub open spec fn mtime_views(v: Seq<(String, u128)>) -> Seq<(Seq<char>, u128)> {
    v.map_values(|p: (String, u128)| (p.0@, p.1))
}

fn modified_of(mtimes: &Vec<(String, u128)>, path: &str) -> (r: u128)
    ensures
        r == modified_at(mtime_views(mtimes@), path@),
{
    let ghost mv = mtime_views(mtimes@);
    let mut i: usize = 0;
    assert(mv.subrange(0, mv.len() as int) =~= mv);
    while i < mtimes.len()
        invariant
            i <= mtimes.len(),
            mv == mtime_views(mtimes@),
            modified_at(mv, path@) == modified_at(mv.subrange(i as int, mv.len() as int), path@),
        decreases mtimes.len() - i,
    {
        let ghost rest = mv.subrange(i as int, mv.len() as int);
        assert(rest[0] == mv[i as int]);
        assert(rest.drop_first() =~= mv.subrange(i + 1, mv.len() as int));
        if str_eq(mtimes[i].0.as_str(), path) {
            return mtimes[i].1;
        }
        i += 1;
    }
    assert(mv.subrange(i as int, mv.len() as int) =~= Seq::<(Seq<char>, u128)>::empty());
    0
}

/// The references keyed by their file's modification time, in order.
pub open spec fn keyed_by_mtime(
    refs: Seq<(Seq<char>, ReferenceView)>,
    mtimes: Seq<(Seq<char>, u128)>,
) -> Seq<(u128, (Seq<char>, ReferenceView))> {
    refs.map_values(|p: (Seq<char>, ReferenceView)| (modified_at(mtimes, p.0), p))
}

/// The references ordered by their file's modification time, most recent
/// first (among equally old files, later references first): sorted by time,
/// then reversed.
pub open spec fn by_recency(
    refs: Seq<(Seq<char>, ReferenceView)>,
    mtimes: Seq<(Seq<char>, u128)>,
) -> Seq<(Seq<char>, ReferenceView)> {
    sort_by_key(keyed_by_mtime(refs, mtimes)).map_values(
        |p: (u128, (Seq<char>, ReferenceView))| p.1,
    ).reverse()
}

/// Orders references by their file's modification time, most recent first.
pub fn order_by_modified<'a>(refs: &Vec<(&'a String, &'a Reference)>, mtimes: &Vec<(String, u128)>) -> (r: Vec<
    (&'a String, &'a Reference),
>)
    ensures
        pair_views(r@) == by_recency(pair_views(refs@), mtime_views(mtimes@)),
{
    let ghost f = |p: (&'a String, &'a Reference)| (p.0@, p.1@);
    let ghost rv = pair_views(refs@);
    let ghost mv = mtime_views(mtimes@);
    let mut keyed: Vec<(u128, (&'a String, &'a Reference))> = Vec::new();
    let mut i: usize = 0;
    while i < refs.len()
        invariant
            i <= refs.len(),
            rv == pair_views(refs@),
            mv == mtime_views(mtimes@),
            f == (|p: (&'a String, &'a Reference)| (p.0@, p.1@)),
            map_items(keyed@, f) == keyed_by_mtime(rv, mv).subrange(0, i as int),
        decreases refs.len() - i,
    {
        let key = modified_of(mtimes, refs[i].0.as_str());
        let ghost before = map_items(keyed@, f);
        keyed.push((key, refs[i]));
        assert(map_items(keyed@, f) =~= before.push((key, rv[i as int])));
        assert(keyed_by_mtime(rv, mv).subrange(0, i + 1) =~= keyed_by_mtime(rv, mv).subrange(0, i as int).push(
            (key, rv[i as int]),
        ));
        i += 1;
    }
    assert(keyed_by_mtime(rv, mv).subrange(0, i as int) =~= keyed_by_mtime(rv, mv));
    let ghost unsorted = keyed@;
    let sorted = stable_sort_by_key(keyed);
    proof {
        lemma_sort_map(unsorted, f);
    }
    let ghost plain = map_items(sorted@, f).map_values(|p: (u128, (Seq<char>, ReferenceView))| p.1);
    let mut out: Vec<(&'a String, &'a Reference)> = Vec::new();
    let mut k: usize = sorted.len();
    assert(plain.subrange(k as int, plain.len() as int).reverse() =~= Seq::<(Seq<char>, ReferenceView)>::empty());
    while k > 0
        invariant
            k <= sorted.len(),
            f == (|p: (&'a String, &'a Reference)| (p.0@, p.1@)),
            plain == map_items(sorted@, f).map_values(|p: (u128, (Seq<char>, ReferenceView))| p.1),
            plain.len() == sorted@.len(),
            pair_views(out@) == plain.subrange(k as int, plain.len() as int).reverse(),
        decreases k,
    {
        let item = sorted[k - 1].1;
        let ghost before = pair_views(out@);
        out.push(item);
        assert(map_items(sorted@, f)[k - 1] == (sorted@[k - 1].0, f(sorted@[k - 1].1)));
        assert(plain[k - 1] == map_items(sorted@, f)[k - 1].1);
        assert(plain[k - 1] == (item.0@, item.1@));
        assert(pair_views(out@) =~= before.push(plain[k - 1]));
        assert(plain.subrange(k - 1, plain.len() as int).reverse() =~= plain.subrange(
            k as int,
            plain.len() as int,
        ).reverse().push(plain[k - 1]));
        k -= 1;
    }
    assert(plain.subrange(0, plain.len() as int) =~= plain);
    out
}

/// The references of the vault that point at `r`, most recent file first.
pub open spec fn refs_for(vault: Vault, r: ReferenceableView, mtimes: Seq<(Seq<char>, u128)>) -> Seq<
    (Seq<char>, ReferenceView),
> {
    by_recency(
        all_refs(vault.md_files@).filter(
            |p: (Seq<char>, ReferenceView)| spec_matches_reference(r, vault.root_dir@, p.1, p.0),
        ),
        mtimes,
    )
}

/// The references for each referenceable in turn.
pub open spec fn refs_for_each(
    vault: Vault,
    rs: Seq<ReferenceableView>,
    mtimes: Seq<(Seq<char>, u128)>,
) -> Seq<(Seq<char>, ReferenceView)>
    decreases rs.len(),
{
    if rs.len() == 0 {
        Seq::empty()
    } else {
        refs_for_each(vault, rs.drop_last(), mtimes) + refs_for(vault, rs.last(), mtimes)
    }
}

/// The locations of references whose file path can be made a URL (is
/// absolute).
pub open spec fn locations_of(refs: Seq<(Seq<char>, ReferenceView)>) -> Seq<(Seq<char>, Range)>
    decreases refs.len(),
{
    if refs.len() == 0 {
        Seq::empty()
    } else {
        let p = refs.last();
        locations_of(refs.drop_last()) + if path_is_absolute(p.0) {
            seq![(p.0, view_data(p.1).range)]
        } else {
            Seq::empty()
        }
    }
}

/// The references found for the cursor: those of the referenceable under
/// it when the cursor is on no reference, or on a reference inside a tag;
/// else those of every referenceable that the reference under it points at.
pub open spec fn spec_find_references(
    vault: Vault,
    position: Position,
    path: Seq<char>,
    mtimes: Seq<(Seq<char>, u128)>,
) -> Option<Seq<(Seq<char>, Range)>> {
    let files = vault.md_files@;
    let root = vault.root_dir@;
    let at = spec_referenceable_at(files, root, path, position);
    let on = first_satisfying(spec_select_references(files, Some(path)), ref_at_position(position));
    match (at, on) {
        (None, None) => None,
        (Some(r), None) => Some(locations_of(refs_for(vault, r, mtimes))),
        (Some(r), Some(q)) => if r is Tag {
            Some(locations_of(refs_for(vault, r, mtimes)))
        } else {
            Some(
                locations_of(
                    refs_for_each(
                        vault,
                        all_referenceables(files, root).filter(
                            |rb: ReferenceableView| spec_references(q.1, root, path, rb),
                        ),
                        mtimes,
                    ),
                ),
            )
        },
        (None, Some(p)) => Some(
            locations_of(
                refs_for_each(
                    vault,
                    all_referenceables(files, root).filter(
                        |rb: ReferenceableView| spec_references(p.1, root, path, rb),
                    ),
                    mtimes,
                ),
            ),
        ),
    }
}

pub open spec fn location_views(v: Seq<Location>) -> Seq<(Seq<char>, Range)> {
    v.map_values(|l: Location| (l.path@, l.range))
}

fn push_locations<'a>(out: &mut Vec<Location>, refs: &Vec<(&'a String, &'a Reference)>)
    ensures
        location_views(final(out)@) == location_views(old(out)@) + locations_of(pair_views(refs@)),
{
    let ghost start = location_views(out@);
    let ghost rv = pair_views(refs@);
    let mut i: usize = 0;
    assert(rv.subrange(0, 0) =~= Seq::<(Seq<char>, ReferenceView)>::empty());
    while i < refs.len()
        invariant
            i <= refs.len(),
            rv == pair_views(refs@),
            location_views(out@) == start + locations_of(rv.subrange(0, i as int)),
        decreases refs.len() - i,
    {
        assert(rv.subrange(0, i + 1).drop_last() =~= rv.subrange(0, i as int));
        let (p, reference) = refs[i];
        assert(rv[i as int] == (p@, reference@));
        let ghost before = location_views(out@);
        if is_absolute(p.as_str()) {
            let l = Location { path: p.clone(), range: reference.data().range.0 };
            out.push(l);
            assert(location_views(out@) =~= before.push((p@, view_data(reference@).range)));
        }
        assert(location_views(out@) =~= start + locations_of(rv.subrange(0, i + 1)));
        i += 1;
    }
    assert(rv.subrange(0, i as int) =~= rv);
}

fn refs_of_referenceable<'a>(vault: &'a Vault, r: &Referenceable, mtimes: &Vec<(String, u128)>) -> (v: Vec<
    (&'a String, &'a Reference),
>)
    ensures
        pair_views(v@) == refs_for(*vault, r@, mtime_views(mtimes@)),
{
    let found = match vault.select_references_for_referenceable(r) {
        Some(f) => f,
        None => Vec::new(),
    };
    order_by_modified(&found, mtimes)
}

/// The locations of the references related to the cursor position in the
/// file at `path`, most recently modified file first within each target;
/// `mtimes` gives the files' modification times.
pub fn references(vault: &Vault, cursor_position: Position, path: &str, mtimes: &Vec<(String, u128)>) -> (r:
    Option<Vec<Location>>)
    ensures
        match (r, spec_find_references(*vault, cursor_position, path@, mtime_views(mtimes@))) {
            (Some(v), Some(s)) => location_views(v@) == s,
            (None, None) => true,
            _ => false,
        },
{
    let at = vault.select_referenceable_at_position(path, cursor_position);
    let on = vault.select_reference_at_position(path, cursor_position);
    let mut out: Vec<Location> = Vec::new();
    assert(location_views(out@) =~= Seq::<(Seq<char>, Range)>::empty());
    let single = match (&at, &on) {
        (Some(r), Some(_)) => matches!(r, Referenceable::Tag(..)),
        (Some(_), None) => true,
        _ => false,
    };
    if single {
        let r = match &at {
            Some(r) => r,
            None => {
                return None;
            },
        };
        let refs = refs_of_referenceable(vault, r, mtimes);
        push_locations(&mut out, &refs);
        assert(location_views(out@) =~= locations_of(pair_views(refs@)));
        return Some(out);
    }
    let reference = match on {
        Some(x) => x,
        None => return None,
    };
    let targets = vault.select_referenceables_for_reference(reference, path);
    let ghost tv = views(targets@);
    let mut i: usize = 0;
    let ghost mut acc: Seq<(Seq<char>, ReferenceView)> = Seq::empty();
    assert(tv.subrange(0, 0) =~= Seq::<ReferenceableView>::empty());
    while i < targets.len()
        invariant
            i <= targets.len(),
            tv == views(targets@),
            acc == refs_for_each(*vault, tv.subrange(0, i as int), mtime_views(mtimes@)),
            location_views(out@) == locations_of(acc),
        decreases targets.len() - i,
    {
        assert(tv.subrange(0, i + 1).drop_last() =~= tv.subrange(0, i as int));
        assert(tv[i as int] == targets@[i as int]@);
        let refs = refs_of_referenceable(vault, &targets[i], mtimes);
        push_locations(&mut out, &refs);
        proof {
            lemma_locations_append(acc, pair_views(refs@));
            acc = acc + pair_views(refs@);
        }
        i += 1;
    }
    assert(tv.subrange(0, i as int) =~= tv);
    Some(out)
}

/// The locations of a concatenation are those of its parts.
pub proof fn lemma_locations_append(a: Seq<(Seq<char>, ReferenceView)>, b: Seq<(Seq<char>, ReferenceView)>)
    ensures
        locations_of(a + b) == locations_of(a) + locations_of(b),
    decreases b.len(),
{
    if b.len() == 0 {
        assert(a + b =~= a);
        assert(locations_of(a) + locations_of(b) =~= locations_of(a));
    } else {
        assert((a + b).drop_last() =~= a + b.drop_last());
        lemma_locations_append(a, b.drop_last());
        assert(locations_of(a + b) =~= locations_of(a) + locations_of(b));
    }
}

} // verus!
