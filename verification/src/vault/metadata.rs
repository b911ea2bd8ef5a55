//! Metadata from a document's YAML frontmatter: aliases and substitution
//! definitions.

use vstd::prelude::*;

use crate::pattern::{first_match, group, grp, first_match_groups};
use crate::text::str_eq;

verus! {

/// The frontmatter of a document, as the metadata reads it: `---`, a line
/// break, the YAML (as short as possible), a line break and `---`.
pub const METADATA_PATTERN: &'static str = r"^---\n(?<metadata>(\n|.)*?)\n---";

/// Parsed metadata from Markdown frontmatter.
#[derive(Debug, Clone, PartialEq, Eq)]
pub struct MDMetadata {
    pub aliases: Vec<String>,
    /// Substitution definitions merged from both `substitutions` and
    /// `myst.substitutions`; names are unique.
    pub substitutions: Vec<(String, String)>,
}

/// Substitution pairs as plain values.
pub open spec fn pair_views(v: Seq<(String, String)>) -> Seq<(Seq<char>, Seq<char>)> {
    v.map_values(|p: (String, String)| (p.0@, p.1@))
}

/// The pairs as a map from name to value (a later pair wins).
pub open spec fn pairs_map(v: Seq<(Seq<char>, Seq<char>)>) -> Map<Seq<char>, Seq<char>>
    decreases v.len(),
{
    if v.len() == 0 {
        Map::empty()
    } else {
        pairs_map(v.drop_last()).insert(v.last().0, v.last().1)
    }
}

/// No name occurs twice.
pub open spec fn names_unique(v: Seq<(Seq<char>, Seq<char>)>) -> bool {
    forall|i: int, j: int| 0 <= i < j < v.len() ==> #[trigger] v[i].0 != #[trigger] v[j].0
}

/// The YAML text of a document's frontmatter, if it has one.
pub open spec fn spec_metadata_yaml(text: Seq<char>) -> Option<Seq<char>> {
    match first_match_groups(METADATA_PATTERN@, text) {
        Some(m) => match grp(m, 1) {
            Some(g) => Some(g.2),
            None => None,
        },
        None => None,
    }
}

/// The YAML text of a document's frontmatter: what the metadata is parsed
/// from.
pub fn metadata_yaml(text: &str) -> (r: Option<String>)
    ensures
        super::helpers::opt_view(r) == spec_metadata_yaml(text@),
{
    match first_match(METADATA_PATTERN, text) {
        Some(m) => match group(&m, 1) {
            Some(g) => Some(g.text),
            None => None,
        },
        None => None,
    }
}

fn find_name(v: &Vec<(String, String)>, name: &str) -> (r: Option<usize>)
    ensures
        match r {
            Some(i) => i < v.len() && v@[i as int].0@ == name@,
            None => forall|i: int| 0 <= i < v.len() ==> v@[i].0@ != name@,
        },
{
    let mut i: usize = 0;
    while i < v.len()
        invariant
            i <= v.len(),
            forall|k: int| 0 <= k < i ==> v@[k].0@ != name@,
        decreases v.len() - i,
    {
        if str_eq(v[i].0.as_str(), name) {
            return Some(i);
        }
        i += 1;
    }
    None
}

proof fn lemma_pairs_map_update(v: Seq<(Seq<char>, Seq<char>)>, i: int, value: Seq<char>)
    requires
        0 <= i < v.len(),
        names_unique(v),
    ensures
        pairs_map(v.update(i, (v[i].0, value))) == pairs_map(v).insert(v[i].0, value),
    decreases v.len(),
{
    let w = v.update(i, (v[i].0, value));
    if i == v.len() - 1 {
        assert(w.drop_last() =~= v.drop_last());
    } else {
        assert(w.drop_last() =~= v.drop_last().update(i, (v[i].0, value)));
        lemma_pairs_map_update(v.drop_last(), i, value);
        assert(v.last().0 != v[i].0);
        assert(pairs_map(w) =~= pairs_map(v).insert(v[i].0, value));
    }
}

impl MDMetadata {
    /// The metadata of a frontmatter: its aliases, and its substitutions,
    /// those of the top-level `substitutions` key overridden by those of
    /// `myst.substitutions` for the same name. The top-level substitutions
    /// have unique names, as do those of `myst.substitutions`.
    pub fn from_parts(
        aliases: Vec<String>,
        substitutions: Vec<(String, String)>,
        myst_substitutions: Option<Vec<(String, String)>>,
    ) -> (r: MDMetadata)
        requires
            names_unique(pair_views(substitutions@)),
        ensures
            r.aliases == aliases,
            names_unique(pair_views(r.substitutions@)),
            pairs_map(pair_views(r.substitutions@)) == match myst_substitutions {
                Some(m) => pairs_map(pair_views(substitutions@)).union_prefer_right(
                    pairs_map(pair_views(m@)),
                ),
                None => pairs_map(pair_views(substitutions@)),
            },
    {
        let mut merged = substitutions;
        let ghost top = pairs_map(pair_views(merged@));
        match myst_substitutions {
            Some(m) => {
                let ghost mv = pair_views(m@);
                let mut i: usize = 0;
                assert(pairs_map(mv.subrange(0, 0)) =~= Map::<Seq<char>, Seq<char>>::empty());
                assert(top.union_prefer_right(Map::empty()) =~= top);
                while i < m.len()
                    invariant
                        i <= m.len(),
                        mv == pair_views(m@),
                        names_unique(pair_views(merged@)),
                        pairs_map(pair_views(merged@)) == top.union_prefer_right(
                            pairs_map(mv.subrange(0, i as int)),
                        ),
                    decreases m.len() - i,
                {
                    let key = m[i].0.clone();
                    let value = m[i].1.clone();
                    assert(mv[i as int] == (key@, value@));
                    let ghost before = pair_views(merged@);
                    assert(mv.subrange(0, i + 1).drop_last() =~= mv.subrange(0, i as int));
                    match find_name(&merged, key.as_str()) {
                        Some(k) => {
                            merged.set(k, (key, value));
                            proof {
                                assert(pair_views(merged@) =~= before.update(k as int, (before[k as int].0, value@)));
                                lemma_pairs_map_update(before, k as int, value@);
                                assert(names_unique(pair_views(merged@)));
                            }
                        },
                        None => {
                            merged.push((key, value));
                            proof {
                                assert(pair_views(merged@) =~= before.push((key@, value@)));
                                assert(pair_views(merged@).drop_last() =~= before);
                                assert(names_unique(pair_views(merged@)));
                            }
                        },
                    }
                    assert(pairs_map(pair_views(merged@)) =~= top.union_prefer_right(
                        pairs_map(mv.subrange(0, i + 1)),
                    ));
                    i += 1;
                }
                assert(mv.subrange(0, i as int) =~= mv);
            },
            None => {},
        }
        MDMetadata { aliases, substitutions: merged }
    }

    pub fn aliases(&self) -> (r: &Vec<String>)
        ensures
            r == &self.aliases,
    {
        &self.aliases
    }

    /// The substitution definitions, as (name, value) pairs with unique names.
    pub fn substitutions(&self) -> (r: &Vec<(String, String)>)
        ensures
            r == &self.substitutions,
    {
        &self.substitutions
    }
}

} // verus!
