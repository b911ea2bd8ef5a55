//! Regular-expression matching, delegated to the `regex` crate.
//!
//! What a pattern matches takes pages to state, so the matches are named by
//! an uninterpreted function of the pattern and the text. The library's
//! parsers take the matches as values and do the rest in verified code.

use vstd::prelude::*;

verus! {

/// One capture group's match: its UTF-8 byte span in the text and its text.
#[derive(Debug, Clone, PartialEq, Eq)]
pub struct GroupMatch {
    pub start: usize,
    pub end: usize,
    pub text: String,
}

/// A group match as plain values.
pub open spec fn group_view(g: Option<GroupMatch>) -> Option<(nat, nat, Seq<char>)> {
    match g {
        Some(m) => Some((m.start as nat, m.end as nat, m.text@)),
        None => None,
    }
}

/// All capture groups of one match (group 0 is the whole match).
pub open spec fn captures_view(c: Vec<Option<GroupMatch>>) -> Seq<Option<(nat, nat, Seq<char>)>> {
    c@.map_values(|g: Option<GroupMatch>| group_view(g))
}

/// All matches of a text.
pub open spec fn all_captures_view(v: Seq<Vec<Option<GroupMatch>>>) -> Seq<
    Seq<Option<(nat, nat, Seq<char>)>>,
> {
    v.map_values(|c: Vec<Option<GroupMatch>>| captures_view(c))
}

/// What `Regex::new(pattern)` followed by `captures_iter(text)` yields: the
/// successive non-overlapping matches, each with all its capture groups.
pub uninterp spec fn regex_captures(pattern: Seq<char>, text: Seq<char>) -> Seq<
    Seq<Option<(nat, nat, Seq<char>)>>,
>;

/// Compiles `pattern` with `regex::Regex::new` and collects
/// `captures_iter(text)`: every match with every group's byte span and text.
/// The result is a function of the pattern and the text (none when the
/// pattern does not compile); the spans, being byte offsets of `text` as the
/// `regex` documentation says, lie within the text, and each group's text,
/// being a slice of `text`, is no longer than it.
#[verifier::external_body]
pub(crate) fn captures_iter(pattern: &str, text: &str) -> (r: Vec<Vec<Option<GroupMatch>>>)
    ensures
        all_captures_view(r@) == regex_captures(pattern@, text@),
        forall|i: int, j: int|
            0 <= i < r@.len() && 0 <= j < r@[i]@.len() && #[trigger] r@[i]@[j] is Some ==> r@[i]@[j]->0.start
                <= r@[i]@[j]->0.end <= text.len() && r@[i]@[j]->0.text@.len() <= text@.len(),
{
    match regex::Regex::new(pattern) {
        Ok(re) => re.captures_iter(text).map(|c| c.iter().map(|m| m.map(|m| GroupMatch {
            start: m.start(),
            end: m.end(),
            text: m.as_str().to_string(),
        })).collect()).collect(),
        Err(_) => Vec::new(),
    }
}

/// Group `g` of the first match of `pattern` in `text`.
pub open spec fn first_group(pattern: Seq<char>, text: Seq<char>, g: int) -> Option<
    (nat, nat, Seq<char>),
> {
    let all = regex_captures(pattern, text);
    if all.len() > 0 && 0 <= g < all[0].len() {
        all[0][g]
    } else {
        None
    }
}

/// Group `g` of the first match of `pattern` in `text`.
pub fn first_capture(pattern: &str, text: &str, g: usize) -> (r: Option<GroupMatch>)
    ensures
        group_view(r) == first_group(pattern@, text@, g as int),
        r matches Some(m) ==> m.start <= m.end <= text.len() && m.text@.len() <= text@.len(),
{
    let all = captures_iter(pattern, text);
    if all.len() > 0 && g < all[0].len() {
        let m = all[0][g].clone();
        proof {
            assert(all_captures_view(all@)[0] == captures_view(all@[0]));
            assert(captures_view(all@[0])[g as int] == group_view(all@[0]@[g as int]));
        }
        match &all[0][g] {
            Some(x) => {
                assert(all@[0]@[g as int] is Some);
                Some(GroupMatch { start: x.start, end: x.end, text: x.text.clone() })
            },
            None => None,
        }
    } else {
        None
    }
}

/// Whether `pattern` matches somewhere in `text`.
pub fn is_match(pattern: &str, text: &str) -> (r: bool)
    ensures
        r == (regex_captures(pattern@, text@).len() > 0),
{
    let all = captures_iter(pattern, text);
    all.len() > 0
}

/// Group `g` of one match, if the match has it.
pub open spec fn grp(m: Seq<Option<(nat, nat, Seq<char>)>>, g: int) -> Option<(nat, nat, Seq<char>)> {
    if 0 <= g < m.len() {
        m[g]
    } else {
        None
    }
}

/// Every group of a match lies within a text of `len` bytes and `chars`
/// characters.
pub open spec fn groups_within(c: Seq<Option<GroupMatch>>, len: nat, chars: nat) -> bool {
    forall|j: int|
        0 <= j < c.len() && #[trigger] c[j] is Some ==> c[j]->0.start <= c[j]->0.end <= len
            && c[j]->0.text@.len() <= chars
}

/// All matches of `pattern` in `text`, each with all its groups.
pub fn all_matches(pattern: &str, text: &str) -> (r: Vec<Vec<Option<GroupMatch>>>)
    ensures
        all_captures_view(r@) == regex_captures(pattern@, text@),
        forall|i: int| 0 <= i < r@.len() ==> groups_within(#[trigger] r@[i]@, text.len() as nat, text@.len()),
{
    let r = captures_iter(pattern, text);
    assert forall|i: int| 0 <= i < r@.len() implies groups_within(#[trigger] r@[i]@, text.len() as nat, text@.len()) by {
        assert forall|j: int| 0 <= j < r@[i]@.len() && #[trigger] r@[i]@[j] is Some implies r@[i]@[j]->0.start
            <= r@[i]@[j]->0.end <= text.len() && r@[i]@[j]->0.text@.len() <= text@.len() by {
        }
    }
    r
}

/// The first match of `pattern` in `text`, with all its groups.
pub open spec fn first_match_groups(pattern: Seq<char>, text: Seq<char>) -> Option<
    Seq<Option<(nat, nat, Seq<char>)>>,
> {
    let all = regex_captures(pattern, text);
    if all.len() > 0 {
        Some(all[0])
    } else {
        None
    }
}

/// The first match of `pattern` in `text`, with all its groups.
pub fn first_match(pattern: &str, text: &str) -> (r: Option<Vec<Option<GroupMatch>>>)
    ensures
        match r {
            Some(c) => first_match_groups(pattern@, text@) == Some(captures_view(c)) && groups_within(
                c@,
                text.len() as nat,
                text@.len(),
            ),
            None => first_match_groups(pattern@, text@) is None,
        },
{
    let mut all = all_matches(pattern, text);
    if all.len() > 0 {
        let ghost v = all@;
        let c = all.swap_remove(0);
        assert(c == v[0]);
        assert(all_captures_view(v)[0] == captures_view(v[0]));
        Some(c)
    } else {
        None
    }
}

/// Group `g` of a match.
pub fn group(c: &Vec<Option<GroupMatch>>, g: usize) -> (r: Option<GroupMatch>)
    ensures
        group_view(r) == grp(captures_view(*c), g as int),
        r matches Some(m) ==> (exists|j: int| 0 <= j < c@.len() && c@[j] == Some(m)),
{
    if g < c.len() {
        let r = c[g].clone();
        match &c[g] {
            Some(x) => {
                let m = GroupMatch { start: x.start, end: x.end, text: x.text.clone() };
                assert(c@[g as int] == Some(m));
                Some(m)
            },
            None => None,
        }
    } else {
        None
    }
}

} // verus!
