//! MyST role completer.
//!
//! Offers role targets after `{ref}`` or `{doc}``, and the like:
//! `{ref}` and `{numref}` complete anchors and headings (a heading by its
//! slug), `{doc}` and `{download}` complete document paths, `{term}`
//! glossary terms and `{eq}` equation labels.

use vstd::prelude::*;

use crate::lsp::{CompletionItem, CompletionItemKind, TextEdit};
use crate::pattern::{first_capture, first_group, group_view, GroupMatch};
use crate::text::{
    at_char_boundary, byte_len, byte_prefix, chars_of, concat, contains_sub, join_words,
    lemma_after_last_no_sep, lemma_replace_all_absent, lowercase, starts_with, str_byte_prefix,
    str_contains, str_eq, string_of, sub_vec, to_lowercase,
};
use crate::vault::file::{views, MDFile};
use crate::vault::helpers::{get_obsidian_ref_path, opt_view, spec_obsidian_ref_path};
use crate::vault::paths::{
    diff_paths, diff_paths_of, file_stem, parent, path_file_stem, path_parent,
    path_strip_prefix, path_with_extension, strip_prefix, with_extension,
};
use crate::vault::reference::{MystRoleKind, ReferenceDataView, ReferenceView};
use crate::vault::referenceable::{
    lemma_split_segments_nonempty, spec_references, split_segments, Referenceable,
    ReferenceableView,
};
use crate::vault::store::spec_select_referenceables;
use crate::vault::{Position, Range, Vault};

use super::myst_directive_completer::{cursor_fits_line, vault_line};

verus! {

/// A role and a partial target, up to the cursor.
pub const ROLE_TARGET_PATTERN: &'static str =
    r"\{(?<role>ref|numref|doc|download|term|eq)\}`(?<target>[^`]*)$";

/// The type of MyST role being completed.
#[derive(Debug, Clone, Copy, PartialEq, Eq, Structural)]
pub enum RoleType {
    /// {ref}`target` - cross-reference to anchor or heading
    Ref,
    /// {numref}`target` - numbered reference to anchor or heading
    NumRef,
    /// {doc}`path` - document/file reference
    Doc,
    /// {download}`path` - downloadable file reference
    Download,
    /// {term}`glossary-term` - glossary term reference
    Term,
    /// {eq}`label` - equation reference
    Eq,
}

/// The name of a role type in MyST syntax.
pub open spec fn role_type_name(r: RoleType) -> Seq<char> {
    match r {
        RoleType::Ref => "ref"@,
        RoleType::NumRef => "numref"@,
        RoleType::Doc => "doc"@,
        RoleType::Download => "download"@,
        RoleType::Term => "term"@,
        RoleType::Eq => "eq"@,
    }
}

impl RoleType {
    /// Returns the role name as it appears in MyST syntax.
    pub fn name(&self) -> (r: &'static str)
        ensures
            r@ == role_type_name(*self),
    {
        match self {
            RoleType::Ref => "ref",
            RoleType::NumRef => "numref",
            RoleType::Doc => "doc",
            RoleType::Download => "download",
            RoleType::Term => "term",
            RoleType::Eq => "eq",
        }
    }
}

/// The role type named `name`, if any.
pub open spec fn spec_role_type_of(name: Seq<char>) -> Option<RoleType> {
    if name == "ref"@ {
        Some(RoleType::Ref)
    } else if name == "numref"@ {
        Some(RoleType::NumRef)
    } else if name == "doc"@ {
        Some(RoleType::Doc)
    } else if name == "download"@ {
        Some(RoleType::Download)
    } else if name == "term"@ {
        Some(RoleType::Term)
    } else if name == "eq"@ {
        Some(RoleType::Eq)
    } else {
        None
    }
}

/// The role type named `name`, if any.
pub fn role_type_of(name: &str) -> (r: Option<RoleType>)
    ensures
        r == spec_role_type_of(name@),
{
    if str_eq(name, "ref") {
        Some(RoleType::Ref)
    } else if str_eq(name, "numref") {
        Some(RoleType::NumRef)
    } else if str_eq(name, "doc") {
        Some(RoleType::Doc)
    } else if str_eq(name, "download") {
        Some(RoleType::Download)
    } else if str_eq(name, "term") {
        Some(RoleType::Term)
    } else if str_eq(name, "eq") {
        Some(RoleType::Eq)
    } else {
        None
    }
}

/// A role type's name names that role type.
pub proof fn lemma_role_type_name_round_trip(r: RoleType)
    ensures
        spec_role_type_of(role_type_name(r)) == Some(r),
{
    reveal_strlit("ref");
    reveal_strlit("numref");
    reveal_strlit("doc");
    reveal_strlit("download");
    reveal_strlit("term");
    reveal_strlit("eq");
    assert("ref"@[0] == 'r');
    assert("numref"@[0] == 'n');
    assert("doc"@[0] == 'd');
    assert("download"@[0] == 'd');
    assert("term"@[0] == 't');
    assert("eq"@[0] == 'e');
    assert("doc"@.len() != "download"@.len());
}

// ---------------------------------------------------------------------------
// Slugs
// ---------------------------------------------------------------------------

/// What `char::is_alphanumeric` answers: Unicode's alphabetic or numeric
/// property, which takes pages to state.
pub uninterp spec fn char_alphanumeric(c: char) -> bool;

/// `char::is_alphanumeric`.
#[verifier::external_body]
pub(crate) fn is_alphanumeric(c: char) -> (r: bool)
    ensures
        r == char_alphanumeric(c),
{
    c.is_alphanumeric()
}

/// `c` itself when alphanumeric, else `-`.
pub open spec fn slug_char(c: char) -> char {
    if char_alphanumeric(c) {
        c
    } else {
        '-'
    }
}

/// A word is a non-empty segment.
pub open spec fn nonempty_word() -> spec_fn(Seq<char>) -> bool {
    |w: Seq<char>| w.len() > 0
}

/// The slug of a heading: lowercased, every character that is not
/// alphanumeric turned into `-`, then the non-empty `-`-separated words
/// joined with single `-`.
pub open spec fn spec_slugify(text: Seq<char>) -> Seq<char> {
    join_words(
        split_segments(lowercase(text).map_values(|c: char| slug_char(c)), '-').filter(
            nonempty_word(),
        ),
        '-',
    )
}

/// A slug: every character alphanumeric or `-`, no `-` at either end, and
/// no two `-` in a row.
pub open spec fn is_slug(o: Seq<char>) -> bool {
    &&& forall|i: int| 0 <= i < o.len() ==> #[trigger] o[i] == '-' || char_alphanumeric(o[i])
    &&& o.len() > 0 ==> o[0] != '-' && o.last() != '-'
    &&& forall|i: int| 0 <= i < o.len() - 1 ==> !(#[trigger] o[i] == '-' && o[i + 1] == '-')
}

/// Non-empty words of alphanumeric characters.
pub open spec fn slug_words(ws: Seq<Seq<char>>) -> bool {
    forall|j: int|
        0 <= j < ws.len() ==> (#[trigger] ws[j]).len() > 0 && forall|k: int|
            0 <= k < ws[j].len() ==> #[trigger] ws[j][k] != '-' && char_alphanumeric(ws[j][k])
}

/// No segment holds the separator, and every character of a segment is one
/// of the text.
proof fn lemma_segment_chars(s: Seq<char>, c: char)
    ensures
        forall|j: int, k: int|
            #![trigger split_segments(s, c)[j][k]]
            0 <= j < split_segments(s, c).len() && 0 <= k < split_segments(s, c)[j].len()
                ==> split_segments(s, c)[j][k] != c && s.contains(split_segments(s, c)[j][k]),
    decreases s.len(),
{
    if s.len() > 0 {
        let t = s.drop_last();
        lemma_segment_chars(t, c);
        lemma_split_segments_nonempty(t, c);
        let rest = split_segments(t, c);
        let segs = split_segments(s, c);
        assert forall|j: int, k: int|
            0 <= j < segs.len() && 0 <= k < segs[j].len() implies #[trigger] segs[j][k] != c
            && s.contains(segs[j][k]) by {
            if s.last() == c {
                assert(segs == rest.push(Seq::empty()));
                assert(j < rest.len());
                assert(segs[j][k] == rest[j][k]);
                let x = rest[j][k];
                assert(t.contains(x));
                let w = choose|w: int| 0 <= w < t.len() && t[w] == x;
                assert(s[w] == x);
            } else {
                let last = rest.last().push(s.last());
                assert(segs == rest.update(rest.len() - 1, last));
                if j == rest.len() - 1 && k == rest.last().len() {
                    assert(segs[j][k] == s.last());
                    assert(s[s.len() - 1] == s.last());
                } else {
                    assert(segs[j][k] == rest[j][k]);
                    let x = rest[j][k];
                    assert(t.contains(x));
                    let w = choose|w: int| 0 <= w < t.len() && t[w] == x;
                    assert(s[w] == x);
                }
            }
        }
    }
}

/// Joining non-empty alphanumeric words with `-` gives a slug, which is
/// empty only when there are no words.
proof fn lemma_join_slug(ws: Seq<Seq<char>>)
    requires
        slug_words(ws),
    ensures
        is_slug(join_words(ws, '-')),
        ws.len() > 0 ==> join_words(ws, '-').len() > 0,
    decreases ws.len(),
{
    if ws.len() == 1 {
        let w = ws[0];
        assert(join_words(ws, '-') == w);
        assert forall|i: int| 0 <= i < w.len() implies #[trigger] w[i] == '-' || char_alphanumeric(w[i]) by {
            assert(ws[0][i] == w[i]);
        }
        assert(w[0] == ws[0][0]);
        assert(w.last() == ws[0][w.len() - 1]);
    } else if ws.len() > 1 {
        let a = ws.drop_last();
        assert(slug_words(a)) by {
            assert forall|j: int| 0 <= j < a.len() implies (#[trigger] a[j]).len() > 0 && forall|k: int|
                0 <= k < a[j].len() ==> #[trigger] a[j][k] != '-' && char_alphanumeric(a[j][k]) by {
                assert(a[j] == ws[j]);
            }
        }
        lemma_join_slug(a);
        let j = join_words(a, '-');
        let w = ws.last();
        assert(w == ws[ws.len() - 1]);
        let o = join_words(ws, '-');
        assert(o == j + seq!['-'] + w);
        let n = j.len();
        assert forall|i: int| 0 <= i < o.len() implies #[trigger] o[i] == '-' || char_alphanumeric(o[i]) by {
            if i < n {
                assert(o[i] == j[i]);
            } else if i > n {
                assert(o[i] == w[i - n - 1]);
                assert(ws[ws.len() - 1][i - n - 1] == w[i - n - 1]);
            }
        }
        assert(o[0] == j[0]);
        assert(o.last() == w[w.len() - 1]);
        assert(ws[ws.len() - 1][w.len() - 1] == w[w.len() - 1]);
        assert forall|i: int| 0 <= i < o.len() - 1 implies !(#[trigger] o[i] == '-' && o[i + 1] == '-') by {
            if i + 1 < n {
                assert(o[i] == j[i] && o[i + 1] == j[i + 1]);
            } else if i + 1 == n {
                assert(o[i] == j[n - 1]);
                assert(j.last() == j[n - 1]);
            } else if i == n {
                assert(o[i + 1] == w[0]);
                assert(ws[ws.len() - 1][0] == w[0]);
            } else {
                assert(o[i] == w[i - n - 1]);
                assert(ws[ws.len() - 1][i - n - 1] == w[i - n - 1]);
            }
        }
    }
}

/// Every slug is a slug: only alphanumeric characters and `-`, never a `-`
/// at either end or two in a row.
pub proof fn lemma_slugify_is_slug(text: Seq<char>)
    ensures
        is_slug(spec_slugify(text)),
{
    broadcast use vstd::seq_lib::group_filter_ensures;

    let m = lowercase(text).map_values(|c: char| slug_char(c));
    let segs = split_segments(m, '-');
    lemma_segment_chars(m, '-');
    let ws = segs.filter(nonempty_word());
    assert forall|j: int| 0 <= j < ws.len() implies (#[trigger] ws[j]).len() > 0 && forall|k: int|
        0 <= k < ws[j].len() ==> #[trigger] ws[j][k] != '-' && char_alphanumeric(ws[j][k]) by {
        assert(nonempty_word()(ws[j]));
        assert(ws.contains(ws[j]));
        segs.lemma_filter_contains_rev(nonempty_word(), ws[j]);
        let jj = choose|jj: int| 0 <= jj < segs.len() && segs[jj] == ws[j];
        assert forall|k: int| 0 <= k < ws[j].len() implies #[trigger] ws[j][k] != '-' && char_alphanumeric(
            ws[j][k],
        ) by {
            assert(segs[jj][k] == ws[j][k]);
            let x = ws[j][k];
            assert(m.contains(x));
            let t = choose|t: int| 0 <= t < m.len() && m[t] == x;
            assert(m[t] == slug_char(lowercase(text)[t]));
        }
    }
    lemma_join_slug(ws);
}

/// Joining the segments of a split with the separator gives the text back.
proof fn lemma_join_split(s: Seq<char>, c: char)
    ensures
        join_words(split_segments(s, c), c) == s,
    decreases s.len(),
{
    if s.len() == 0 {
        assert(split_segments(s, c) == seq![Seq::<char>::empty()]);
        assert(join_words(seq![Seq::<char>::empty()], c) == Seq::<char>::empty());
        assert(s =~= Seq::<char>::empty());
    } else {
        let t = s.drop_last();
        let x = s.last();
        lemma_join_split(t, c);
        lemma_split_segments_nonempty(t, c);
        let rest = split_segments(t, c);
        let segs = split_segments(s, c);
        if x == c {
            assert(segs == rest.push(Seq::empty()));
            assert(segs.drop_last() =~= rest);
            assert(join_words(segs, c) == join_words(rest, c) + seq![c] + Seq::<char>::empty());
            assert(s =~= t + seq![c] + Seq::<char>::empty());
        } else {
            let last = rest.last().push(x);
            assert(segs == rest.update(rest.len() - 1, last));
            if rest.len() == 1 {
                assert(join_words(segs, c) == segs[0]);
                assert(join_words(rest, c) == rest[0]);
                assert(s =~= t.push(x));
            } else {
                assert(segs.drop_last() =~= rest.drop_last());
                assert(segs.last() == last);
                assert(join_words(segs, c) == join_words(rest.drop_last(), c) + seq![c] + last);
                assert(join_words(rest, c) == join_words(rest.drop_last(), c) + seq![c] + rest.last());
                assert(join_words(segs, c) =~= join_words(rest, c).push(x));
                assert(s =~= t.push(x));
            }
        }
    }
}

/// In a text that does not start with the separator and never has it twice
/// in a row, every segment but the last is non-empty, and the last is empty
/// exactly when the text is empty or ends with the separator.
proof fn lemma_split_nonempty(s: Seq<char>, c: char)
    requires
        s.len() > 0 ==> s[0] != c,
        forall|i: int| 0 <= i < s.len() - 1 ==> !(#[trigger] s[i] == c && s[i + 1] == c),
    ensures
        forall|j: int|
            0 <= j < split_segments(s, c).len() - 1 ==> (#[trigger] split_segments(s, c)[j]).len() > 0,
        split_segments(s, c).len() > 0,
        (split_segments(s, c).last().len() == 0) == (s.len() == 0 || s.last() == c),
    decreases s.len(),
{
    lemma_split_segments_nonempty(s, c);
    if s.len() > 0 {
        let t = s.drop_last();
        let x = s.last();
        assert forall|i: int| 0 <= i < t.len() - 1 implies !(#[trigger] t[i] == c && t[i + 1] == c) by {
            assert(t[i] == s[i] && t[i + 1] == s[i + 1]);
        }
        if t.len() > 0 {
            assert(t[0] == s[0]);
        }
        lemma_split_nonempty(t, c);
        let rest = split_segments(t, c);
        let segs = split_segments(s, c);
        if x == c {
            assert(t.len() > 0);
            assert(t.last() == s[s.len() - 2]);
            assert(s[s.len() - 1] == c);
            assert(t.last() != c);
            assert(segs == rest.push(Seq::empty()));
            assert forall|j: int| 0 <= j < segs.len() - 1 implies (#[trigger] segs[j]).len() > 0 by {
                assert(segs[j] == rest[j]);
            }
        } else {
            let last = rest.last().push(x);
            assert(segs == rest.update(rest.len() - 1, last));
            assert forall|j: int| 0 <= j < segs.len() - 1 implies (#[trigger] segs[j]).len() > 0 by {
                assert(segs[j] == rest[j]);
            }
        }
    }
}

/// Filtering by a predicate that every item meets keeps every item.
proof fn lemma_filter_keeps_all<A>(s: Seq<A>, p: spec_fn(A) -> bool)
    requires
        forall|i: int| 0 <= i < s.len() ==> p(#[trigger] s[i]),
    ensures
        s.filter(p) == s,
    decreases s.len(),
{
    reveal_with_fuel(Seq::filter, 1);
    if s.len() > 0 {
        let t = s.drop_last();
        assert forall|i: int| 0 <= i < t.len() implies p(#[trigger] t[i]) by {
            assert(t[i] == s[i]);
        }
        lemma_filter_keeps_all(t, p);
        assert(p(s[s.len() - 1]));
        assert(s =~= t.push(s.last()));
    } else {
        assert(s.filter(p) =~= s);
    }
}

/// Slugifying a slug gives it back, for a slug that lowercasing leaves as
/// it is (what lowercasing does is `str::to_lowercase`'s, named, not stated
/// here; every slug of lowercase ASCII text is one).
pub proof fn lemma_slugify_keeps_slugs(o: Seq<char>)
    requires
        is_slug(o),
        lowercase(o) == o,
    ensures
        spec_slugify(o) == o,
{
    let m = lowercase(o).map_values(|c: char| slug_char(c));
    assert(m =~= o) by {
        assert forall|i: int| 0 <= i < o.len() implies m[i] == o[i] by {
            assert(o[i] == '-' || char_alphanumeric(o[i]));
        }
    }
    let segs = split_segments(o, '-');
    lemma_split_nonempty(o, '-');
    lemma_join_split(o, '-');
    if o.len() == 0 {
        assert(segs == seq![Seq::<char>::empty()]);
        reveal_with_fuel(Seq::filter, 2);
        assert(segs.filter(nonempty_word()) =~= Seq::<Seq<char>>::empty());
    } else {
        assert forall|j: int| 0 <= j < segs.len() implies nonempty_word()(#[trigger] segs[j]) by {
            if j < segs.len() - 1 {
                assert(segs[j].len() > 0);
            } else {
                assert(segs[j] == segs.last());
            }
        }
        lemma_filter_keeps_all(segs, nonempty_word());
    }
}

/// Slugify a heading text for use as a MyST reference target.
/// This converts "My Heading Text" to "my-heading-text".
pub fn slugify_heading(text: &str) -> (r: String)
    ensures
        r@ == spec_slugify(text@),
{
    let lower = to_lowercase(text);
    let v = chars_of(lower.as_str());
    let ghost m = v@.map_values(|c: char| slug_char(c));
    let ghost ne = nonempty_word();
    let mut out: Vec<char> = Vec::new();
    let mut cur: Vec<char> = Vec::new();
    let mut has_word = false;
    let mut i: usize = 0;
    assert(m.subrange(0, 0) =~= Seq::<char>::empty());
    assert(split_segments(m.subrange(0, 0), '-').drop_last() =~= Seq::<Seq<char>>::empty());
    assert(Seq::<Seq<char>>::empty().filter(ne) =~= Seq::<Seq<char>>::empty()) by {
        reveal_with_fuel(Seq::filter, 1);
    }
    while i < v.len()
        invariant
            i <= v.len(),
            m == v@.map_values(|c: char| slug_char(c)),
            ne == nonempty_word(),
            split_segments(m.subrange(0, i as int), '-').len() > 0,
            split_segments(m.subrange(0, i as int), '-').last() == cur@,
            out@ == join_words(split_segments(m.subrange(0, i as int), '-').drop_last().filter(ne), '-'),
            has_word == (split_segments(m.subrange(0, i as int), '-').drop_last().filter(ne).len() > 0),
        decreases v.len() - i,
    {
        let ghost segs = split_segments(m.subrange(0, i as int), '-');
        let ghost next = m.subrange(0, i + 1);
        assert(next.drop_last() =~= m.subrange(0, i as int));
        assert(next.last() == m[i as int]);
        let c = if is_alphanumeric(v[i]) {
            v[i]
        } else {
            '-'
        };
        assert(c == m[i as int]);
        if c == '-' {
            assert(split_segments(next, '-') == segs.push(Seq::<char>::empty()));
            assert(split_segments(next, '-').drop_last() =~= segs);
            proof {
                reveal_with_fuel(Seq::filter, 1);
            }
            if cur.len() > 0 {
                assert(segs.filter(ne) == segs.drop_last().filter(ne).push(cur@));
                if has_word {
                    out.push('-');
                }
                let ghost before = out@;
                let mut j: usize = 0;
                while j < cur.len()
                    invariant
                        j <= cur.len(),
                        out@ == before + cur@.subrange(0, j as int),
                    decreases cur.len() - j,
                {
                    out.push(cur[j]);
                    j += 1;
                    assert(out@ =~= before + cur@.subrange(0, j as int));
                }
                assert(cur@.subrange(0, cur.len() as int) =~= cur@);
                proof {
                    let f = segs.drop_last().filter(ne);
                    if f.len() == 0 {
                        assert(f.push(cur@).drop_last() =~= f);
                        assert(join_words(f.push(cur@), '-') == cur@);
                    } else {
                        assert(f.push(cur@).drop_last() =~= f);
                    }
                }
                has_word = true;
            } else {
                assert(segs.filter(ne) == segs.drop_last().filter(ne));
            }
            cur = Vec::new();
            assert(split_segments(next, '-').last() =~= cur@);
        } else {
            assert(split_segments(next, '-') == segs.update(segs.len() - 1, segs.last().push(c)));
            assert(split_segments(next, '-').drop_last() =~= segs.drop_last());
            cur.push(c);
        }
        i += 1;
    }
    let ghost segs = split_segments(m.subrange(0, i as int), '-');
    proof {
        reveal_with_fuel(Seq::filter, 1);
    }
    if cur.len() > 0 {
        assert(segs.filter(ne) == segs.drop_last().filter(ne).push(cur@));
        if has_word {
            out.push('-');
        }
        let ghost before = out@;
        let mut j: usize = 0;
        while j < cur.len()
            invariant
                j <= cur.len(),
                out@ == before + cur@.subrange(0, j as int),
            decreases cur.len() - j,
        {
            out.push(cur[j]);
            j += 1;
            assert(out@ =~= before + cur@.subrange(0, j as int));
        }
        assert(cur@.subrange(0, cur.len() as int) =~= cur@);
        proof {
            let f = segs.drop_last().filter(ne);
            assert(f.push(cur@).drop_last() =~= f);
        }
    } else {
        assert(segs.filter(ne) == segs.drop_last().filter(ne));
    }
    assert(m.subrange(0, i as int) =~= lowercase(text@).map_values(|c: char| slug_char(c)));
    string_of(&out)
}

// ---------------------------------------------------------------------------
// Paths offered for `{doc}` and `{download}`
// ---------------------------------------------------------------------------

/// A path from the vault root, prefixed with `/`, without its extension;
/// the file stem alone when the path lies outside the root.
pub open spec fn spec_root_relative_path(target: Seq<char>, root: Seq<char>) -> Seq<char> {
    seq!['/'] + match path_strip_prefix(target, root) {
        Some(rel) => path_with_extension(rel, Seq::empty()),
        None => match path_file_stem(target) {
            Some(s) => s,
            None => Seq::empty(),
        },
    }
}

/// Calculate a path from the vault root, prefixed with `/`.
///
/// This is used when the user types `/` at the start of a target to indicate
/// they want an absolute path from the vault root.
pub fn calculate_root_relative_path(target_path: &str, root_dir: &str) -> (r: String)
    ensures
        r@ == spec_root_relative_path(target_path@, root_dir@),
{
    let tail = match strip_prefix(target_path, root_dir) {
        Some(rel) => {
            let e = "";
            proof {
                reveal_strlit("");
            }
            assert(e@ =~= Seq::<char>::empty());
            with_extension(rel.as_str(), e)
        },
        None => match file_stem(target_path) {
            Some(s) => s,
            None => String::new(),
        },
    };
    let mut v: Vec<char> = Vec::new();
    v.push('/');
    let head = string_of(&v);
    assert(v@ =~= seq!['/']);
    concat(head.as_str(), tail.as_str())
}

/// The path of `target` relative to the directory of `current` (the root
/// when `current` has no parent), without its extension and marked `./`
/// unless it climbs with `..` or is absolute; the vault-relative reference
/// path when no relative path exists.
pub open spec fn spec_relative_path(current: Seq<char>, target: Seq<char>, root: Seq<char>) -> Seq<
    char,
> {
    let dir = match path_parent(current) {
        Some(p) => p,
        None => root,
    };
    match diff_paths_of(target, dir) {
        Some(rel) => {
            let p = path_with_extension(rel, Seq::empty());
            if !starts_with(p, seq!['.', '.']) && !starts_with(p, seq!['/']) {
                seq!['.', '/'] + p
            } else {
                p
            }
        },
        None => match spec_obsidian_ref_path(root, target) {
            Some(s) => s,
            None => Seq::empty(),
        },
    }
}

/// A `{doc}` target offered in a file at the vault root, written back as
/// the role's target in that file, points at the file it was offered for:
/// the offered path carries no extension and names the file's vault-relative
/// path. Left out are the paths in which the resolver would decode `%20` or
/// `\ ` and those that start with `/`.
pub proof fn lemma_doc_target_resolves(
    current: Seq<char>,
    target: Seq<char>,
    root: Seq<char>,
    f: MDFile,
    d: ReferenceDataView,
    rel: Seq<char>,
)
    requires
        path_parent(current) == Some(root),
        diff_paths_of(target, root) == Some(rel),
        !contains_sub(path_with_extension(rel, Seq::empty()), "%20"@),
        !contains_sub(path_with_extension(rel, Seq::empty()), "\\ "@),
        !starts_with(path_with_extension(rel, Seq::empty()), seq!['/']),
    ensures
        spec_references(
            ReferenceView::MystRole(d, MystRoleKind::Doc, spec_relative_path(current, target, root)),
            root,
            current,
            ReferenceableView::File(target, f),
        ),
{
    reveal_strlit("%20");
    reveal_strlit("\\ ");
    let p = path_with_extension(rel, Seq::empty());
    let insert = spec_relative_path(current, target, root);
    if !starts_with(p, seq!['.', '.']) {
        assert(insert == seq!['.', '/'] + p);
        assert(insert[1] == '/');
        assert forall|i: int|
            0 <= i && i + "%20"@.len() <= insert.len() implies #[trigger] insert.subrange(
            i,
            i + "%20"@.len(),
        ) != "%20"@ by {
            if i >= 2 {
                assert(insert.subrange(i, i + 3) =~= p.subrange(i - 2, i - 2 + 3));
            } else {
                assert(insert.subrange(i, i + 3)[0] == insert[i]);
            }
        }
        assert forall|i: int|
            0 <= i && i + "\\ "@.len() <= insert.len() implies #[trigger] insert.subrange(
            i,
            i + "\\ "@.len(),
        ) != "\\ "@ by {
            if i >= 2 {
                assert(insert.subrange(i, i + 2) =~= p.subrange(i - 2, i - 2 + 2));
            } else {
                assert(insert.subrange(i, i + 2)[0] == insert[i]);
            }
        }
        lemma_replace_all_absent(insert, "%20"@, " "@);
        lemma_replace_all_absent(insert, "\\ "@, " "@);
        assert(insert.subrange(0, 2) =~= seq!['.', '/']);
        assert(insert.skip(2) =~= p);
    } else {
        assert(insert == p);
        if p.contains('/') {
            lemma_replace_all_absent(p, "%20"@, " "@);
            lemma_replace_all_absent(p, "\\ "@, " "@);
            assert(!starts_with(p, seq!['.', '/'])) by {
                assert(p.subrange(0, 2)[1] == p[1]);
                assert(seq!['.', '.'][1] == '.');
            }
        } else {
            lemma_after_last_no_sep(p, '/');
        }
    }
}

/// Calculate a relative path from current_path to target_path.
pub fn calculate_relative_path(current_path: &str, target_path: &str, root_dir: &str) -> (r: String)
    ensures
        r@ == spec_relative_path(current_path@, target_path@, root_dir@),
{
    let dir = match parent(current_path) {
        Some(p) => p,
        None => String::from_str(root_dir),
    };
    match diff_paths(target_path, dir.as_str()) {
        Some(rel) => {
            let e = "";
            proof {
                reveal_strlit("");
            }
            assert(e@ =~= Seq::<char>::empty());
            let p = with_extension(rel.as_str(), e);
            let pv = chars_of(p.as_str());
            let mut dots: Vec<char> = Vec::new();
            dots.push('.');
            dots.push('.');
            let mut slash: Vec<char> = Vec::new();
            slash.push('/');
            assert(dots@ =~= seq!['.', '.']);
            assert(slash@ =~= seq!['/']);
            if !crate::text::vec_starts_with(&pv, &dots) && !crate::text::vec_starts_with(
                &pv,
                &slash,
            ) {
                let mut head: Vec<char> = Vec::new();
                head.push('.');
                head.push('/');
                assert(head@ =~= seq!['.', '/']);
                let h = string_of(&head);
                concat(h.as_str(), p.as_str())
            } else {
                p
            }
        },
        None => match get_obsidian_ref_path(root_dir, target_path) {
            Some(s) => s,
            None => String::new(),
        },
    }
}

// ---------------------------------------------------------------------------
// Completions for one referenceable
// ---------------------------------------------------------------------------

/// A completion item for a MyST role target.
#[derive(Debug, Clone, PartialEq, Eq)]
pub struct RoleCompletion {
    /// The label to display (anchor name, heading text, or file path)
    pub label: String,
    /// The text to insert as the role target
    pub insert_text: String,
    /// Optional detail (e.g., file path where target is defined)
    pub detail: Option<String>,
    /// The kind of completion item
    pub kind: CompletionItemKind,
}

/// A role completion as plain values.
pub struct RoleCompletionView {
    pub label: Seq<char>,
    pub insert_text: Seq<char>,
    pub detail: Option<Seq<char>>,
    pub kind: CompletionItemKind,
}

impl View for RoleCompletion {
    type V = RoleCompletionView;

    open spec fn view(&self) -> RoleCompletionView {
        RoleCompletionView {
            label: self.label@,
            insert_text: self.insert_text@,
            detail: opt_view(self.detail),
            kind: self.kind,
        }
    }
}

/// An optional role completion as plain values.
pub open spec fn opt_completion_view(c: Option<RoleCompletion>) -> Option<RoleCompletionView> {
    match c {
        Some(x) => Some(x@),
        None => None,
    }
}

/// The completion that `r` gives for a role of type `role`: anchors and
/// headings (by slug) for `{ref}` and `{numref}`, files (by their path
/// relative to the current file) for `{doc}` and `{download}`, glossary terms
/// for `{term}`, labelled equations for `{eq}`; nothing otherwise.
pub open spec fn spec_completion_for(
    r: ReferenceableView,
    role: RoleType,
    root: Seq<char>,
    current: Seq<char>,
) -> Option<RoleCompletionView> {
    match r {
        ReferenceableView::MystAnchor(path, symbol) => if role == RoleType::Ref || role
            == RoleType::NumRef {
            Some(
                RoleCompletionView {
                    label: symbol.name@,
                    insert_text: symbol.name@,
                    detail: spec_obsidian_ref_path(root, path),
                    kind: CompletionItemKind::Reference,
                },
            )
        } else {
            None
        },
        ReferenceableView::Heading(path, heading) => if role == RoleType::Ref || role
            == RoleType::NumRef {
            Some(
                RoleCompletionView {
                    label: heading.heading_text@,
                    insert_text: spec_slugify(heading.heading_text@),
                    detail: spec_obsidian_ref_path(root, path),
                    kind: CompletionItemKind::Reference,
                },
            )
        } else {
            None
        },
        ReferenceableView::File(path, _) => if role == RoleType::Doc || role == RoleType::Download {
            match spec_obsidian_ref_path(root, path) {
                Some(ref_path) => Some(
                    RoleCompletionView {
                        label: spec_relative_path(current, path, root),
                        insert_text: spec_relative_path(current, path, root),
                        detail: Some(ref_path),
                        kind: CompletionItemKind::File,
                    },
                ),
                None => None,
            }
        } else {
            None
        },
        ReferenceableView::GlossaryTerm(path, term) => if role == RoleType::Term {
            Some(
                RoleCompletionView {
                    label: term.term@,
                    insert_text: term.term@,
                    detail: spec_obsidian_ref_path(root, path),
                    kind: CompletionItemKind::Text,
                },
            )
        } else {
            None
        },
        ReferenceableView::MathLabel(path, symbol) => if role == RoleType::Eq {
            match symbol.label {
                Some(label) => Some(
                    RoleCompletionView {
                        label: label@,
                        insert_text: label@,
                        detail: spec_obsidian_ref_path(root, path),
                        kind: CompletionItemKind::Reference,
                    },
                ),
                None => None,
            }
        } else {
            None
        },
        _ => None,
    }
}

/// The text a target is filtered by: the partial target without a leading `/`.
pub open spec fn filter_target(partial: Seq<char>) -> Seq<char> {
    if starts_with(partial, seq!['/']) {
        partial.drop_first()
    } else {
        partial
    }
}

/// Like `spec_completion_for`, but a file's path is taken from the vault
/// root (prefixed with `/`) when the partial target starts with `/`, and a
/// file whose path does not contain the partial target (without its `/`) is
/// not offered.
pub open spec fn spec_completion_with_root_prefix(
    r: ReferenceableView,
    role: RoleType,
    root: Seq<char>,
    current: Seq<char>,
    partial: Seq<char>,
) -> Option<RoleCompletionView> {
    match r {
        ReferenceableView::File(path, _) => if role == RoleType::Doc || role == RoleType::Download {
            match spec_obsidian_ref_path(root, path) {
                Some(ref_path) => {
                    let insert = if starts_with(partial, seq!['/']) {
                        spec_root_relative_path(path, root)
                    } else {
                        spec_relative_path(current, path, root)
                    };
                    let f = filter_target(partial);
                    if f.len() > 0 && !contains_sub(insert, f) {
                        None
                    } else {
                        Some(
                            RoleCompletionView {
                                label: insert,
                                insert_text: insert,
                                detail: Some(ref_path),
                                kind: CompletionItemKind::File,
                            },
                        )
                    }
                },
                None => None,
            }
        } else {
            None
        },
        _ => spec_completion_for(r, role, root, current),
    }
}

/// Whether the characters start with `c`.
fn starts_with_char(v: &Vec<char>, c: char) -> (r: bool)
    ensures
        r == starts_with(v@, seq![c]),
{
    if v.len() > 0 && v[0] == c {
        assert(v@.subrange(0, 1) =~= seq![c]);
        true
    } else {
        if v.len() > 0 {
            assert(v@.subrange(0, 1)[0] == v@[0]);
        }
        false
    }
}

fn ref_path_of(root: &str, path: &str) -> (r: Option<String>)
    ensures
        opt_view(r) == spec_obsidian_ref_path(root@, path@),
{
    get_obsidian_ref_path(root, path)
}

impl RoleCompletion {
    /// Create a role completion from a referenceable, if applicable for the
    /// role type.
    pub fn from_referenceable(
        referenceable: &Referenceable,
        role_type: RoleType,
        root_dir: &str,
        current_path: &str,
    ) -> (r: Option<Self>)
        ensures
            opt_completion_view(r) == spec_completion_for(
                referenceable@,
                role_type,
                root_dir@,
                current_path@,
            ),
    {
        let is_ref = role_type == RoleType::Ref || role_type == RoleType::NumRef;
        let is_doc = role_type == RoleType::Doc || role_type == RoleType::Download;
        match referenceable {
            Referenceable::MystAnchor(path, symbol) => {
                if !is_ref {
                    return None;
                }
                Some(
                    RoleCompletion {
                        label: symbol.name.clone(),
                        insert_text: symbol.name.clone(),
                        detail: ref_path_of(root_dir, path.as_str()),
                        kind: CompletionItemKind::Reference,
                    },
                )
            },
            Referenceable::Heading(path, heading) => {
                if !is_ref {
                    return None;
                }
                Some(
                    RoleCompletion {
                        label: heading.heading_text.clone(),
                        insert_text: slugify_heading(heading.heading_text.as_str()),
                        detail: ref_path_of(root_dir, path.as_str()),
                        kind: CompletionItemKind::Reference,
                    },
                )
            },
            Referenceable::File(path, _) => {
                if !is_doc {
                    return None;
                }
                let ref_path = match ref_path_of(root_dir, path.as_str()) {
                    Some(p) => p,
                    None => return None,
                };
                let relative = calculate_relative_path(current_path, path.as_str(), root_dir);
                Some(
                    RoleCompletion {
                        label: relative.clone(),
                        insert_text: relative,
                        detail: Some(ref_path),
                        kind: CompletionItemKind::File,
                    },
                )
            },
            Referenceable::GlossaryTerm(path, term) => {
                if role_type != RoleType::Term {
                    return None;
                }
                Some(
                    RoleCompletion {
                        label: term.term.clone(),
                        insert_text: term.term.clone(),
                        detail: ref_path_of(root_dir, path.as_str()),
                        kind: CompletionItemKind::Text,
                    },
                )
            },
            Referenceable::MathLabel(path, symbol) => {
                if role_type != RoleType::Eq {
                    return None;
                }
                match &symbol.label {
                    Some(label) => Some(
                        RoleCompletion {
                            label: label.clone(),
                            insert_text: label.clone(),
                            detail: ref_path_of(root_dir, path.as_str()),
                            kind: CompletionItemKind::Reference,
                        },
                    ),
                    None => None,
                }
            },
            _ => None,
        }
    }

    /// Create a role completion with support for root-relative paths: when
    /// `partial_target` starts with `/`, file paths are taken from the vault
    /// root and keep the `/`; a file whose path does not contain the partial
    /// target is not offered.
    pub fn from_referenceable_with_root_prefix(
        referenceable: &Referenceable,
        role_type: RoleType,
        root_dir: &str,
        current_path: &str,
        partial_target: &str,
    ) -> (r: Option<Self>)
        ensures
            opt_completion_view(r) == spec_completion_with_root_prefix(
                referenceable@,
                role_type,
                root_dir@,
                current_path@,
                partial_target@,
            ),
    {
        match referenceable {
            Referenceable::File(target_path, _) => {
                if !(role_type == RoleType::Doc || role_type == RoleType::Download) {
                    return None;
                }
                let ref_path = match ref_path_of(root_dir, target_path.as_str()) {
                    Some(p) => p,
                    None => return None,
                };
                let pv = chars_of(partial_target);
                let use_root = starts_with_char(&pv, '/');
                let insert_text = if use_root {
                    calculate_root_relative_path(target_path.as_str(), root_dir)
                } else {
                    calculate_relative_path(current_path, target_path.as_str(), root_dir)
                };
                let fv = if use_root {
                    sub_vec(&pv, 1, pv.len())
                } else {
                    pv
                };
                assert(fv@ == filter_target(partial_target@)) by {
                    if use_root {
                        assert(pv@.subrange(1, pv@.len() as int) =~= pv@.drop_first());
                    }
                }
                if fv.len() > 0 {
                    let f = string_of(&fv);
                    if !str_contains(insert_text.as_str(), f.as_str()) {
                        return None;
                    }
                }
                Some(
                    RoleCompletion {
                        label: insert_text.clone(),
                        insert_text,
                        detail: Some(ref_path),
                        kind: CompletionItemKind::File,
                    },
                )
            },
            _ => Self::from_referenceable(referenceable, role_type, root_dir, current_path),
        }
    }
}

// ---------------------------------------------------------------------------
// Recognising `{role}`partial`
// ---------------------------------------------------------------------------

/// A recognised role target: the role, the partial target, and the byte
/// offset where the target starts.
#[derive(Debug, Clone, PartialEq, Eq)]
pub struct RoleTargetMatch {
    pub role_type: RoleType,
    pub partial: String,
    pub target_start: usize,
}

/// A role target as plain values.
pub open spec fn role_target_view(m: Option<RoleTargetMatch>) -> Option<(RoleType, Seq<char>, nat)> {
    match m {
        Some(x) => Some((x.role_type, x.partial@, x.target_start as nat)),
        None => None,
    }
}

/// The role target described by the pattern's `role` and `target` groups.
pub open spec fn spec_role_target_from_groups(
    role: Option<(nat, nat, Seq<char>)>,
    target: Option<(nat, nat, Seq<char>)>,
) -> Option<(RoleType, Seq<char>, nat)> {
    match (role, target) {
        (Some(r), Some(t)) => match spec_role_type_of(r.2) {
            Some(rt) => Some((rt, t.2, t.0)),
            None => None,
        },
        _ => None,
    }
}

/// Builds the role target from the pattern's `role` and `target` groups.
pub fn role_target_from_groups(role: &Option<GroupMatch>, target: &Option<GroupMatch>) -> (r: Option<
    RoleTargetMatch,
>)
    ensures
        role_target_view(r) == spec_role_target_from_groups(group_view(*role), group_view(*target)),
{
    match (role, target) {
        (Some(r), Some(t)) => match role_type_of(r.text.as_str()) {
            Some(rt) => Some(
                RoleTargetMatch { role_type: rt, partial: t.text.clone(), target_start: t.start },
            ),
            None => None,
        },
        _ => None,
    }
}

/// The role target of `text` up to byte offset `cursor`.
pub open spec fn spec_parse_role_target(text: Seq<char>, cursor: int) -> Option<(RoleType, Seq<char>, nat)> {
    let t = byte_prefix(text, cursor);
    spec_role_target_from_groups(
        first_group(ROLE_TARGET_PATTERN@, t, 1),
        first_group(ROLE_TARGET_PATTERN@, t, 2),
    )
}

/// Recognises `{role}` and a backtick followed by a partial target in the
/// text before byte offset `cursor`.
pub fn parse_role_target(text: &str, cursor: usize) -> (r: Option<RoleTargetMatch>)
    requires
        byte_len(text@) <= usize::MAX,
        cursor <= byte_len(text@) ==> at_char_boundary(text@, cursor as int),
    ensures
        role_target_view(r) == spec_parse_role_target(text@, cursor as int),
{
    let before = str_byte_prefix(text, cursor);
    let role = first_capture(ROLE_TARGET_PATTERN, before, 1);
    let target = first_capture(ROLE_TARGET_PATTERN, before, 2);
    role_target_from_groups(&role, &target)
}

/// The role and the partial target typed before byte offset `cursor`.
pub fn parse_role_pattern(text: &str, cursor: usize) -> (r: Option<(RoleType, String)>)
    requires
        byte_len(text@) <= usize::MAX,
        cursor <= byte_len(text@) ==> at_char_boundary(text@, cursor as int),
    ensures
        match (r, spec_parse_role_target(text@, cursor as int)) {
            (Some((rt, p)), Some(m)) => rt == m.0 && p@ == m.1,
            (None, None) => true,
            _ => false,
        },
{
    match parse_role_target(text, cursor) {
        Some(m) => Some((m.role_type, m.partial)),
        None => None,
    }
}

// ---------------------------------------------------------------------------
// The completer
// ---------------------------------------------------------------------------

/// Completer for MyST role targets.
///
/// Activates when the cursor is positioned inside a role's backticks,
/// for example: `{ref}`my-| ` where `|` is the cursor.
pub struct MystRoleCompleter<'a> {
    /// The type of role being completed
    role_type: RoleType,
    /// The partial target typed so far (may be empty)
    partial_target: String,
    /// Line number in the document
    line: u32,
    /// Character position where the target starts (after the backtick)
    target_start: u32,
    /// Current cursor position
    character: u32,
    /// Reference to the vault for completion lookups
    vault: &'a Vault,
    /// Path of the current file
    path: &'a str,
}

/// The completer as plain values.
pub struct RoleCompleterView {
    pub role_type: RoleType,
    pub partial: Seq<char>,
    pub line: u32,
    pub target_start: u32,
    pub character: u32,
    pub vault: Vault,
    pub path: Seq<char>,
}

impl<'a> View for MystRoleCompleter<'a> {
    type V = RoleCompleterView;

    closed spec fn view(&self) -> RoleCompleterView {
        RoleCompleterView {
            role_type: self.role_type,
            partial: self.partial_target@,
            line: self.line,
            target_start: self.target_start,
            character: self.character,
            vault: *self.vault,
            path: self.path@,
        }
    }
}

/// Whether a completion is kept for the partial target: always when the
/// target starts with `/` (the root-relative paths filter themselves), else
/// when nothing was typed or the lowercased label contains the lowercased
/// partial target.
pub open spec fn completion_kept(c: RoleCompletionView, partial: Seq<char>) -> bool {
    starts_with(partial, seq!['/']) || lowercase(partial).len() == 0 || contains_sub(
        lowercase(c.label),
        lowercase(partial),
    )
}

/// The completion a referenceable gives, with the method the role calls for.
pub open spec fn completion_of(
    r: ReferenceableView,
    role: RoleType,
    root: Seq<char>,
    current: Seq<char>,
    partial: Seq<char>,
) -> Option<RoleCompletionView> {
    if role == RoleType::Doc || role == RoleType::Download {
        spec_completion_with_root_prefix(r, role, root, current, partial)
    } else {
        spec_completion_for(r, role, root, current)
    }
}

/// The completions of a sequence of referenceables, in order: those that
/// give one that is kept.
pub open spec fn role_completions(
    refs: Seq<ReferenceableView>,
    role: RoleType,
    root: Seq<char>,
    current: Seq<char>,
    partial: Seq<char>,
) -> Seq<RoleCompletionView>
    decreases refs.len(),
{
    if refs.len() == 0 {
        Seq::empty()
    } else {
        let rest = role_completions(refs.drop_last(), role, root, current, partial);
        match completion_of(refs.last(), role, root, current, partial) {
            Some(c) => if completion_kept(c, partial) {
                rest.push(c)
            } else {
                rest
            },
            None => rest,
        }
    }
}

/// Role completions as plain values.
pub open spec fn completion_views(v: Seq<RoleCompletion>) -> Seq<RoleCompletionView> {
    v.map_values(|c: RoleCompletion| c@)
}

/// The filter text of the role completions: `{role}`, a backtick, then the
/// partial target.
pub open spec fn role_filter_text(role: RoleType, partial: Seq<char>) -> Seq<char> {
    seq!['\u{7b}'] + role_type_name(role) + seq!['\u{7d}', '`'] + partial
}

impl<'a> MystRoleCompleter<'a> {
    /// Recognises `{role}` and a partial target on line `line` of the file
    /// at `path`, before byte offset `character`.
    pub fn construct(vault: &'a Vault, path: &'a str, line: usize, character: usize) -> (r: Option<Self>)
        requires
            line <= isize::MAX,
            cursor_fits_line(*vault, path@, line as int, character as int),
        ensures
            match vault_line(*vault, path@, line as int) {
                None => r is None,
                Some(l) => match spec_parse_role_target(l, character as int) {
                    None => r is None,
                    Some(m) => r matches Some(c) && c@ == (RoleCompleterView {
                        role_type: m.0,
                        partial: m.1,
                        line: line as u32,
                        target_start: m.2 as u32,
                        character: character as u32,
                        vault: *vault,
                        path: path@,
                    }),
                },
            },
    {
        let chars = match vault.select_line(path, line as isize) {
            Some(c) => c,
            None => return None,
        };
        let text = string_of(&chars);
        match parse_role_target(text.as_str(), character) {
            Some(m) => Some(
                MystRoleCompleter {
                    role_type: m.role_type,
                    partial_target: m.partial,
                    line: line as u32,
                    target_start: m.target_start as u32,
                    character: character as u32,
                    vault,
                    path,
                },
            ),
            None => None,
        }
    }

    /// The completions for the role's target, drawn from every referenceable
    /// of the vault in the vault's order.
    pub fn completions(&self) -> (r: Vec<RoleCompletion>)
        ensures
            completion_views(r@) == role_completions(
                spec_select_referenceables(self@.vault.md_files@, self@.vault.root_dir@, None),
                self@.role_type,
                self@.vault.root_dir@,
                self@.path,
                self@.partial,
            ),
    {
        let referenceables = self.vault.select_referenceable_nodes(None);
        let ghost refs = views(referenceables@);
        let partial_lower = to_lowercase(self.partial_target.as_str());
        let pv = chars_of(self.partial_target.as_str());
        let uses_root = starts_with_char(&pv, '/');
        let root = self.vault.root_dir();
        let is_doc = self.role_type == RoleType::Doc || self.role_type == RoleType::Download;
        let mut out: Vec<RoleCompletion> = Vec::new();
        let mut i: usize = 0;
        assert(completion_views(out@) =~= Seq::<RoleCompletionView>::empty());
        while i < referenceables.len()
            invariant
                i <= referenceables.len(),
                refs == views(referenceables@),
                refs == spec_select_referenceables(
                    self@.vault.md_files@,
                    self@.vault.root_dir@,
                    None,
                ),
                root@ == self@.vault.root_dir@,
                partial_lower@ == lowercase(self@.partial),
                uses_root == starts_with(self@.partial, seq!['/']),
                is_doc == (self@.role_type == RoleType::Doc || self@.role_type == RoleType::Download),
                self.path@ == self@.path,
                self.role_type == self@.role_type,
                self.partial_target@ == self@.partial,
                completion_views(out@) == role_completions(
                    refs.subrange(0, i as int),
                    self@.role_type,
                    self@.vault.root_dir@,
                    self@.path,
                    self@.partial,
                ),
            decreases referenceables.len() - i,
        {
            let ghost sub = refs.subrange(0, i + 1);
            assert(sub.drop_last() =~= refs.subrange(0, i as int));
            assert(sub.last() == referenceables@[i as int]@);
            let completion = if is_doc {
                RoleCompletion::from_referenceable_with_root_prefix(
                    &referenceables[i],
                    self.role_type,
                    root.as_str(),
                    self.path,
                    self.partial_target.as_str(),
                )
            } else {
                RoleCompletion::from_referenceable(
                    &referenceables[i],
                    self.role_type,
                    root.as_str(),
                    self.path,
                )
            };
            match completion {
                Some(c) => {
                    let keep = if uses_root {
                        true
                    } else if partial_lower.as_str().is_empty() {
                        true
                    } else {
                        let label_lower = to_lowercase(c.label.as_str());
                        str_contains(label_lower.as_str(), partial_lower.as_str())
                    };
                    if keep {
                        out.push(c);
                    }
                    assert(completion_views(out@) =~= role_completions(
                        sub,
                        self@.role_type,
                        self@.vault.root_dir@,
                        self@.path,
                        self@.partial,
                    ));
                },
                None => {
                    assert(completion_views(out@) =~= role_completions(
                        sub,
                        self@.role_type,
                        self@.vault.root_dir@,
                        self@.path,
                        self@.partial,
                    ));
                },
            }
            i += 1;
        }
        assert(refs.subrange(0, i as int) =~= refs);
        out
    }

    /// The text a client filters the completions by: `{role}`, a backtick,
    /// then the partial target.
    pub fn completion_filter_text(&self) -> (r: String)
        ensures
            r@ == role_filter_text(self@.role_type, self@.partial),
    {
        let mut open: Vec<char> = Vec::new();
        open.push('\u{7b}');
        let mut close: Vec<char> = Vec::new();
        close.push('\u{7d}');
        close.push('`');
        let mut s = string_of(&open);
        s.append(self.role_type.name());
        let c = string_of(&close);
        s.append(c.as_str());
        s.append(self.partial_target.as_str());
        assert(open@ =~= seq!['\u{7b}']);
        assert(close@ =~= seq!['\u{7d}', '`']);
        s
    }

    /// The completion item for a role completion: its insert text replaces
    /// the target from its start to the cursor.
    pub fn completion_item(&self, c: &RoleCompletion) -> (r: CompletionItem)
        ensures
            r.label@ == c.label@,
            opt_view(r.detail) == opt_view(c.detail),
            r.kind == c.kind,
            !r.snippet,
            r.text_edit.range == (Range {
                start: Position { line: self@.line, character: self@.target_start },
                end: Position { line: self@.line, character: self@.character },
            }),
            r.text_edit.new_text@ == c.insert_text@,
            r.filter_text@ == role_filter_text(self@.role_type, self@.partial),
    {
        let detail = match &c.detail {
            Some(d) => Some(d.clone()),
            None => None,
        };
        CompletionItem {
            label: c.label.clone(),
            detail,
            kind: c.kind,
            snippet: false,
            text_edit: TextEdit {
                range: Range {
                    start: Position { line: self.line, character: self.target_start },
                    end: Position { line: self.line, character: self.character },
                },
                new_text: c.insert_text.clone(),
            },
            filter_text: self.completion_filter_text(),
        }
    }
}

} // verus!
