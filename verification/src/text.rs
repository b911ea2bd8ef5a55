//! Character-level text utilities shared by the parsers and the vault.
//!
//! Text is modelled as a `Seq<char>` (the view of `String` and `&str`).
//! Executable helpers work on `Vec<char>` copies of the text so that every
//! index computation is checked.

use vstd::prelude::*;
use vstd::string::StringSliceAdditionalSpecFns;

verus! {

// ---------------------------------------------------------------------------
// Specifications
// ---------------------------------------------------------------------------

/// `p` is a prefix of `s`.
pub open spec fn starts_with(s: Seq<char>, p: Seq<char>) -> bool {
    p.len() <= s.len() && s.subrange(0, p.len() as int) == p
}

/// `p` is a suffix of `s`.
pub open spec fn ends_with(s: Seq<char>, p: Seq<char>) -> bool {
    p.len() <= s.len() && s.subrange(s.len() - p.len(), s.len() as int) == p
}

/// `p` occurs somewhere in `s` as a contiguous block.
pub open spec fn contains_sub(s: Seq<char>, p: Seq<char>) -> bool {
    exists|i: int| 0 <= i && i + p.len() <= s.len() && #[trigger] s.subrange(i, i + p.len()) == p
}

/// Index of the first occurrence of `c` in `s`.
pub open spec fn first_index_of(s: Seq<char>, c: char) -> Option<nat>
    decreases s.len(),
{
    if s.len() == 0 {
        None
    } else if s[0] == c {
        Some(0)
    } else {
        match first_index_of(s.drop_first(), c) {
            Some(i) => Some(i + 1),
            None => None,
        }
    }
}

/// The part of `s` after the last occurrence of `c` (all of `s` when `c` does not occur).
pub open spec fn after_last(s: Seq<char>, c: char) -> Seq<char>
    decreases s.len(),
{
    if s.len() == 0 {
        s
    } else if s.last() == c {
        Seq::empty()
    } else {
        after_last(s.drop_last(), c).push(s.last())
    }
}

/// The decimal digit character for `d < 10`.
pub open spec fn digit_char(d: nat) -> char {
    if d == 0 {
        '0'
    } else if d == 1 {
        '1'
    } else if d == 2 {
        '2'
    } else if d == 3 {
        '3'
    } else if d == 4 {
        '4'
    } else if d == 5 {
        '5'
    } else if d == 6 {
        '6'
    } else if d == 7 {
        '7'
    } else if d == 8 {
        '8'
    } else {
        '9'
    }
}

/// The decimal representation of `n`, as `usize::to_string` writes it.
pub open spec fn decimal(n: nat) -> Seq<char>
    decreases n,
{
    if n < 10 {
        seq![digit_char(n)]
    } else {
        decimal(n / 10).push(digit_char(n % 10))
    }
}

/// `s` with every occurrence of `c` replaced by `d`.
pub open spec fn replace_char(s: Seq<char>, c: char, d: char) -> Seq<char> {
    s.map_values(|x: char| if x == c { d } else { x })
}

// ---------------------------------------------------------------------------
// Trusted conversions and case mapping
// ---------------------------------------------------------------------------

/// What `str::to_lowercase` returns for a text: Unicode lowercase mapping,
/// which takes pages to state.
pub uninterp spec fn lowercase(s: Seq<char>) -> Seq<char>;

/// Calls `str::to_lowercase`; its result is a function of the text alone.
#[verifier::external_body]
pub(crate) fn to_lowercase(s: &str) -> (r: String)
    ensures
        r@ == lowercase(s@),
{
    s.to_lowercase()
}

/// Collects the characters of a text (`str::chars`) into a vector.
#[verifier::external_body]
pub(crate) fn chars_of(s: &str) -> (r: Vec<char>)
    ensures
        r@ == s@,
{
    s.chars().collect()
}

/// Builds a `String` from characters (`String::from_iter`).
#[verifier::external_body]
pub(crate) fn string_of(v: &Vec<char>) -> (r: String)
    ensures
        r@ == v@,
{
    v.iter().collect()
}

// ---------------------------------------------------------------------------
// Executable helpers
// ---------------------------------------------------------------------------

/// Concatenation of two texts.
pub fn concat(a: &str, b: &str) -> (r: String)
    ensures
        r@ == a@ + b@,
{
    let mut s = String::from_str(a);
    s.append(b);
    s
}

/// Concatenation of three texts.
pub fn concat3(a: &str, b: &str, c: &str) -> (r: String)
    ensures
        r@ == a@ + b@ + c@,
{
    let mut s = String::from_str(a);
    s.append(b);
    s.append(c);
    s
}

/// Copy of the characters `from..to` of `v`.
pub fn sub_vec(v: &Vec<char>, from: usize, to: usize) -> (r: Vec<char>)
    requires
        from <= to <= v.len(),
    ensures
        r@ == v@.subrange(from as int, to as int),
{
    let mut r: Vec<char> = Vec::new();
    let mut i = from;
    while i < to
        invariant
            from <= i <= to <= v.len(),
            r@ == v@.subrange(from as int, i as int),
        decreases to - i,
    {
        r.push(v[i]);
        i += 1;
    }
    r
}

/// `p` is a prefix of `v`.
pub fn vec_starts_with(v: &Vec<char>, p: &Vec<char>) -> (r: bool)
    ensures
        r == starts_with(v@, p@),
{
    if p.len() > v.len() {
        return false;
    }
    let mut i: usize = 0;
    while i < p.len()
        invariant
            i <= p.len() <= v.len(),
            forall|j: int| 0 <= j < i ==> v@[j] == p@[j],
        decreases p.len() - i,
    {
        if v[i] != p[i] {
            assert(v@.subrange(0, p@.len() as int)[i as int] != p@[i as int]);
            return false;
        }
        i += 1;
    }
    assert(v@.subrange(0, p@.len() as int) =~= p@);
    true
}

/// `p` is a suffix of `v`.
pub fn vec_ends_with(v: &Vec<char>, p: &Vec<char>) -> (r: bool)
    ensures
        r == ends_with(v@, p@),
{
    if p.len() > v.len() {
        return false;
    }
    let off = v.len() - p.len();
    let mut i: usize = 0;
    while i < p.len()
        invariant
            i <= p.len() <= v.len(),
            off == v.len() - p.len(),
            forall|j: int| 0 <= j < i ==> v@[off + j] == p@[j],
        decreases p.len() - i,
    {
        if v[off + i] != p[i] {
            assert(v@.subrange(off as int, v@.len() as int)[i as int] != p@[i as int]);
            return false;
        }
        i += 1;
    }
    assert(v@.subrange(off as int, v@.len() as int) =~= p@);
    true
}

/// The block `p` occurs in `v` starting at `i`.
pub open spec fn occurs_at(s: Seq<char>, p: Seq<char>, i: int) -> bool {
    0 <= i && i + p.len() <= s.len() && s.subrange(i, i + p.len()) == p
}

fn vec_occurs_at(v: &Vec<char>, p: &Vec<char>, i: usize) -> (r: bool)
    requires
        i + p.len() <= v.len(),
    ensures
        r == occurs_at(v@, p@, i as int),
{
    let mut j: usize = 0;
    while j < p.len()
        invariant
            j <= p.len(),
            i + p.len() <= v.len(),
            forall|k: int| 0 <= k < j ==> v@[i + k] == p@[k],
        decreases p.len() - j,
    {
        if v[i + j] != p[j] {
            assert(v@.subrange(i as int, i + p@.len())[j as int] != p@[j as int]);
            return false;
        }
        j += 1;
    }
    assert(v@.subrange(i as int, i + p@.len()) =~= p@);
    true
}

/// `p` occurs in `v`.
pub fn vec_contains_sub(v: &Vec<char>, p: &Vec<char>) -> (r: bool)
    ensures
        r == contains_sub(v@, p@),
{
    if p.len() > v.len() {
        return false;
    }
    let last = v.len() - p.len();
    let mut i: usize = 0;
    while i < last
        invariant
            p.len() <= v.len(),
            last == v.len() - p.len(),
            i <= last,
            forall|k: int| 0 <= k < i ==> !occurs_at(v@, p@, k),
        decreases last - i,
    {
        if vec_occurs_at(v, p, i) {
            assert(v@.subrange(i as int, i + p@.len()) == p@);
            return true;
        }
        i += 1;
    }
    if vec_occurs_at(v, p, last) {
        assert(v@.subrange(last as int, last + p@.len()) == p@);
        return true;
    }
    assert forall|k: int| 0 <= k && k + p@.len() <= v@.len() implies #[trigger] v@.subrange(
        k,
        k + p@.len(),
    ) != p@ by {
        assert(!occurs_at(v@, p@, k));
    }
    false
}

/// `c` occurs in `v`.
pub fn vec_contains_char(v: &Vec<char>, c: char) -> (r: bool)
    ensures
        r == v@.contains(c),
{
    let mut i: usize = 0;
    while i < v.len()
        invariant
            i <= v.len(),
            forall|k: int| 0 <= k < i ==> v@[k] != c,
        decreases v.len() - i,
    {
        if v[i] == c {
            assert(v@[i as int] == c);
            return true;
        }
        i += 1;
    }
    false
}

proof fn lemma_first_index_of(s: Seq<char>, c: char, i: int)
    requires
        0 <= i <= s.len(),
        forall|k: int| 0 <= k < i ==> s[k] != c,
        i == s.len() || s[i] == c,
    ensures
        first_index_of(s, c) == (if i == s.len() { None::<nat> } else { Some(i as nat) }),
    decreases s.len(),
{
    if s.len() > 0 && i > 0 {
        lemma_first_index_of(s.drop_first(), c, i - 1);
    }
}

/// Index of the first `c` in `v`.
pub fn vec_find_char(v: &Vec<char>, c: char) -> (r: Option<usize>)
    ensures
        r matches Some(i) ==> first_index_of(v@, c) == Some(i as nat) && i < v@.len() && v@[i as int]
            == c,
        r is None ==> first_index_of(v@, c) is None,
{
    let mut i: usize = 0;
    while i < v.len()
        invariant
            i <= v.len(),
            forall|k: int| 0 <= k < i ==> v@[k] != c,
        decreases v.len() - i,
    {
        if v[i] == c {
            proof {
                lemma_first_index_of(v@, c, i as int);
            }
            return Some(i);
        }
        i += 1;
    }
    proof {
        lemma_first_index_of(v@, c, i as int);
    }
    None
}

/// A text with no `c` is its own part after the last `c`.
pub proof fn lemma_after_last_no_sep(s: Seq<char>, c: char)
    requires
        !s.contains(c),
    ensures
        after_last(s, c) == s,
    decreases s.len(),
{
    if s.len() > 0 {
        assert(s.drop_last().len() < s.len());
        assert forall|k: int| 0 <= k < s.drop_last().len() implies s.drop_last()[k] != c by {
            assert(s[k] != c);
        }
        lemma_after_last_no_sep(s.drop_last(), c);
        assert(s.drop_last().push(s.last()) =~= s);
    }
}

proof fn lemma_after_last_split(s: Seq<char>, c: char, i: int)
    requires
        0 <= i < s.len(),
        s[i] == c,
        forall|k: int| i < k < s.len() ==> s[k] != c,
    ensures
        after_last(s, c) == s.subrange(i + 1, s.len() as int),
    decreases s.len(),
{
    if i == s.len() - 1 {
        assert(s.subrange(i + 1, s.len() as int) =~= Seq::<char>::empty());
    } else {
        lemma_after_last_split(s.drop_last(), c, i);
        assert(s.drop_last().subrange(i + 1, s.drop_last().len() as int).push(s.last())
            =~= s.subrange(i + 1, s.len() as int));
    }
}

/// The characters of `v` after the last `c`.
pub fn vec_after_last(v: &Vec<char>, c: char) -> (r: Vec<char>)
    ensures
        r@ == after_last(v@, c),
{
    let mut i = v.len();
    while i > 0
        invariant
            i <= v.len(),
            forall|k: int| i <= k < v.len() ==> v@[k] != c,
        decreases i,
    {
        if v[i - 1] == c {
            proof {
                lemma_after_last_split(v@, c, i - 1);
            }
            return sub_vec(v, i, v.len());
        }
        i -= 1;
    }
    proof {
        assert(!v@.contains(c));
        lemma_after_last_no_sep(v@, c);
        assert(v@.subrange(0, v@.len() as int) =~= v@);
    }
    sub_vec(v, 0, v.len())
}

/// A single decimal digit character.
pub fn digit(d: usize) -> (r: char)
    requires
        d < 10,
    ensures
        r == digit_char(d as nat),
{
    if d == 0 {
        '0'
    } else if d == 1 {
        '1'
    } else if d == 2 {
        '2'
    } else if d == 3 {
        '3'
    } else if d == 4 {
        '4'
    } else if d == 5 {
        '5'
    } else if d == 6 {
        '6'
    } else if d == 7 {
        '7'
    } else if d == 8 {
        '8'
    } else {
        '9'
    }
}

fn push_decimal(n: usize, out: &mut Vec<char>)
    ensures
        final(out)@ == old(out)@ + decimal(n as nat),
    decreases n,
{
    if n >= 10 {
        push_decimal(n / 10, out);
    }
    out.push(digit(n % 10));
    proof {
        if n < 10 {
            assert(decimal(n as nat) =~= seq![digit_char(n as nat)]);
        }
    }
}

/// The decimal representation of `n`.
pub fn decimal_string(n: usize) -> (r: String)
    ensures
        r@ == decimal(n as nat),
{
    let mut v: Vec<char> = Vec::new();
    push_decimal(n, &mut v);
    assert(v@ =~= decimal(n as nat));
    string_of(&v)
}

/// Replaces every `c` by `d`.
pub fn vec_replace_char(v: &Vec<char>, c: char, d: char) -> (r: Vec<char>)
    ensures
        r@ == replace_char(v@, c, d),
{
    let mut r: Vec<char> = Vec::new();
    let mut i: usize = 0;
    while i < v.len()
        invariant
            i <= v.len(),
            r@ == replace_char(v@.subrange(0, i as int), c, d),
        decreases v.len() - i,
    {
        let x = v[i];
        r.push(if x == c { d } else { x });
        proof {
            assert(v@.subrange(0, i + 1) =~= v@.subrange(0, i as int).push(x));
            assert(replace_char(v@.subrange(0, i + 1), c, d) =~= replace_char(
                v@.subrange(0, i as int),
                c,
                d,
            ).push(if x == c { d } else { x }));
        }
        i += 1;
    }
    assert(v@.subrange(0, v@.len() as int) =~= v@);
    r
}

/// Text equality.
pub fn str_eq(a: &str, b: &str) -> (r: bool)
    ensures
        r == (a@ == b@),
{
    let va = chars_of(a);
    let vb = chars_of(b);
    if va.len() != vb.len() {
        return false;
    }
    let mut i: usize = 0;
    while i < va.len()
        invariant
            i <= va.len() == vb.len(),
            va@ == a@,
            vb@ == b@,
            forall|k: int| 0 <= k < i ==> va@[k] == vb@[k],
        decreases va.len() - i,
    {
        if va[i] != vb[i] {
            assert(va@[i as int] != vb@[i as int]);
            return false;
        }
        i += 1;
    }
    assert(va@ =~= vb@);
    true
}

/// `p` is a prefix of `s`.
pub fn str_starts_with(s: &str, p: &str) -> (r: bool)
    ensures
        r == starts_with(s@, p@),
{
    vec_starts_with(&chars_of(s), &chars_of(p))
}

/// `p` is a suffix of `s`.
pub fn str_ends_with(s: &str, p: &str) -> (r: bool)
    ensures
        r == ends_with(s@, p@),
{
    vec_ends_with(&chars_of(s), &chars_of(p))
}

/// `c` occurs in `s`.
pub fn str_contains_char(s: &str, c: char) -> (r: bool)
    ensures
        r == s@.contains(c),
{
    vec_contains_char(&chars_of(s), c)
}

/// `p` occurs in `s`.
pub fn str_contains(s: &str, p: &str) -> (r: bool)
    ensures
        r == contains_sub(s@, p@),
{
    vec_contains_sub(&chars_of(s), &chars_of(p))
}

/// Equality after lowercasing both sides.
pub fn eq_ignore_case(a: &str, b: &str) -> (r: bool)
    ensures
        r == (lowercase(a@) == lowercase(b@)),
{
    let la = to_lowercase(a);
    let lb = to_lowercase(b);
    str_eq(la.as_str(), lb.as_str())
}

/// A character with Unicode's White_Space property, which is what
/// `char::is_whitespace`, and so `str::trim`, go by.
pub open spec fn is_white_space(c: char) -> bool {
    let n = c as u32;
    ||| 9 <= n <= 13
    ||| n == 0x20
    ||| n == 0x85
    ||| n == 0xa0
    ||| n == 0x1680
    ||| 0x2000 <= n <= 0x200a
    ||| n == 0x2028
    ||| n == 0x2029
    ||| n == 0x202f
    ||| n == 0x205f
    ||| n == 0x3000
}

/// Whether a character is white space.
pub fn white_space(c: char) -> (r: bool)
    ensures
        r == is_white_space(c),
{
    let n = c as u32;
    (9 <= n && n <= 13) || n == 0x20 || n == 0x85 || n == 0xa0 || n == 0x1680 || (0x2000 <= n && n
        <= 0x200a) || n == 0x2028 || n == 0x2029 || n == 0x202f || n == 0x205f || n == 0x3000
}

/// The text without the white space at its start.
pub open spec fn trimmed_start(s: Seq<char>) -> Seq<char>
    decreases s.len(),
{
    if s.len() > 0 && is_white_space(s[0]) {
        trimmed_start(s.drop_first())
    } else {
        s
    }
}

/// The text without the white space at its end.
pub open spec fn trimmed_end(s: Seq<char>) -> Seq<char>
    decreases s.len(),
{
    if s.len() > 0 && is_white_space(s.last()) {
        trimmed_end(s.drop_last())
    } else {
        s
    }
}

/// The text without the white space at either end, as `str::trim` gives it.
pub open spec fn trimmed(s: Seq<char>) -> Seq<char> {
    trimmed_end(trimmed_start(s))
}

/// `str::trim_start`: the text without leading white space.
pub fn trim_start(s: &str) -> (r: String)
    ensures
        r@ == trimmed_start(s@),
{
    let v = chars_of(s);
    let mut i: usize = 0;
    assert(v@.subrange(0, v@.len() as int) =~= v@);
    while i < v.len() && white_space(v[i])
        invariant
            i <= v.len(),
            v@ == s@,
            trimmed_start(v@.subrange(i as int, v@.len() as int)) == trimmed_start(s@),
        decreases v.len() - i,
    {
        assert(v@.subrange(i as int, v@.len() as int).drop_first() =~= v@.subrange(i + 1, v@.len() as int));
        i += 1;
    }
    let rest = sub_vec(&v, i, v.len());
    string_of(&rest)
}

/// `str::trim_end`: the text without trailing white space.
pub fn trim_end(s: &str) -> (r: String)
    ensures
        r@ == trimmed_end(s@),
{
    let v = chars_of(s);
    let mut j: usize = v.len();
    assert(v@.subrange(0, v@.len() as int) =~= v@);
    while j > 0 && white_space(v[j - 1])
        invariant
            j <= v.len(),
            v@ == s@,
            trimmed_end(v@.subrange(0, j as int)) == trimmed_end(s@),
        decreases j,
    {
        assert(v@.subrange(0, j as int).drop_last() =~= v@.subrange(0, j - 1));
        j -= 1;
    }
    let rest = sub_vec(&v, 0, j);
    string_of(&rest)
}

/// `str::trim`: the text without white space at either end.
pub fn trim(s: &str) -> (r: String)
    ensures
        r@ == trimmed(s@),
{
    let a = trim_start(s);
    trim_end(a.as_str())
}

} // verus!

verus! {

/// `s` with every non-overlapping occurrence of `pat`, scanning left to
/// right, replaced by `rep` (as `str::replace` does for a non-empty pattern).
pub open spec fn replace_all(s: Seq<char>, pat: Seq<char>, rep: Seq<char>) -> Seq<char>
    decreases s.len(),
{
    if s.len() == 0 {
        s
    } else if pat.len() > 0 && starts_with(s, pat) {
        rep + replace_all(s.skip(pat.len() as int), pat, rep)
    } else {
        seq![s[0]] + replace_all(s.drop_first(), pat, rep)
    }
}

/// Replacing a non-empty pattern that does not occur leaves a text unchanged.
pub proof fn lemma_replace_all_absent(s: Seq<char>, pat: Seq<char>, rep: Seq<char>)
    requires
        pat.len() > 0,
        !contains_sub(s, pat),
    ensures
        replace_all(s, pat, rep) == s,
    decreases s.len(),
{
    if s.len() > 0 {
        if starts_with(s, pat) {
            assert(s.subrange(0, 0 + pat.len() as int) == pat);
        }
        assert forall|i: int|
            0 <= i && i + pat.len() <= s.drop_first().len() implies #[trigger] s.drop_first().subrange(
            i,
            i + pat.len(),
        ) != pat by {
            assert(s.drop_first().subrange(i, i + pat.len()) =~= s.subrange(
                i + 1,
                i + 1 + pat.len(),
            ));
        }
        lemma_replace_all_absent(s.drop_first(), pat, rep);
        assert(seq![s[0]] + s.drop_first() =~= s);
    }
}

/// The index of the first occurrence of `pat` in `s`.
pub open spec fn find_sub(s: Seq<char>, pat: Seq<char>) -> Option<nat>
    decreases s.len(),
{
    if starts_with(s, pat) {
        Some(0)
    } else if s.len() == 0 {
        None
    } else {
        match find_sub(s.drop_first(), pat) {
            Some(i) => Some(i + 1),
            None => None,
        }
    }
}

/// `s` with its first occurrence of `pat` replaced by `rep` (as
/// `str::replacen(pat, rep, 1)` does).
pub open spec fn replace_first(s: Seq<char>, pat: Seq<char>, rep: Seq<char>) -> Seq<char> {
    match find_sub(s, pat) {
        Some(i) => s.subrange(0, i as int) + rep + s.skip((i + pat.len()) as int),
        None => s,
    }
}

proof fn lemma_occurs_at_skip(s: Seq<char>, pat: Seq<char>, i: int)
    requires
        0 <= i <= s.len(),
    ensures
        occurs_at(s, pat, i) == starts_with(s.skip(i), pat),
{
    if occurs_at(s, pat, i) {
        assert(s.skip(i).subrange(0, pat.len() as int) =~= s.subrange(i, i + pat.len()));
    }
    if starts_with(s.skip(i), pat) {
        assert(s.skip(i).subrange(0, pat.len() as int) =~= s.subrange(i, i + pat.len()));
    }
}

proof fn lemma_find_sub(s: Seq<char>, pat: Seq<char>, i: int)
    requires
        0 <= i <= s.len(),
        forall|k: int| 0 <= k < i ==> !occurs_at(s, pat, k),
    ensures
        find_sub(s, pat) == (match find_sub(s.skip(i), pat) {
            Some(j) => Some((j + i) as nat),
            None => None::<nat>,
        }),
    decreases i,
{
    if i > 0 {
        lemma_occurs_at_skip(s, pat, 0);
        assert(s.skip(0) =~= s);
        assert(!starts_with(s, pat));
        assert forall|k: int| 0 <= k < i - 1 implies !occurs_at(s.drop_first(), pat, k) by {
            assert(!occurs_at(s, pat, k + 1));
            if occurs_at(s.drop_first(), pat, k) {
                assert(s.drop_first().subrange(k, k + pat.len()) =~= s.subrange(
                    k + 1,
                    k + 1 + pat.len(),
                ));
            }
        }
        lemma_find_sub(s.drop_first(), pat, i - 1);
        assert(s.drop_first().skip(i - 1) =~= s.skip(i));
    } else {
        assert(s.skip(0) =~= s);
    }
}

/// Index of the first occurrence of `p` in `v`.
pub fn vec_find_sub(v: &Vec<char>, p: &Vec<char>) -> (r: Option<usize>)
    ensures
        r matches Some(i) ==> find_sub(v@, p@) == Some(i as nat) && i + p@.len() <= v@.len(),
        r is None ==> find_sub(v@, p@) is None,
{
    if p.len() > v.len() {
        proof {
            lemma_no_occurrence_too_long(v@, p@);
        }
        return None;
    }
    let last = v.len() - p.len();
    let mut i: usize = 0;
    while i <= last
        invariant
            p.len() <= v.len(),
            last == v.len() - p.len(),
            i <= last,
            forall|k: int| 0 <= k < i ==> !occurs_at(v@, p@, k),
        decreases last + 1 - i,
    {
        if vec_occurs_at(v, p, i) {
            proof {
                lemma_find_sub(v@, p@, i as int);
                lemma_occurs_at_skip(v@, p@, i as int);
            }
            return Some(i);
        }
        if i == last {
            assert(p@.len() > 0) by {
                if p@.len() == 0 {
                    assert(v@.subrange(i as int, i as int) =~= p@);
                }
            }
            proof {
                lemma_find_sub(v@, p@, (i + 1) as int);
                lemma_no_occurrence_too_long(v@.skip(i + 1), p@);
            }
            return None;
        }
        i += 1;
    }
    proof {
        assert(false);
    }
    None
}

proof fn lemma_no_occurrence_too_long(s: Seq<char>, pat: Seq<char>)
    requires
        pat.len() > s.len(),
    ensures
        find_sub(s, pat) is None,
    decreases s.len(),
{
    if s.len() > 0 {
        lemma_no_occurrence_too_long(s.drop_first(), pat);
    }
}

/// Replaces the first occurrence of `pat` in `s` by `rep`.
pub fn str_replace_first(s: &str, pat: &str, rep: &str) -> (r: String)
    ensures
        r@ == replace_first(s@, pat@, rep@),
{
    let v = chars_of(s);
    let p = chars_of(pat);
    let found = vec_find_sub(&v, &p);
    match found {
        Some(i) => {
            assert(i + p@.len() <= v@.len());
            assert(i + p.len() <= v.len());
            let before = string_of(&sub_vec(&v, 0, i));
            let after = string_of(&sub_vec(&v, i + p.len(), v.len()));
            assert(v@.subrange((i + p@.len()) as int, v@.len() as int) =~= v@.skip(
                (i + p@.len()) as int,
            ));
            concat3(before.as_str(), rep, after.as_str())
        },
        None => String::from_str(s),
    }
}

proof fn lemma_replace_all_step(s: Seq<char>, pat: Seq<char>, rep: Seq<char>, i: int)
    requires
        0 <= i < s.len(),
    ensures
        pat.len() > 0 && occurs_at(s, pat, i) ==> replace_all(s.skip(i), pat, rep) == rep
            + replace_all(s.skip(i + pat.len()), pat, rep),
        !(pat.len() > 0 && occurs_at(s, pat, i)) ==> replace_all(s.skip(i), pat, rep) == seq![
            s[i],
        ] + replace_all(s.skip(i + 1), pat, rep),
{
    lemma_occurs_at_skip(s, pat, i);
    if i + pat.len() <= s.len() {
        assert(s.skip(i).skip(pat.len() as int) =~= s.skip(i + pat.len()));
    }
    assert(s.skip(i).drop_first() =~= s.skip(i + 1));
}

/// Replaces every occurrence of a non-empty `pat` in `s` by `rep`.
pub fn str_replace_all(s: &str, pat: &str, rep: &str) -> (r: String)
    ensures
        r@ == replace_all(s@, pat@, rep@),
{
    let v = chars_of(s);
    let p = chars_of(pat);
    let w = chars_of(rep);
    let mut out: Vec<char> = Vec::new();
    let mut i: usize = 0;
    assert(v@.skip(0) =~= v@);
    assert(out@ + replace_all(v@, p@, w@) =~= replace_all(v@, p@, w@));
    while i < v.len()
        invariant
            i <= v.len(),
            v@ == s@,
            p@ == pat@,
            w@ == rep@,
            out@ + replace_all(v@.skip(i as int), p@, w@) == replace_all(v@, p@, w@),
        decreases v.len() - i,
    {
        proof {
            lemma_replace_all_step(v@, p@, w@, i as int);
        }
        if p.len() > 0 && p.len() <= v.len() - i && vec_occurs_at(&v, &p, i) {
            let mut j: usize = 0;
            let ghost before = out@;
            while j < w.len()
                invariant
                    j <= w.len(),
                    out@ == before + w@.subrange(0, j as int),
                decreases w.len() - j,
            {
                out.push(w[j]);
                j += 1;
            }
            assert(w@.subrange(0, w@.len() as int) =~= w@);
            assert(before + (w@ + replace_all(v@.skip(i + p@.len()), p@, w@)) =~= (before + w@)
                + replace_all(v@.skip(i + p@.len()), p@, w@));
            i = i + p.len();
        } else {
            let ghost before = out@;
            out.push(v[i]);
            assert(before + (seq![v@[i as int]] + replace_all(v@.skip(i + 1), p@, w@)) =~= (before
                + seq![v@[i as int]]) + replace_all(v@.skip(i + 1), p@, w@));
            i = i + 1;
        }
    }
    assert(v@.skip(v@.len() as int) =~= Seq::<char>::empty());
    assert(out@ + Seq::<char>::empty() =~= out@);
    string_of(&out)
}

} // verus!

verus! {

// ---------------------------------------------------------------------------
// Byte offsets
// ---------------------------------------------------------------------------

/// The UTF-8 length of a text in bytes.
pub open spec fn byte_len(s: Seq<char>) -> nat {
    vstd::utf8::encode_utf8(s).len()
}

/// Byte offset `n` of `s` falls between two characters (or at an end).
pub open spec fn at_char_boundary(s: Seq<char>, n: int) -> bool {
    vstd::utf8::is_char_boundary(vstd::utf8::encode_utf8(s), n)
}

/// The text before byte offset `n` of `s`; all of `s` when `n` lies past its end.
pub open spec fn byte_prefix(s: Seq<char>, n: int) -> Seq<char> {
    if n <= byte_len(s) {
        vstd::utf8::decode_utf8(vstd::utf8::encode_utf8(s).subrange(0, n))
    } else {
        s
    }
}

/// The text before byte offset `n` (the whole text when `n` lies past its
/// end), as the slice `&s[..n]` gives it.
pub fn str_byte_prefix(s: &str, n: usize) -> (r: &str)
    requires
        byte_len(s@) <= usize::MAX,
        n <= byte_len(s@) ==> at_char_boundary(s@, n as int),
    ensures
        r@ == byte_prefix(s@, n as int),
        byte_len(r@) <= byte_len(s@),
{
    if n <= s.len() {
        let (a, _b) = s.split_at(n);
        proof {
            vstd::utf8::encode_utf8_decode_utf8(a@);
            assert(a.spec_bytes() == vstd::utf8::encode_utf8(a@));
            assert(s.spec_bytes() == vstd::utf8::encode_utf8(s@));
            assert(a.spec_bytes() =~= s.spec_bytes().subrange(0, n as int));
        }
        a
    } else {
        s
    }
}

} // verus!

verus! {

// ---------------------------------------------------------------------------
// Lines
// ---------------------------------------------------------------------------

/// The words joined with `sep` between each two.
pub open spec fn join_words(ws: Seq<Seq<char>>, sep: char) -> Seq<char>
    decreases ws.len(),
{
    if ws.len() == 0 {
        Seq::empty()
    } else if ws.len() == 1 {
        ws[0]
    } else {
        join_words(ws.drop_last(), sep) + seq![sep] + ws.last()
    }
}

/// A line without the `\r` of a `\r\n` ending.
pub open spec fn strip_cr(l: Seq<char>) -> Seq<char> {
    if l.len() > 0 && l.last() == '\r' {
        l.drop_last()
    } else {
        l
    }
}

/// The lines `str::lines` yields: the text split at `\n`, each line ended
/// by `\n` losing a `\r` before it, and no empty line after a final `\n`.
pub open spec fn str_lines(s: Seq<char>) -> Seq<Seq<char>> {
    let segs = crate::vault::referenceable::split_segments(s, '\n');
    let body = segs.drop_last().map_values(|l: Seq<char>| strip_cr(l));
    if segs.last().len() == 0 {
        body
    } else {
        body.push(segs.last())
    }
}

/// The lines of a text, as `str::lines` gives them.
pub fn lines_of(s: &str) -> (r: Vec<String>)
    ensures
        r@.map_values(|l: String| l@) == str_lines(s@),
{
    let segs = crate::vault::referenceable::split_text(s, '\n');
    let ghost sv = segs@.map_values(|v: Vec<char>| v@);
    assert(sv == crate::vault::referenceable::split_segments(s@, '\n'));
    assert(sv.len() > 0) by {
        crate::vault::referenceable::lemma_split_segments_nonempty(s@, '\n');
    }
    let mut out: Vec<String> = Vec::new();
    let mut i: usize = 0;
    while i + 1 < segs.len()
        invariant
            i + 1 <= segs.len(),
            sv == segs@.map_values(|v: Vec<char>| v@),
            out@.map_values(|l: String| l@) == sv.subrange(0, i as int).map_values(
                |l: Seq<char>| strip_cr(l),
            ),
        decreases segs.len() - i,
    {
        let seg = &segs[i];
        let line = if seg.len() > 0 && seg[seg.len() - 1] == '\r' {
            sub_vec(seg, 0, seg.len() - 1)
        } else {
            sub_vec(seg, 0, seg.len())
        };
        assert(seg@.subrange(0, seg@.len() as int) =~= seg@);
        assert(sv[i as int] == seg@);
        assert(seg@.len() > 0 ==> seg@.subrange(0, seg@.len() - 1) =~= seg@.drop_last());
        assert(line@ == strip_cr(sv[i as int]));
        let ghost before = out@.map_values(|l: String| l@);
        out.push(string_of(&line));
        assert(out@.map_values(|l: String| l@) =~= before.push(line@));
        assert(sv.subrange(0, i + 1) =~= sv.subrange(0, i as int).push(sv[i as int]));
        assert(out@.map_values(|l: String| l@) =~= sv.subrange(0, i + 1).map_values(
            |l: Seq<char>| strip_cr(l),
        ));
        i += 1;
    }
    assert(sv.subrange(0, i as int) =~= sv.drop_last());
    let last = &segs[segs.len() - 1];
    assert(sv.last() == last@);
    if last.len() > 0 {
        out.push(string_of(last));
        assert(out@.map_values(|l: String| l@) =~= sv.drop_last().map_values(
            |l: Seq<char>| strip_cr(l),
        ).push(sv.last()));
    }
    out
}

} // verus!

verus! {

/// The texts joined with `sep` between each two (`[String]::join`).
pub fn join_strings(parts: &Vec<String>, sep: char) -> (r: String)
    ensures
        r@ == join_words(parts@.map_values(|s: String| s@), sep),
{
    let ghost pv = parts@.map_values(|s: String| s@);
    let mut out: Vec<char> = Vec::new();
    let mut i: usize = 0;
    while i < parts.len()
        invariant
            i <= parts.len(),
            pv == parts@.map_values(|s: String| s@),
            out@ == join_words(pv.subrange(0, i as int), sep),
        decreases parts.len() - i,
    {
        let ghost prev = pv.subrange(0, i as int);
        assert(pv.subrange(0, i + 1).drop_last() =~= prev);
        assert(pv.subrange(0, i + 1).last() == parts@[i as int]@);
        if i > 0 {
            out.push(sep);
        }
        let v = chars_of(parts[i].as_str());
        let ghost before = out@;
        let mut j: usize = 0;
        while j < v.len()
            invariant
                j <= v.len(),
                out@ == before + v@.subrange(0, j as int),
            decreases v.len() - j,
        {
            out.push(v[j]);
            j += 1;
            assert(out@ =~= before + v@.subrange(0, j as int));
        }
        assert(v@.subrange(0, v.len() as int) =~= v@);
        if i == 0 {
            assert(out@ =~= join_words(pv.subrange(0, i + 1), sep));
        } else {
            assert(out@ =~= join_words(pv.subrange(0, i + 1), sep));
        }
        i += 1;
    }
    assert(pv.subrange(0, i as int) =~= pv);
    string_of(&out)
}

} // verus!
