//! Line and character arithmetic over document text, delegated to `ropey`.
//!
//! Each function builds a `ropey::Rope` from the text and asks it one
//! question. What `ropey` answers is named by an uninterpreted function of the
//! text and the argument; the short facts stated beside the names are those
//! that `ropey`'s documentation gives.

use ropey::Rope;
use vstd::prelude::*;

verus! {

/// What `Rope::byte_to_char` answers for a UTF-8 byte offset.
pub uninterp spec fn rope_byte_to_char(text: Seq<char>, byte_idx: nat) -> nat;

/// What `Rope::char_to_line` answers for a char index.
pub uninterp spec fn rope_char_to_line(text: Seq<char>, char_idx: nat) -> nat;

/// What `Rope::try_line_to_char` answers for a line index (`None` past the last line).
pub uninterp spec fn rope_line_to_char(text: Seq<char>, line_idx: nat) -> Option<nat>;

/// What `Rope::get_line` answers: the characters of a line, line break included.
pub uninterp spec fn rope_line(text: Seq<char>, line_idx: nat) -> Option<Seq<char>>;

/// What `Rope::len_lines` answers.
pub uninterp spec fn rope_len_lines(text: Seq<char>) -> nat;

/// What `RopeSlice::as_str` answers for a line (`None` when the line spans chunks).
pub uninterp spec fn rope_line_str(text: Seq<char>, line_idx: nat) -> Option<Seq<char>>;

/// `Rope::byte_to_char`. The claim: the result is a char index of the text
/// (at most its char count), a function of the text and the byte offset.
/// `byte_to_char` panics past the byte length, which the `requires` excludes.
#[verifier::external_body]
pub(crate) fn byte_to_char(text: &str, byte_idx: usize) -> (r: usize)
    requires
        byte_idx <= text.len(),
    ensures
        r == rope_byte_to_char(text@, byte_idx as nat),
        r <= text@.len(),
{
    Rope::from_str(text).byte_to_char(byte_idx)
}

/// `Rope::char_to_line`. The claim: the result is a function of the text and
/// the char index, and the line it names starts at or before that char.
/// `char_to_line` panics past the char count, which the `requires` excludes.
#[verifier::external_body]
pub(crate) fn char_to_line(text: &str, char_idx: usize) -> (r: usize)
    requires
        char_idx <= text@.len(),
    ensures
        r == rope_char_to_line(text@, char_idx as nat),
        rope_line_to_char(text@, r as nat) is Some,
        rope_line_to_char(text@, r as nat)->0 <= char_idx,
{
    Rope::from_str(text).char_to_line(char_idx)
}

/// `Rope::try_line_to_char`: the char index where a line starts.
#[verifier::external_body]
pub(crate) fn line_to_char(text: &str, line_idx: usize) -> (r: Option<usize>)
    ensures
        r matches Some(c) ==> rope_line_to_char(text@, line_idx as nat) == Some(c as nat),
        r is None ==> rope_line_to_char(text@, line_idx as nat) is None,
{
    Rope::from_str(text).try_line_to_char(line_idx).ok()
}

/// `Rope::get_line`, the line's characters collected.
#[verifier::external_body]
pub(crate) fn get_line(text: &str, line_idx: usize) -> (r: Option<Vec<char>>)
    ensures
        r matches Some(v) ==> rope_line(text@, line_idx as nat) == Some(v@),
        r is None ==> rope_line(text@, line_idx as nat) is None,
{
    Rope::from_str(text).get_line(line_idx).map(|slice| slice.chars().collect())
}

/// `Rope::len_lines`.
#[verifier::external_body]
pub(crate) fn len_lines(text: &str) -> (r: usize)
    ensures
        r == rope_len_lines(text@),
{
    Rope::from_str(text).len_lines()
}

/// `RopeSlice::as_str` of `Rope::line`; `None` also when the line does not exist.
#[verifier::external_body]
pub(crate) fn line_str(text: &str, line_idx: usize) -> (r: Option<String>)
    ensures
        r matches Some(s) ==> rope_line_str(text@, line_idx as nat) == Some(s@),
        r is None ==> rope_line_str(text@, line_idx as nat) is None,
{
    Rope::from_str(text).get_line(line_idx).and_then(|slice| slice.as_str().map(String::from))
}

} // verus!
