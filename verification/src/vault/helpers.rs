//! Reference names and vault-relative paths.

use vstd::prelude::*;

use super::paths::{diff_paths, diff_paths_of, path_with_extension, with_extension};
use crate::text::{after_last, chars_of, string_of, vec_after_last};

verus! {

/// Represents a reference name that may contain a path and/or infile reference.
#[derive(Debug, PartialEq, Eq, Default, Clone)]
pub struct Refname {
    pub full_refname: String,
    pub path: Option<String>,
    pub infile_ref: Option<String>,
}

/// The texts of a `Refname`.
pub struct RefnameView {
    pub full: Seq<char>,
    pub path: Option<Seq<char>>,
    pub infile: Option<Seq<char>>,
}

pub open spec fn opt_view(o: Option<String>) -> Option<Seq<char>> {
    match o {
        Some(s) => Some(s@),
        None => None,
    }
}

impl View for Refname {
    type V = RefnameView;

    open spec fn view(&self) -> RefnameView {
        RefnameView {
            full: self.full_refname@,
            path: opt_view(self.path),
            infile: opt_view(self.infile_ref),
        }
    }
}

/// The last `/`-separated segment of a refname's path.
pub open spec fn spec_link_file_key(r: RefnameView) -> Option<Seq<char>> {
    match r.path {
        Some(p) => Some(after_last(p, '/')),
        None => None,
    }
}

impl Refname {
    /// The file key of the refname: the last `/`-separated segment of its path.
    pub fn link_file_key(&self) -> (r: Option<String>)
        ensures
            opt_view(r) == spec_link_file_key(self@),
    {
        match &self.path {
            Some(p) => {
                let v = chars_of(p.as_str());
                let last = vec_after_last(&v, '/');
                Some(string_of(&last))
            },
            None => None,
        }
    }

    /// A refname with only its full text set.
    pub fn from_text(value: &str) -> (r: Refname)
        ensures
            r@.full == value@,
            r@.path is None,
            r@.infile is None,
    {
        Refname { full_refname: String::from_str(value), path: None, infile_ref: None }
    }
}

/// The vault-relative reference path of a file: the path relative to the
/// root, without its extension.
pub open spec fn spec_obsidian_ref_path(root_dir: Seq<char>, path: Seq<char>) -> Option<Seq<char>> {
    match diff_paths_of(path, root_dir) {
        Some(d) => Some(path_with_extension(d, Seq::empty())),
        None => None,
    }
}

/// The vault-relative reference path of a file, without its extension.
pub fn get_obsidian_ref_path(root_dir: &str, path: &str) -> (r: Option<String>)
    ensures
        opt_view(r) == spec_obsidian_ref_path(root_dir@, path@),
{
    match diff_paths(path, root_dir) {
        Some(d) => {
            let e = "";
            proof {
                reveal_strlit("");
            }
            assert(e@ =~= Seq::<char>::empty());
            Some(with_extension(d.as_str(), e))
        },
        None => None,
    }
}

/// The segment after the last `/` contains no `/`.
pub proof fn lemma_link_file_key_has_no_separator(s: Seq<char>)
    ensures
        !after_last(s, '/').contains('/'),
        ends_with_seq(s, after_last(s, '/')),
    decreases s.len(),
{
    if s.len() > 0 {
        if s.last() != '/' {
            lemma_link_file_key_has_no_separator(s.drop_last());
            let a = after_last(s.drop_last(), '/');
            assert(after_last(s, '/') == a.push(s.last()));
            assert forall|k: int| 0 <= k < a.len() + 1 implies a.push(s.last())[k] != '/' by {
                if k < a.len() {
                    assert(!a.contains('/'));
                    assert(a[k] != '/');
                }
            }
            assert(s.subrange(s.len() - a.len() - 1, s.len() as int) =~= a.push(s.last())) by {
                assert(s.drop_last().subrange(
                    s.drop_last().len() - a.len(),
                    s.drop_last().len() as int,
                ) == a);
            }
        } else {
            assert(after_last(s, '/') == Seq::<char>::empty());
            assert(s.subrange(s.len() as int, s.len() as int) =~= Seq::<char>::empty());
        }
    } else {
        assert(after_last(s, '/') == s);
        assert(s.subrange(0, 0) =~= s);
    }
}

/// `t` is a suffix of `s`.
pub open spec fn ends_with_seq(s: Seq<char>, t: Seq<char>) -> bool {
    t.len() <= s.len() && s.subrange(s.len() - t.len(), s.len() as int) == t
}

} // verus!
