//! Role name completer.
//!
//! Offers MyST role names after `{`: `{` suggests every role, `{do` the roles
//! whose names start with `do`. Choosing a role inserts `{role}` followed by
//! a pair of backticks with the cursor between them. A `{` that follows a
//! fence of three or more backticks or colons opens a directive and is left
//! to the directive completer.

use vstd::prelude::*;

use crate::lsp::{CompletionItem, CompletionItemKind, TextEdit};
use crate::pattern::{first_capture, first_group, group_view, is_match, regex_captures, GroupMatch};
use crate::text::{
    at_char_boundary, byte_len, byte_prefix, lowercase, starts_with, str_byte_prefix,
    str_starts_with, string_of, to_lowercase,
};
use crate::vault::{Position, Range, Vault};

use super::myst_directive_completer::{cursor_fits_line, vault_line};

verus! {

/// A `{` followed by a partial role name, up to the cursor.
pub const ROLE_NAME_PATTERN: &'static str = r"\x7B(?<partial>[a-z]*)$";

/// A fence of three or more backticks or colons followed by `{` and a
/// partial name, up to the cursor: a directive, not a role.
pub const DIRECTIVE_CONTEXT_PATTERN: &'static str = r"(`{3,}|:{3,})\x7B[a-z]*$";

/// The available MyST roles for completion.
#[derive(Debug, Clone, Copy, PartialEq, Eq, Structural)]
pub enum MystRole {
    /// {ref}`target` - cross-reference to anchor or heading
    Ref,
    /// {numref}`target` - numbered reference
    NumRef,
    /// {doc}`path` - document reference
    Doc,
    /// {download}`path` - downloadable file reference
    Download,
    /// {term}`glossary-term` - glossary term reference
    Term,
    /// {eq}`label` - equation reference
    Eq,
}

/// Every role, in the order in which completions list them.
pub open spec fn all_roles() -> Seq<MystRole> {
    seq![
        MystRole::Ref,
        MystRole::NumRef,
        MystRole::Doc,
        MystRole::Download,
        MystRole::Term,
        MystRole::Eq,
    ]
}

/// The name of a role in MyST syntax.
pub open spec fn role_name(r: MystRole) -> Seq<char> {
    match r {
        MystRole::Ref => "ref"@,
        MystRole::NumRef => "numref"@,
        MystRole::Doc => "doc"@,
        MystRole::Download => "download"@,
        MystRole::Term => "term"@,
        MystRole::Eq => "eq"@,
    }
}

/// The one-line description of a role.
pub open spec fn role_description(r: MystRole) -> Seq<char> {
    match r {
        MystRole::Ref => "Cross-reference to anchor or heading"@,
        MystRole::NumRef => "Numbered reference to anchor or heading"@,
        MystRole::Doc => "Reference to another document"@,
        MystRole::Download => "Link to downloadable file"@,
        MystRole::Term => "Reference to glossary term"@,
        MystRole::Eq => "Reference to equation label"@,
    }
}

/// The snippet of a role: `{name}`, then two escaped backticks around the
/// cursor placeholder `$1`.
pub open spec fn role_snippet(r: MystRole) -> Seq<char> {
    seq!['\u{7b}'] + role_name(r) + seq!['\u{7d}', '\\', '`', '$', '1', '\\', '`']
}

impl MystRole {
    /// Returns all available MyST roles.
    pub fn all() -> (r: Vec<Self>)
        ensures
            r@ == all_roles(),
    {
        let r = vec![Self::Ref, Self::NumRef, Self::Doc, Self::Download, Self::Term, Self::Eq];
        assert(r@ =~= all_roles());
        r
    }

    /// Returns the role name as it appears in MyST syntax.
    pub fn name(&self) -> (r: &'static str)
        ensures
            r@ == role_name(*self),
    {
        match self {
            MystRole::Ref => "ref",
            MystRole::NumRef => "numref",
            MystRole::Doc => "doc",
            MystRole::Download => "download",
            MystRole::Term => "term",
            MystRole::Eq => "eq",
        }
    }

    /// Returns a description for the role.
    pub fn description(&self) -> (r: &'static str)
        ensures
            r@ == role_description(*self),
    {
        match self {
            MystRole::Ref => "Cross-reference to anchor or heading",
            MystRole::NumRef => "Numbered reference to anchor or heading",
            MystRole::Doc => "Reference to another document",
            MystRole::Download => "Link to downloadable file",
            MystRole::Term => "Reference to glossary term",
            MystRole::Eq => "Reference to equation label",
        }
    }

    /// Returns the LSP snippet format for this role: `{role}` and a pair of
    /// escaped backticks with the cursor placeholder `$1` between them.
    pub fn snippet(&self) -> (r: String)
        ensures
            r@ == role_snippet(*self),
    {
        let mut open: Vec<char> = Vec::new();
        open.push('\u{7b}');
        let mut tail: Vec<char> = Vec::new();
        tail.push('\u{7d}');
        tail.push('\\');
        tail.push('`');
        tail.push('$');
        tail.push('1');
        tail.push('\\');
        tail.push('`');
        let mut s = string_of(&open);
        s.append(self.name());
        let t = string_of(&tail);
        s.append(t.as_str());
        assert(open@ =~= seq!['\u{7b}']);
        assert(tail@ =~= seq!['\u{7d}', '\\', '`', '$', '1', '\\', '`']);
        s
    }
}

/// Every role is listed by `all`, once.
pub proof fn lemma_all_roles_complete(r: MystRole)
    ensures
        all_roles().contains(r),
        all_roles().no_duplicates(),
{
    let a = all_roles();
    match r {
        MystRole::Ref => assert(a[0] == r),
        MystRole::NumRef => assert(a[1] == r),
        MystRole::Doc => assert(a[2] == r),
        MystRole::Download => assert(a[3] == r),
        MystRole::Term => assert(a[4] == r),
        MystRole::Eq => assert(a[5] == r),
    }
}

// ---------------------------------------------------------------------------
// Recognising `{partial`
// ---------------------------------------------------------------------------

/// A recognised role opening: the partial name and the byte offset of `{`.
#[derive(Debug, Clone, PartialEq, Eq)]
pub struct RoleNameMatch {
    pub partial: String,
    pub brace_start: usize,
}

/// A role opening as plain values.
pub open spec fn role_name_match_view(m: Option<RoleNameMatch>) -> Option<(Seq<char>, nat)> {
    match m {
        Some(x) => Some((x.partial@, x.brace_start as nat)),
        None => None,
    }
}

/// The role opening described by the pattern's `partial` group in a text of
/// `len` bytes, unless the text ends in a directive opening: the partial
/// name, and the offset of the `{` just before it (the partial name ends the
/// text).
pub open spec fn spec_role_name_from_groups(
    directive_context: bool,
    partial: Option<(nat, nat, Seq<char>)>,
    len: nat,
) -> Option<(Seq<char>, nat)> {
    if directive_context {
        None
    } else {
        match partial {
            Some(p) => if p.0 <= p.1 && p.1 - p.0 + 1 <= len {
                Some((p.2, (len - (p.1 - p.0) - 1) as nat))
            } else {
                None
            },
            None => None,
        }
    }
}

/// Builds the role opening from the directive-context test and the
/// pattern's `partial` group, for a text of `len` bytes.
pub fn role_name_from_groups(directive_context: bool, partial: &Option<GroupMatch>, len: usize) -> (r:
    Option<RoleNameMatch>)
    ensures
        role_name_match_view(r) == spec_role_name_from_groups(
            directive_context,
            group_view(*partial),
            len as nat,
        ),
{
    if directive_context {
        return None;
    }
    match partial {
        Some(p) => {
            if p.start <= p.end && p.end - p.start < len {
                Some(RoleNameMatch { partial: p.text.clone(), brace_start: len - (p.end - p.start) - 1 })
            } else {
                None
            }
        },
        None => None,
    }
}

/// The role opening of `text` up to byte offset `cursor`.
pub open spec fn spec_parse_role_name(text: Seq<char>, cursor: int) -> Option<(Seq<char>, nat)> {
    let t = byte_prefix(text, cursor);
    spec_role_name_from_groups(
        regex_captures(DIRECTIVE_CONTEXT_PATTERN@, t).len() > 0,
        first_group(ROLE_NAME_PATTERN@, t, 1),
        byte_len(t),
    )
}

/// Recognises `{` and a partial role name in the text before byte offset
/// `cursor`.
pub fn parse_role_name(text: &str, cursor: usize) -> (r: Option<RoleNameMatch>)
    requires
        byte_len(text@) <= usize::MAX,
        cursor <= byte_len(text@) ==> at_char_boundary(text@, cursor as int),
    ensures
        role_name_match_view(r) == spec_parse_role_name(text@, cursor as int),
{
    let before = str_byte_prefix(text, cursor);
    let directive = is_match(DIRECTIVE_CONTEXT_PATTERN, before);
    let partial = first_capture(ROLE_NAME_PATTERN, before, 1);
    role_name_from_groups(directive, &partial, before.len())
}

/// The partial role name typed after `{`, before byte offset `cursor`.
pub fn parse_role_name_pattern(text: &str, cursor: usize) -> (r: Option<String>)
    requires
        byte_len(text@) <= usize::MAX,
        cursor <= byte_len(text@) ==> at_char_boundary(text@, cursor as int),
    ensures
        match (r, spec_parse_role_name(text@, cursor as int)) {
            (Some(p), Some(m)) => p@ == m.0,
            (None, None) => true,
            _ => false,
        },
{
    match parse_role_name(text, cursor) {
        Some(m) => Some(m.partial),
        None => None,
    }
}

// ---------------------------------------------------------------------------
// The completer
// ---------------------------------------------------------------------------

/// Completer for MyST role names.
///
/// Activates when the cursor is positioned after `{` at the start of a role,
/// for example: `{|` or `{do|` where `|` is the cursor.
#[derive(Debug, Clone, PartialEq, Eq)]
pub struct RoleNameCompleter {
    /// The partial role name typed so far (may be empty)
    partial_role: String,
    /// Line number in the document
    line: u32,
    /// Character position where the `{` starts
    brace_start: u32,
    /// Current cursor position
    character: u32,
}

/// The completer as plain values.
pub struct RoleNameCompleterView {
    pub partial: Seq<char>,
    pub line: u32,
    pub brace_start: u32,
    pub character: u32,
}

impl View for RoleNameCompleter {
    type V = RoleNameCompleterView;

    closed spec fn view(&self) -> RoleNameCompleterView {
        RoleNameCompleterView {
            partial: self.partial_role@,
            line: self.line,
            brace_start: self.brace_start,
            character: self.character,
        }
    }
}

/// Whether role `r` is offered for a partial name already lowercased.
pub open spec fn role_offered(partial_lower: Seq<char>) -> spec_fn(MystRole) -> bool {
    |r: MystRole| partial_lower.len() == 0 || starts_with(role_name(r), partial_lower)
}

impl RoleNameCompleter {
    /// Recognises `{` and a partial role name on line `line` of the file at
    /// `path`, before byte offset `character`. `in_code_block` says whether
    /// the cursor lies inside a code block, where no role is offered.
    pub fn construct(
        vault: &Vault,
        path: &str,
        line: usize,
        character: usize,
        in_code_block: bool,
    ) -> (r: Option<Self>)
        requires
            line <= isize::MAX,
            cursor_fits_line(*vault, path@, line as int, character as int),
        ensures
            in_code_block ==> r is None,
            !in_code_block ==> match vault_line(*vault, path@, line as int) {
                None => r is None,
                Some(l) => match spec_parse_role_name(l, character as int) {
                    None => r is None,
                    Some(m) => r matches Some(c) && c@ == (RoleNameCompleterView {
                        partial: m.0,
                        line: line as u32,
                        brace_start: m.1 as u32,
                        character: character as u32,
                    }),
                },
            },
    {
        if in_code_block {
            return None;
        }
        let chars = match vault.select_line(path, line as isize) {
            Some(c) => c,
            None => return None,
        };
        let text = string_of(&chars);
        match parse_role_name(text.as_str(), character) {
            Some(m) => Some(
                RoleNameCompleter {
                    partial_role: m.partial,
                    line: line as u32,
                    brace_start: m.brace_start as u32,
                    character: character as u32,
                },
            ),
            None => None,
        }
    }

    /// The roles whose name starts with the lowercased partial name (all of
    /// them when nothing was typed), in `all` order.
    pub fn completions(&self) -> (r: Vec<MystRole>)
        ensures
            r@ == all_roles().filter(role_offered(lowercase(self@.partial))),
    {
        let partial_lower = to_lowercase(self.partial_role.as_str());
        let all = MystRole::all();
        let ghost pred = role_offered(lowercase(self@.partial));
        let mut out: Vec<MystRole> = Vec::new();
        let mut i: usize = 0;
        assert(all@.subrange(0, 0).filter(pred) =~= Seq::empty()) by {
            reveal_with_fuel(Seq::filter, 1);
        }
        while i < all.len()
            invariant
                i <= all.len(),
                all@ == all_roles(),
                partial_lower@ == lowercase(self@.partial),
                pred == role_offered(lowercase(self@.partial)),
                out@ == all@.subrange(0, i as int).filter(pred),
            decreases all.len() - i,
        {
            let role = all[i];
            proof {
                assert(all@.subrange(0, i + 1).drop_last() =~= all@.subrange(0, i as int));
                assert(all@.subrange(0, i + 1).last() == all@[i as int]);
                reveal_with_fuel(Seq::filter, 1);
            }
            let keep = partial_lower.as_str().is_empty() || str_starts_with(
                role.name(),
                partial_lower.as_str(),
            );
            if keep {
                out.push(role);
            }
            assert(out@ =~= all@.subrange(0, i + 1).filter(pred));
            i += 1;
        }
        assert(all@.subrange(0, i as int) =~= all@);
        out
    }

    /// The text a client filters completion `name` by: `{` then the name.
    pub fn completion_filter_text(&self, name: &str) -> (r: String)
        ensures
            r@ == seq!['\u{7b}'] + name@,
    {
        let mut v: Vec<char> = Vec::new();
        v.push('\u{7b}');
        let mut s = string_of(&v);
        s.append(name);
        assert(v@ =~= seq!['\u{7b}']);
        s
    }

    /// The completion item for role `role`: its snippet replaces the text
    /// from the `{` to the cursor.
    pub fn completion_item(&self, role: MystRole) -> (r: CompletionItem)
        ensures
            r.label@ == role_name(role),
            r.detail matches Some(s) && s@ == role_description(role),
            r.kind == CompletionItemKind::Keyword,
            r.snippet,
            r.text_edit.range == (Range {
                start: Position { line: self@.line, character: self@.brace_start },
                end: Position { line: self@.line, character: self@.character },
            }),
            r.text_edit.new_text@ == role_snippet(role),
            r.filter_text@ == seq!['\u{7b}'] + role_name(role),
    {
        let filter_text = self.completion_filter_text(role.name());
        CompletionItem {
            label: String::from_str(role.name()),
            detail: Some(String::from_str(role.description())),
            kind: CompletionItemKind::Keyword,
            snippet: true,
            text_edit: TextEdit {
                range: Range {
                    start: Position { line: self.line, character: self.brace_start },
                    end: Position { line: self.line, character: self.character },
                },
                new_text: role.snippet(),
            },
            filter_text,
        }
    }
}

} // verus!
