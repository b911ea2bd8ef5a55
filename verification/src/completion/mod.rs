//! Completions: directive names after a fence, role targets inside a role's
//! backticks, and role names after `{`.

use vstd::prelude::*;

use crate::lsp::{CompletionItem, CompletionItemKind};
use crate::text::lowercase;
use crate::vault::types::{Position, Range};
use crate::vault::Vault;

pub mod myst_directive_completer;
pub mod myst_role_completer;
pub mod role_name_completer;

pub use myst_directive_completer::{MystDirective, MystDirectiveCompleter};
pub use myst_role_completer::{MystRoleCompleter, RoleCompletion, RoleType};
pub use role_name_completer::{MystRole, RoleNameCompleter};

use myst_directive_completer::{
    all_directives, cursor_fits_line, directive_description, directive_filter_text, directive_name,
    directive_offered, directive_snippet, spec_parse_fence, vault_line,
};
use myst_role_completer::{
    completion_views, role_completions, role_filter_text, spec_parse_role_target, RoleCompletionView,
};
use crate::vault::helpers::opt_view;
use crate::vault::store::spec_select_referenceables;

verus! {

/// How many completions are offered at most.
pub const MAX_COMPLETIONS: usize = 20;

/// The item for directive `d` of a fence `(char, count, partial, start)` on
/// `line`, with the cursor at `character`.
pub open spec fn directive_item_ok(
    it: CompletionItem,
    d: MystDirective,
    m: (char, nat, Seq<char>, nat),
    line: u32,
    character: u32,
) -> bool {
    &&& it.label@ == directive_name(d)
    &&& it.detail matches Some(s) && s@ == directive_description(d)
    &&& it.kind == CompletionItemKind::Snippet
    &&& it.snippet
    &&& it.text_edit.range == (Range {
        start: Position { line, character: m.3 as u32 },
        end: Position { line, character },
    })
    &&& it.text_edit.new_text@ == directive_snippet(d, m.0, m.1)
    &&& it.filter_text@ == directive_filter_text(m.0, m.1, directive_name(d))
}

/// The item for a role completion of a role target `(role, partial, start)`
/// on `line`, with the cursor at `character`.
pub open spec fn role_item_ok(
    it: CompletionItem,
    c: RoleCompletionView,
    m: (RoleType, Seq<char>, nat),
    line: u32,
    character: u32,
) -> bool {
    &&& it.label@ == c.label
    &&& opt_view(it.detail) == c.detail
    &&& it.kind == c.kind
    &&& !it.snippet
    &&& it.text_edit.range == (Range {
        start: Position { line, character: m.2 as u32 },
        end: Position { line, character },
    })
    &&& it.text_edit.new_text@ == c.insert_text
    &&& it.filter_text@ == role_filter_text(m.0, m.1)
}

/// The first `n` items, at most.
pub open spec fn first_n<T>(s: Seq<T>, n: nat) -> Seq<T> {
    if s.len() <= n {
        s
    } else {
        s.subrange(0, n as int)
    }
}

/// Completions at a cursor: directive names when the text before it opens a
/// directive fence, else role targets when it is inside a role's backticks,
/// at most twenty of them; none otherwise.
pub open spec fn completions_ok(
    r: Option<Vec<CompletionItem>>,
    vault: Vault,
    path: Seq<char>,
    line: usize,
    character: usize,
) -> bool {
    match vault_line(vault, path, line as int) {
        None => r is None,
        Some(l) => match spec_parse_fence(l, character as int) {
            Some(m) => {
                let ds = first_n(all_directives().filter(directive_offered(lowercase(m.2))), 20);
                r matches Some(items) && items@.len() == ds.len() && forall|i: int|
                    0 <= i < ds.len() ==> directive_item_ok(
                        #[trigger] items@[i],
                        ds[i],
                        m,
                        line as u32,
                        character as u32,
                    )
            },
            None => match spec_parse_role_target(l, character as int) {
                Some(t) => {
                    let cs = first_n(
                        role_completions(
                            spec_select_referenceables(vault.md_files@, vault.root_dir@, None),
                            t.0,
                            vault.root_dir@,
                            path,
                            t.1,
                        ),
                        20,
                    );
                    r matches Some(items) && items@.len() == cs.len() && forall|i: int|
                        0 <= i < cs.len() ==> role_item_ok(
                            #[trigger] items@[i],
                            cs[i],
                            t,
                            line as u32,
                            character as u32,
                        )
                },
                None => r is None,
            },
        },
    }
}

/// The completions at line `line`, byte offset `character`, of the file at
/// `path`: the directive completer's, else the role completer's.
pub fn get_completions(vault: &Vault, path: &str, line: usize, character: usize) -> (r: Option<
    Vec<CompletionItem>,
>)
    requires
        line <= isize::MAX,
        cursor_fits_line(*vault, path@, line as int, character as int),
    ensures
        completions_ok(r, *vault, path@, line, character),
{
    match MystDirectiveCompleter::construct(vault, path, line, character) {
        Some(c) => {
            let ds = c.completions();
            let n = if ds.len() < MAX_COMPLETIONS {
                ds.len()
            } else {
                MAX_COMPLETIONS
            };
            let ghost taken = first_n(ds@, 20);
            assert(taken.len() == n);
            let mut items: Vec<CompletionItem> = Vec::new();
            let mut i: usize = 0;
            while i < n
                invariant
                    i <= n <= ds.len(),
                    taken == first_n(ds@, 20),
                    taken.len() == n,
                    items@.len() == i,
                    forall|k: int|
                        0 <= k < i ==> directive_item_ok(
                            #[trigger] items@[k],
                            taken[k],
                            (c@.fence_char, c@.fence_count, c@.partial, c@.fence_start),
                            c@.line,
                            c@.character,
                        ),
                decreases n - i,
            {
                assert(taken[i as int] == ds@[i as int]);
                items.push(c.completion_item(ds[i]));
                i += 1;
            }
            Some(items)
        },
        None => match MystRoleCompleter::construct(vault, path, line, character) {
            Some(c) => {
                let cs = c.completions();
                let n = if cs.len() < MAX_COMPLETIONS {
                    cs.len()
                } else {
                    MAX_COMPLETIONS
                };
                let ghost taken = first_n(completion_views(cs@), 20);
                assert(taken.len() == n);
                let mut items: Vec<CompletionItem> = Vec::new();
                let mut i: usize = 0;
                while i < n
                    invariant
                        i <= n <= cs.len(),
                        taken == first_n(completion_views(cs@), 20),
                        taken.len() == n,
                        items@.len() == i,
                        forall|k: int|
                            0 <= k < i ==> role_item_ok(
                                #[trigger] items@[k],
                                taken[k],
                                (c@.role_type, c@.partial, c@.target_start as nat),
                                c@.line,
                                c@.character,
                            ),
                    decreases n - i,
                {
                    assert(taken[i as int] == cs@[i as int]@);
                    items.push(c.completion_item(&cs[i]));
                    i += 1;
                }
                Some(items)
            },
            None => None,
        },
    }
}

} // verus!
