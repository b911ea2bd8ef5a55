//! MyST directive completer.
//!
//! Offers directive names after a fence opening such as `` ```{ `` or
//! `:::{partial`: three or more backticks or colons, then `{`, then the part
//! of the name typed so far.

use vstd::prelude::*;
use vstd::string::StringSliceAdditionalSpecFns;

use crate::lsp::{CompletionItem, CompletionItemKind, TextEdit};
use crate::pattern::{first_capture, first_group, group_view, GroupMatch};
use crate::text::{
    at_char_boundary, byte_len, byte_prefix, lowercase, starts_with, str_byte_prefix,
    str_starts_with, string_of, to_lowercase,
};
use crate::vault::rope::rope_line;
use crate::vault::store::text_at;
use crate::vault::{Position, Range, Vault};

verus! {

/// A fence opening with `{` and a partial directive name, up to the cursor.
pub const FENCE_DIRECTIVE_PATTERN: &'static str =
    r"^(?<leading>\s*)(?<fence>(`{3,}|:{3,}))\x7B(?<partial>[a-zA-Z0-9_-]*)$";

/// Represents a MyST directive that can be completed.
#[derive(Debug, Clone, Copy, PartialEq, Eq, Structural)]
pub enum MystDirective {
    // Admonitions
    Note,
    Important,
    Hint,
    Tip,
    SeeAlso,
    Attention,
    Caution,
    Warning,
    Danger,
    Error,
    Admonition,
    // Code directives
    CodeBlock,
    LiteralInclude,
    // Media directives
    Figure,
    Image,
    // Table directives
    Table,
    ListTable,
    CsvTable,
    // Structure directives
    Toctree,
    Include,
    // Other
    Math,
    Glossary,
}

/// Every directive, in the order in which completions list them.
pub open spec fn all_directives() -> Seq<MystDirective> {
    seq![
        MystDirective::Note,
        MystDirective::Important,
        MystDirective::Hint,
        MystDirective::Tip,
        MystDirective::SeeAlso,
        MystDirective::Attention,
        MystDirective::Caution,
        MystDirective::Warning,
        MystDirective::Danger,
        MystDirective::Error,
        MystDirective::Admonition,
        MystDirective::CodeBlock,
        MystDirective::LiteralInclude,
        MystDirective::Figure,
        MystDirective::Image,
        MystDirective::Table,
        MystDirective::ListTable,
        MystDirective::CsvTable,
        MystDirective::Toctree,
        MystDirective::Include,
        MystDirective::Math,
        MystDirective::Glossary,
    ]
}

/// The name of a directive in MyST syntax.
pub open spec fn directive_name(d: MystDirective) -> Seq<char> {
    match d {
        MystDirective::Note => "note"@,
        MystDirective::Important => "important"@,
        MystDirective::Hint => "hint"@,
        MystDirective::Tip => "tip"@,
        MystDirective::SeeAlso => "seealso"@,
        MystDirective::Attention => "attention"@,
        MystDirective::Caution => "caution"@,
        MystDirective::Warning => "warning"@,
        MystDirective::Danger => "danger"@,
        MystDirective::Error => "error"@,
        MystDirective::Admonition => "admonition"@,
        MystDirective::CodeBlock => "code-block"@,
        MystDirective::LiteralInclude => "literalinclude"@,
        MystDirective::Figure => "figure"@,
        MystDirective::Image => "image"@,
        MystDirective::Table => "table"@,
        MystDirective::ListTable => "list-table"@,
        MystDirective::CsvTable => "csv-table"@,
        MystDirective::Toctree => "toctree"@,
        MystDirective::Include => "include"@,
        MystDirective::Math => "math"@,
        MystDirective::Glossary => "glossary"@,
    }
}

/// The one-line description of a directive.
pub open spec fn directive_description(d: MystDirective) -> Seq<char> {
    match d {
        MystDirective::Note => "A note admonition"@,
        MystDirective::Important => "An important notice"@,
        MystDirective::Hint => "A hint admonition"@,
        MystDirective::Tip => "A tip admonition"@,
        MystDirective::SeeAlso => "A see-also reference"@,
        MystDirective::Attention => "An attention notice"@,
        MystDirective::Caution => "A caution notice"@,
        MystDirective::Warning => "A warning admonition"@,
        MystDirective::Danger => "A danger admonition"@,
        MystDirective::Error => "An error admonition"@,
        MystDirective::Admonition => "A custom admonition with title"@,
        MystDirective::CodeBlock => "A syntax-highlighted code block"@,
        MystDirective::LiteralInclude => "Include a file as a code block"@,
        MystDirective::Figure => "A figure with caption"@,
        MystDirective::Image => "An inline image"@,
        MystDirective::Table => "A table directive"@,
        MystDirective::ListTable => "A table from a list structure"@,
        MystDirective::CsvTable => "A table from CSV data"@,
        MystDirective::Toctree => "Table of contents tree"@,
        MystDirective::Include => "Include another file"@,
        MystDirective::Math => "A math block (LaTeX)"@,
        MystDirective::Glossary => "A glossary of terms"@,
    }
}

/// What follows `{name}` in a directive's snippet, up to the closing fence:
/// the argument placeholder where the directive takes one, then the body.
pub open spec fn directive_snippet_body(d: MystDirective) -> Seq<char> {
    match d {
        MystDirective::Admonition => " ${1:Title}\n${2:Content}\n"@,
        MystDirective::CodeBlock => " ${1:python}\n${2:# code}\n"@,
        MystDirective::LiteralInclude => " ${1:path/to/file}\n"@,
        MystDirective::Figure | MystDirective::Image => " ${1:path/to/image}\n:alt: ${2:description}\n"@,
        MystDirective::Include => " ${1:path/to/file.md}\n"@,
        _ => "\n${1:Content}\n"@,
    }
}

/// `n` copies of the fence character.
pub open spec fn fence_text(c: char, n: nat) -> Seq<char> {
    Seq::new(n, |_i: int| c)
}

/// The snippet of a directive for a fence of `n` characters `c`: the fence,
/// `{name}`, the body, and the closing fence.
pub open spec fn directive_snippet(d: MystDirective, c: char, n: nat) -> Seq<char> {
    fence_text(c, n) + seq!['\u{7b}'] + directive_name(d) + seq!['\u{7d}'] + directive_snippet_body(d)
        + fence_text(c, n)
}

/// `n` copies of `c`.
pub fn repeat_char(c: char, n: usize) -> (r: String)
    ensures
        r@ == fence_text(c, n as nat),
{
    let mut v: Vec<char> = Vec::new();
    let mut i: usize = 0;
    while i < n
        invariant
            i <= n,
            v@ == fence_text(c, i as nat),
        decreases n - i,
    {
        v.push(c);
        i += 1;
        assert(v@ =~= fence_text(c, i as nat));
    }
    string_of(&v)
}

impl MystDirective {
    /// Returns all available MyST directives.
    pub fn all() -> (r: Vec<Self>)
        ensures
            r@ == all_directives(),
    {
        let r = vec![
            Self::Note,
            Self::Important,
            Self::Hint,
            Self::Tip,
            Self::SeeAlso,
            Self::Attention,
            Self::Caution,
            Self::Warning,
            Self::Danger,
            Self::Error,
            Self::Admonition,
            Self::CodeBlock,
            Self::LiteralInclude,
            Self::Figure,
            Self::Image,
            Self::Table,
            Self::ListTable,
            Self::CsvTable,
            Self::Toctree,
            Self::Include,
            Self::Math,
            Self::Glossary,
        ];
        assert(r@ =~= all_directives());
        r
    }

    /// Returns the directive name as used in MyST syntax.
    pub fn name(&self) -> (r: &'static str)
        ensures
            r@ == directive_name(*self),
    {
        match self {
            Self::Note => "note",
            Self::Important => "important",
            Self::Hint => "hint",
            Self::Tip => "tip",
            Self::SeeAlso => "seealso",
            Self::Attention => "attention",
            Self::Caution => "caution",
            Self::Warning => "warning",
            Self::Danger => "danger",
            Self::Error => "error",
            Self::Admonition => "admonition",
            Self::CodeBlock => "code-block",
            Self::LiteralInclude => "literalinclude",
            Self::Figure => "figure",
            Self::Image => "image",
            Self::Table => "table",
            Self::ListTable => "list-table",
            Self::CsvTable => "csv-table",
            Self::Toctree => "toctree",
            Self::Include => "include",
            Self::Math => "math",
            Self::Glossary => "glossary",
        }
    }

    /// Returns a description for the directive.
    pub fn description(&self) -> (r: &'static str)
        ensures
            r@ == directive_description(*self),
    {
        match self {
            Self::Note => "A note admonition",
            Self::Important => "An important notice",
            Self::Hint => "A hint admonition",
            Self::Tip => "A tip admonition",
            Self::SeeAlso => "A see-also reference",
            Self::Attention => "An attention notice",
            Self::Caution => "A caution notice",
            Self::Warning => "A warning admonition",
            Self::Danger => "A danger admonition",
            Self::Error => "An error admonition",
            Self::Admonition => "A custom admonition with title",
            Self::CodeBlock => "A syntax-highlighted code block",
            Self::LiteralInclude => "Include a file as a code block",
            Self::Figure => "A figure with caption",
            Self::Image => "An inline image",
            Self::Table => "A table directive",
            Self::ListTable => "A table from a list structure",
            Self::CsvTable => "A table from CSV data",
            Self::Toctree => "Table of contents tree",
            Self::Include => "Include another file",
            Self::Math => "A math block (LaTeX)",
            Self::Glossary => "A glossary of terms",
        }
    }

    fn snippet_body(&self) -> (r: &'static str)
        ensures
            r@ == directive_snippet_body(*self),
    {
        match self {
            Self::Admonition => " ${1:Title}\n${2:Content}\n",
            Self::CodeBlock => " ${1:python}\n${2:# code}\n",
            Self::LiteralInclude => " ${1:path/to/file}\n",
            Self::Figure | Self::Image => " ${1:path/to/image}\n:alt: ${2:description}\n",
            Self::Include => " ${1:path/to/file.md}\n",
            _ => "\n${1:Content}\n",
        }
    }

    /// Returns the snippet format for this directive, for a fence of
    /// `fence_count` characters `fence_char`.
    pub fn snippet(&self, fence_char: char, fence_count: usize) -> (r: String)
        ensures
            r@ == directive_snippet(*self, fence_char, fence_count as nat),
    {
        let fence = repeat_char(fence_char, fence_count);
        let mut v: Vec<char> = Vec::new();
        v.push('\u{7b}');
        let open = string_of(&v);
        let mut w: Vec<char> = Vec::new();
        w.push('\u{7d}');
        let close = string_of(&w);
        let mut s = fence.clone();
        s.append(open.as_str());
        s.append(self.name());
        s.append(close.as_str());
        s.append(self.snippet_body());
        s.append(fence.as_str());
        proof {
            assert(v@ =~= seq!['\u{7b}']);
            assert(w@ =~= seq!['\u{7d}']);
        }
        s
    }
}

/// Every directive is listed by `all`.
pub proof fn lemma_all_directives_complete(d: MystDirective)
    ensures
        all_directives().contains(d),
{
    let a = all_directives();
    match d {
        MystDirective::Note => assert(a[0] == d),
        MystDirective::Important => assert(a[1] == d),
        MystDirective::Hint => assert(a[2] == d),
        MystDirective::Tip => assert(a[3] == d),
        MystDirective::SeeAlso => assert(a[4] == d),
        MystDirective::Attention => assert(a[5] == d),
        MystDirective::Caution => assert(a[6] == d),
        MystDirective::Warning => assert(a[7] == d),
        MystDirective::Danger => assert(a[8] == d),
        MystDirective::Error => assert(a[9] == d),
        MystDirective::Admonition => assert(a[10] == d),
        MystDirective::CodeBlock => assert(a[11] == d),
        MystDirective::LiteralInclude => assert(a[12] == d),
        MystDirective::Figure => assert(a[13] == d),
        MystDirective::Image => assert(a[14] == d),
        MystDirective::Table => assert(a[15] == d),
        MystDirective::ListTable => assert(a[16] == d),
        MystDirective::CsvTable => assert(a[17] == d),
        MystDirective::Toctree => assert(a[18] == d),
        MystDirective::Include => assert(a[19] == d),
        MystDirective::Math => assert(a[20] == d),
        MystDirective::Glossary => assert(a[21] == d),
    }
}

/// A directive name: lowercase ASCII letters in words joined by single
/// hyphens.
pub open spec fn is_directive_name(n: Seq<char>) -> bool {
    &&& n.len() > 0
    &&& forall|i: int| 0 <= i < n.len() ==> ('a' <= #[trigger] n[i] <= 'z') || n[i] == '-'
    &&& n[0] != '-' && n.last() != '-'
    &&& forall|i: int| 0 <= i < n.len() - 1 ==> !(#[trigger] n[i] == '-' && n[i + 1] == '-')
}

/// Every directive's name is lowercase words joined by hyphens, and no two
/// directives share a name.
pub proof fn lemma_directive_names(d: MystDirective, e: MystDirective)
    ensures
        is_directive_name(directive_name(d)),
        d != e ==> directive_name(d) != directive_name(e),
{
    reveal_strlit("note");
    reveal_strlit("important");
    reveal_strlit("hint");
    reveal_strlit("tip");
    reveal_strlit("seealso");
    reveal_strlit("attention");
    reveal_strlit("caution");
    reveal_strlit("warning");
    reveal_strlit("danger");
    reveal_strlit("error");
    reveal_strlit("admonition");
    reveal_strlit("code-block");
    reveal_strlit("literalinclude");
    reveal_strlit("figure");
    reveal_strlit("image");
    reveal_strlit("table");
    reveal_strlit("list-table");
    reveal_strlit("csv-table");
    reveal_strlit("toctree");
    reveal_strlit("include");
    reveal_strlit("math");
    reveal_strlit("glossary");
    if d != e && directive_name(d) == directive_name(e) {
        assert(directive_name(d).len() == directive_name(e).len());
        assert(directive_name(d)[0] == directive_name(e)[0]);
    }
}

/// `all` lists no directive twice.
pub proof fn lemma_all_directives_distinct()
    ensures
        all_directives().no_duplicates(),
{
}

// ---------------------------------------------------------------------------
// Recognising the fence
// ---------------------------------------------------------------------------

/// A recognised fence opening: its character, its length in bytes, the
/// partial directive name, and the byte offset where the fence starts.
#[derive(Debug, Clone, PartialEq, Eq)]
pub struct FenceMatch {
    pub fence_char: char,
    pub fence_count: usize,
    pub partial: String,
    pub fence_start: usize,
}

/// A fence match as plain values.
pub open spec fn fence_match_view(m: Option<FenceMatch>) -> Option<(char, nat, Seq<char>, nat)> {
    match m {
        Some(f) => Some((f.fence_char, f.fence_count as nat, f.partial@, f.fence_start as nat)),
        None => None,
    }
}

/// The fence opening described by the pattern's `leading`, `fence` and
/// `partial` groups: the fence's first character, the fence's length (the
/// width of its span), the partial name, and where the leading whitespace ends.
pub open spec fn spec_fence_from_groups(
    leading: Option<(nat, nat, Seq<char>)>,
    fence: Option<(nat, nat, Seq<char>)>,
    partial: Option<(nat, nat, Seq<char>)>,
) -> Option<(char, nat, Seq<char>, nat)> {
    match (leading, fence, partial) {
        (Some(l), Some(f), Some(p)) => if f.2.len() > 0 && f.0 <= f.1 {
            Some((f.2[0], (f.1 - f.0) as nat, p.2, l.1))
        } else {
            None
        },
        _ => None,
    }
}

/// Builds the fence opening from the pattern's `leading`, `fence` and
/// `partial` groups.
pub fn fence_from_groups(
    leading: &Option<GroupMatch>,
    fence: &Option<GroupMatch>,
    partial: &Option<GroupMatch>,
) -> (r: Option<FenceMatch>)
    ensures
        fence_match_view(r) == spec_fence_from_groups(
            group_view(*leading),
            group_view(*fence),
            group_view(*partial),
        ),
{
    match (leading, fence, partial) {
        (Some(l), Some(f), Some(p)) => {
            let fv = crate::text::chars_of(f.text.as_str());
            if fv.len() > 0 && f.start <= f.end {
                Some(
                    FenceMatch {
                        fence_char: fv[0],
                        fence_count: f.end - f.start,
                        partial: p.text.clone(),
                        fence_start: l.end,
                    },
                )
            } else {
                None
            }
        },
        _ => None,
    }
}

/// The fence opening of `text` up to byte offset `cursor`, as the pattern's
/// first match describes it.
pub open spec fn spec_parse_fence(text: Seq<char>, cursor: int) -> Option<(char, nat, Seq<char>, nat)> {
    let t = byte_prefix(text, cursor);
    spec_fence_from_groups(
        first_group(FENCE_DIRECTIVE_PATTERN@, t, 1),
        first_group(FENCE_DIRECTIVE_PATTERN@, t, 2),
        first_group(FENCE_DIRECTIVE_PATTERN@, t, 4),
    )
}

/// Recognises a fence opening in the text before byte offset `cursor`.
pub fn parse_fence(text: &str, cursor: usize) -> (r: Option<FenceMatch>)
    requires
        byte_len(text@) <= usize::MAX,
        cursor <= byte_len(text@) ==> at_char_boundary(text@, cursor as int),
    ensures
        fence_match_view(r) == spec_parse_fence(text@, cursor as int),
{
    let before = str_byte_prefix(text, cursor);
    let l = first_capture(FENCE_DIRECTIVE_PATTERN, before, 1);
    let f = first_capture(FENCE_DIRECTIVE_PATTERN, before, 2);
    let p = first_capture(FENCE_DIRECTIVE_PATTERN, before, 4);
    fence_from_groups(&l, &f, &p)
}

/// The fence character, the fence length and the partial directive name of
/// the fence opening before byte offset `cursor`.
pub fn parse_fence_pattern(text: &str, cursor: usize) -> (r: Option<(char, usize, String)>)
    requires
        byte_len(text@) <= usize::MAX,
        cursor <= byte_len(text@) ==> at_char_boundary(text@, cursor as int),
    ensures
        match (r, spec_parse_fence(text@, cursor as int)) {
            (Some((c, n, p)), Some(m)) => c == m.0 && n == m.1 && p@ == m.2,
            (None, None) => true,
            _ => false,
        },
{
    match parse_fence(text, cursor) {
        Some(m) => Some((m.fence_char, m.fence_count, m.partial)),
        None => None,
    }
}

// ---------------------------------------------------------------------------
// The completer
// ---------------------------------------------------------------------------

/// Completer for MyST directive names.
///
/// Activates when the cursor is positioned after a fence opening with `{`,
/// for example: `` ```{n| `` where `|` is the cursor.
#[derive(Debug, Clone, PartialEq, Eq)]
pub struct MystDirectiveCompleter {
    /// The fence marker used (backticks or colons)
    fence_char: char,
    /// Number of fence characters (3 or more)
    fence_count: usize,
    /// The partial directive name typed so far (may be empty)
    partial_directive: String,
    /// Line number in the document
    line: u32,
    /// Character position on the line
    character: u32,
    /// Start position of the fence on the line
    fence_start: usize,
}

/// The completer as plain values: fence character and length, partial name,
/// line, cursor character and fence start.
pub struct DirectiveCompleterView {
    pub fence_char: char,
    pub fence_count: nat,
    pub partial: Seq<char>,
    pub line: u32,
    pub character: u32,
    pub fence_start: nat,
}

impl View for MystDirectiveCompleter {
    type V = DirectiveCompleterView;

    closed spec fn view(&self) -> DirectiveCompleterView {
        DirectiveCompleterView {
            fence_char: self.fence_char,
            fence_count: self.fence_count as nat,
            partial: self.partial_directive@,
            line: self.line,
            character: self.character,
            fence_start: self.fence_start as nat,
        }
    }
}

/// The text of line `line` of the file at `path`, if the vault holds one.
pub open spec fn vault_line(vault: Vault, path: Seq<char>, line: int) -> Option<Seq<char>> {
    match text_at(vault.ropes@, path) {
        Some(t) => if line >= 0 {
            rope_line(t, line as nat)
        } else {
            None
        },
        None => None,
    }
}

/// The cursor is usable as a byte offset into every line the vault holds at
/// that line number: it falls between characters or past the line's end.
pub open spec fn cursor_fits_line(vault: Vault, path: Seq<char>, line: int, character: int) -> bool {
    match vault_line(vault, path, line) {
        Some(l) => byte_len(l) <= usize::MAX && (character <= byte_len(l) ==> at_char_boundary(
            l,
            character,
        )),
        None => true,
    }
}

/// Whether the cursor is usable as a byte offset into line `line` of the
/// file at `path`: what the completers need of it.
pub fn cursor_fits(vault: &Vault, path: &str, line: usize, character: usize) -> (b: bool)
    requires
        line <= isize::MAX,
    ensures
        b == cursor_fits_line(*vault, path@, line as int, character as int),
{
    match vault.select_line(path, line as isize) {
        Some(chars) => {
            let text = string_of(&chars);
            let s = text.as_str();
            let n = s.as_bytes().len();
            assert(s.spec_bytes() == vstd::utf8::encode_utf8(s@));
            if character <= n {
                s.is_char_boundary(character)
            } else {
                true
            }
        },
        None => true,
    }
}

/// Whether directive `d` is offered for a partial name already lowercased.
pub open spec fn directive_offered(partial_lower: Seq<char>) -> spec_fn(MystDirective) -> bool {
    |d: MystDirective| partial_lower.len() == 0 || starts_with(
        lowercase(directive_name(d)),
        partial_lower,
    )
}

/// The text a client filters the directive completions by: the fence, `{`,
/// then the directive's name.
pub open spec fn directive_filter_text(c: char, n: nat, name: Seq<char>) -> Seq<char> {
    fence_text(c, n) + seq!['\u{7b}'] + name
}

impl MystDirectiveCompleter {
    /// Recognises a fence opening on line `line` of the file at `path`, in
    /// the text before byte offset `character`.
    pub fn construct(vault: &Vault, path: &str, line: usize, character: usize) -> (r: Option<Self>)
        requires
            line <= isize::MAX,
            cursor_fits_line(*vault, path@, line as int, character as int),
        ensures
            match vault_line(*vault, path@, line as int) {
                None => r is None,
                Some(l) => match spec_parse_fence(l, character as int) {
                    None => r is None,
                    Some(m) => r matches Some(c) && c@ == (DirectiveCompleterView {
                        fence_char: m.0,
                        fence_count: m.1,
                        partial: m.2,
                        line: line as u32,
                        character: character as u32,
                        fence_start: m.3,
                    }),
                },
            },
    {
        let chars = match vault.select_line(path, line as isize) {
            Some(c) => c,
            None => return None,
        };
        let text = string_of(&chars);
        match parse_fence(text.as_str(), character) {
            Some(m) => Some(
                MystDirectiveCompleter {
                    fence_char: m.fence_char,
                    fence_count: m.fence_count,
                    partial_directive: m.partial,
                    line: line as u32,
                    character: character as u32,
                    fence_start: m.fence_start,
                },
            ),
            None => None,
        }
    }

    /// The directives whose lowercased name starts with the lowercased
    /// partial name (all of them when nothing was typed), in `all` order.
    pub fn completions(&self) -> (r: Vec<MystDirective>)
        ensures
            r@ == all_directives().filter(directive_offered(lowercase(self@.partial))),
    {
        let partial_lower = to_lowercase(self.partial_directive.as_str());
        let all = MystDirective::all();
        let ghost pred = directive_offered(lowercase(self@.partial));
        let mut out: Vec<MystDirective> = Vec::new();
        let mut i: usize = 0;
        assert(all@.subrange(0, 0).filter(pred) =~= Seq::empty()) by {
            reveal_with_fuel(Seq::filter, 1);
        }
        while i < all.len()
            invariant
                i <= all.len(),
                all@ == all_directives(),
                partial_lower@ == lowercase(self@.partial),
                pred == directive_offered(lowercase(self@.partial)),
                out@ == all@.subrange(0, i as int).filter(pred),
            decreases all.len() - i,
        {
            let d = all[i];
            proof {
                assert(all@.subrange(0, i + 1).drop_last() =~= all@.subrange(0, i as int));
                assert(all@.subrange(0, i + 1).last() == all@[i as int]);
                reveal_with_fuel(Seq::filter, 1);
            }
            let keep = if partial_lower.as_str().is_empty() {
                true
            } else {
                let name_lower = to_lowercase(d.name());
                str_starts_with(name_lower.as_str(), partial_lower.as_str())
            };
            if keep {
                out.push(d);
            }
            assert(out@ =~= all@.subrange(0, i + 1).filter(pred));
            i += 1;
        }
        assert(all@.subrange(0, i as int) =~= all@);
        out
    }

    /// The text a client filters completion `name` by: the fence, `{`, then
    /// the name.
    pub fn completion_filter_text(&self, name: &str) -> (r: String)
        ensures
            r@ == directive_filter_text(self@.fence_char, self@.fence_count, name@),
    {
        let mut s = repeat_char(self.fence_char, self.fence_count);
        let mut v: Vec<char> = Vec::new();
        v.push('\u{7b}');
        let open = string_of(&v);
        s.append(open.as_str());
        s.append(name);
        assert(v@ =~= seq!['\u{7b}']);
        s
    }

    /// The completion item for directive `d`: its snippet replaces the text
    /// from the fence start to the cursor.
    pub fn completion_item(&self, d: MystDirective) -> (r: CompletionItem)
        ensures
            r.label@ == directive_name(d),
            r.detail matches Some(s) && s@ == directive_description(d),
            r.kind == CompletionItemKind::Snippet,
            r.snippet,
            r.text_edit.range == (Range {
                start: Position { line: self@.line, character: self@.fence_start as u32 },
                end: Position { line: self@.line, character: self@.character },
            }),
            r.text_edit.new_text@ == directive_snippet(d, self@.fence_char, self@.fence_count),
            r.filter_text@ == directive_filter_text(
                self@.fence_char,
                self@.fence_count,
                directive_name(d),
            ),
    {
        let snippet = d.snippet(self.fence_char, self.fence_count);
        let filter_text = self.completion_filter_text(d.name());
        CompletionItem {
            label: String::from_str(d.name()),
            detail: Some(String::from_str(d.description())),
            kind: CompletionItemKind::Snippet,
            snippet: true,
            text_edit: TextEdit {
                range: Range {
                    start: Position { line: self.line, character: self.fence_start as u32 },
                    end: Position { line: self.line, character: self.character },
                },
                new_text: snippet,
            },
            filter_text,
        }
    }
}

} // verus!
