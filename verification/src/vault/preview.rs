//! Previews of referenceables, blocks of text, and symbol information.

use vstd::prelude::*;

use super::paths::{is_absolute, path_is_absolute};
use super::referenceable::{spec_path, spec_range, spec_refname, Referenceable, ReferenceableView};
use super::rope::{get_line, len_lines, line_str, rope_len_lines, rope_line, rope_line_str};
use super::store::{text_at, FileText, Vault};
use super::types::{MyRange, Position, Range};
use crate::lsp::{Location, SymbolInformation, SymbolKind};
use crate::text::{concat, concat3, string_of};
pub use crate::text::{trim, trim_start, trimmed, trimmed_start};

verus! {

/// What a hover shows of a referenceable.
#[derive(Debug, Clone, PartialEq, Eq)]
pub enum Preview {
    Text(String),
    Empty,
}

/// A preview's text, or `None` for the empty preview.
pub open spec fn preview_view(p: Preview) -> Option<Seq<char>> {
    match p {
        Preview::Text(s) => Some(s@),
        Preview::Empty => None,
    }
}

/// Line `line` of the file at `path`, line break included.
pub open spec fn line_of(texts: Seq<FileText>, path: Seq<char>, line: int) -> Option<Seq<char>> {
    if line < 0 {
        None
    } else {
        match text_at(texts, path) {
            Some(t) => rope_line(t, line as nat),
            None => None,
        }
    }
}

/// The lines `from..from+count` of the file at `path` that exist, joined.
pub open spec fn joined_lines(texts: Seq<FileText>, path: Seq<char>, from: int, count: nat) -> Seq<
    char,
>
    decreases count,
{
    if count == 0 {
        Seq::empty()
    } else {
        joined_lines(texts, path, from, (count - 1) as nat) + match line_of(
            texts,
            path,
            from + count - 1,
        ) {
            Some(l) => l,
            None => Seq::empty(),
        }
    }
}

/// The hover text of a glossary term: the term in bold, a blank line, and
/// its definition.
pub open spec fn glossary_preview(term: Seq<char>, definition: Seq<char>) -> Seq<char> {
    "**"@ + term + "**\n\n"@ + definition
}

/// The preview of a referenceable: nothing for a one-line file; the first
/// line of a footnote, link definition, indexed block, anchor or math label;
/// a glossary term in bold with its definition; a heading with the ten lines below it; the first fourteen
/// lines of a file; `name: value` of a substitution; nothing for tags and
/// unresolved targets.
pub open spec fn spec_preview(texts: Seq<FileText>, r: ReferenceableView) -> Option<Option<Seq<char>>> {
    let path = spec_path(r);
    if text_at(texts, path) is Some && rope_len_lines(text_at(texts, path)->0) == 1 {
        Some(None)
    } else {
        match r {
            ReferenceableView::Footnote(..) | ReferenceableView::LinkRefDef(..)
            | ReferenceableView::IndexedBlock(..) => match line_of(
                texts,
                path,
                spec_range(r)->0.start.line as int,
            ) {
                Some(l) => Some(Some(l)),
                None => None,
            },
            ReferenceableView::Heading(_, h) => Some(
                Some(
                    joined_lines(
                        texts,
                        path,
                        h.range.0.start.line as int,
                        (if h.range.0.end.line + 11 >= h.range.0.start.line {
                            h.range.0.end.line + 11 - h.range.0.start.line
                        } else {
                            0
                        }) as nat,
                    ),
                ),
            ),
            ReferenceableView::File(..) => Some(Some(joined_lines(texts, path, 0, 14))),
            ReferenceableView::MystAnchor(_, s) | ReferenceableView::MathLabel(_, s) => match line_of(
                texts,
                path,
                s.line as isize as int,
            ) {
                Some(l) => Some(Some(l)),
                None => None,
            },
            ReferenceableView::GlossaryTerm(_, g) => Some(Some(glossary_preview(g.term@, g.definition@))),
            ReferenceableView::SubstitutionDef(_, d) => Some(Some(d.name@ + ": "@ + d.value@)),
            _ => None,
        }
    }
}

/// A non-empty line of a file, trimmed, with its line range.
#[derive(Debug, Clone, PartialEq, Eq)]
pub struct Block<'a> {
    pub text: String,
    pub range: MyRange,
    pub file: &'a String,
}

/// The kind of symbol a referenceable is reported as.
pub open spec fn symbol_kind(r: ReferenceableView) -> SymbolKind {
    match r {
        ReferenceableView::File(..) => SymbolKind::File,
        ReferenceableView::Tag(..) => SymbolKind::Constant,
        _ => SymbolKind::Key,
    }
}

/// The range a referenceable is reported at: the first character of a
/// file, else its own range.
pub open spec fn symbol_range(r: ReferenceableView) -> Option<Range> {
    match r {
        ReferenceableView::File(..) => Some(
            Range {
                start: Position { line: 0, character: 0 },
                end: Position { line: 0, character: 1 },
            },
        ),
        _ => spec_range(r),
    }
}

/// The range a symbol of the referenceable points at: the start of the
/// document for a file, else the referenceable's own range.
fn find_range(referenceable: &Referenceable) -> (r: Option<Range>)
    ensures
        r == symbol_range(referenceable@),
{
    match referenceable {
        Referenceable::File(..) => Some(
            Range { start: Position { line: 0, character: 0 }, end: Position { line: 0, character: 1 } },
        ),
        _ => match referenceable.get_range() {
            Some(r) => Some(r.0),
            None => None,
        },
    }
}

impl Vault {
    fn line_text(&self, path: &str, line: usize) -> (r: Option<String>)
        ensures
            match r {
                Some(s) => line_of(self.ropes@, path@, line as int) == Some(s@),
                None => line_of(self.ropes@, path@, line as int) is None,
            },
    {
        let text = match self.get_text(path) {
            Some(t) => t,
            None => return None,
        };
        match get_line(text.as_str(), line) {
            Some(v) => Some(string_of(&v)),
            None => None,
        }
    }

    fn line_text_signed(&self, path: &str, line: isize) -> (r: Option<String>)
        ensures
            match r {
                Some(s) => line_of(self.ropes@, path@, line as int) == Some(s@),
                None => line_of(self.ropes@, path@, line as int) is None,
            },
    {
        match self.select_line(path, line) {
            Some(v) => Some(string_of(&v)),
            None => None,
        }
    }

    fn joined(&self, path: &str, from: u32, count: u64) -> (r: String)
        requires
            from + count <= u32::MAX + 1,
        ensures
            r@ == joined_lines(self.ropes@, path@, from as int, count as nat),
    {
        let mut out = String::new();
        let mut k: u64 = 0;
        while k < count
            invariant
                k <= count,
                from + count <= u32::MAX + 1,
                out@ == joined_lines(self.ropes@, path@, from as int, k as nat),
            decreases count - k,
        {
            let ln = from as u64 + k;
            assert(ln <= u32::MAX);
            match self.line_text(path, ln as usize) {
                Some(l) => {
                    out = concat(out.as_str(), l.as_str());
                },
                None => {},
            }
            k += 1;
        }
        out
    }

    /// The hover preview of a referenceable, where it can be computed:
    /// `None` for a heading of a file of more than one line whose last line
    /// number plus ten does not fit in a `u32` (where the preview would
    /// overflow), else `Some` of what `select_referenceable_preview` gives.
    pub fn checked_referenceable_preview(&self, referenceable: &Referenceable) -> (r: Option<
        Option<Preview>,
    >)
        ensures
            match r {
                Some(Some(p)) => spec_preview(self.ropes@, referenceable@) == Some(preview_view(p)),
                Some(None) => spec_preview(self.ropes@, referenceable@) is None,
                None => referenceable@ is Heading && !(text_at(self.ropes@, spec_path(referenceable@))
                    is Some && rope_len_lines(text_at(self.ropes@, spec_path(referenceable@))->0) == 1)
                    && spec_range(referenceable@)->0.end.line + 10 > u32::MAX,
            },
    {
        let path = referenceable.get_path();
        let one_line = match self.get_text(path.as_str()) {
            Some(t) => len_lines(t.as_str()) == 1,
            None => false,
        };
        match referenceable {
            Referenceable::Heading(_, h) => {
                if !one_line && h.range.0.end.line > u32::MAX - 10 {
                    return None;
                }
            },
            _ => {},
        }
        Some(self.select_referenceable_preview(referenceable))
    }

    /// The hover preview of a referenceable.
    pub fn select_referenceable_preview(&self, referenceable: &Referenceable) -> (r: Option<Preview>)
        requires
            referenceable@ is Heading && !(text_at(self.ropes@, spec_path(referenceable@)) is Some
                && rope_len_lines(text_at(self.ropes@, spec_path(referenceable@))->0) == 1)
                ==> spec_range(referenceable@)->0.end.line + 10 <= u32::MAX,
        ensures
            match r {
                Some(p) => spec_preview(self.ropes@, referenceable@) == Some(preview_view(p)),
                None => spec_preview(self.ropes@, referenceable@) is None,
            },
    {
        let path = referenceable.get_path();
        match self.get_text(path.as_str()) {
            Some(t) => {
                if len_lines(t.as_str()) == 1 {
                    return Some(Preview::Empty);
                }
            },
            None => {},
        }
        match referenceable {
            Referenceable::Footnote(..) | Referenceable::LinkRefDef(..)
            | Referenceable::IndexedBlock(..) => {
                let range = match referenceable.get_range() {
                    Some(r) => r,
                    None => return None,
                };
                match self.line_text(path.as_str(), range.0.start.line as usize) {
                    Some(l) => Some(Preview::Text(l)),
                    None => None,
                }
            },
            Referenceable::Heading(_, h) => {
                let start = h.range.0.start.line;
                let end = h.range.0.end.line;
                let count: u64 = if end as u64 + 11 >= start as u64 {
                    end as u64 + 11 - start as u64
                } else {
                    0
                };
                Some(Preview::Text(self.joined(path.as_str(), start, count)))
            },
            Referenceable::File(..) => Some(Preview::Text(self.joined(path.as_str(), 0, 14))),
            Referenceable::MystAnchor(_, symbol) | Referenceable::MathLabel(_, symbol) => {
                match self.line_text_signed(path.as_str(), symbol.line as isize) {
                    Some(l) => Some(Preview::Text(l)),
                    None => None,
                }
            },
            Referenceable::GlossaryTerm(_, term) => {
                let head = concat3("**", term.term.as_str(), "**\n\n");
                Some(Preview::Text(concat(head.as_str(), term.definition.as_str())))
            },
            Referenceable::SubstitutionDef(_, sub_def) => Some(
                Preview::Text(concat3(sub_def.name.as_str(), ": ", sub_def.value.as_str())),
            ),
            _ => None,
        }
    }

    /// The symbol information of a referenceable: its full refname, its kind
    /// and its location; `None` when it has no refname or range, or its path
    /// cannot be made a URL.
    pub fn to_symbol_information(&self, referenceable: Referenceable) -> (r: Option<SymbolInformation>)
        ensures
            match r {
                Some(s) => spec_refname(referenceable@, self.spec_root_dir()) is Some && s.name@
                    == spec_refname(referenceable@, self.spec_root_dir())->0.full && s.kind
                    == symbol_kind(referenceable@) && s.location.path@ == spec_path(referenceable@)
                    && path_is_absolute(spec_path(referenceable@)) && symbol_range(referenceable@)
                    == Some(s.location.range),
                None => spec_refname(referenceable@, self.spec_root_dir()) is None
                    || !path_is_absolute(spec_path(referenceable@)) || symbol_range(
                    referenceable@,
                ) is None,
            },
    {
        let refname = referenceable.get_refname(self.root_dir.as_str());
        let name = match refname {
            Some(n) => n.full_refname,
            None => {
                assert(spec_refname(referenceable@, self.spec_root_dir()) is None);
                return None;
            },
        };
        let kind = match referenceable {
            Referenceable::File(_, _) => SymbolKind::File,
            Referenceable::Tag(_, _) => SymbolKind::Constant,
            _ => SymbolKind::Key,
        };
        let path = referenceable.get_path();
        if !is_absolute(path.as_str()) {
            return None;
        }
        let range = match find_range(&referenceable) {
            Some(r) => r,
            None => return None,
        };
        Some(SymbolInformation { name, kind, location: Location { path: path.clone(), range } })
    }
}

/// The blocks of one file: each line that `ropey` can give as one piece of
/// text, trimmed, with the range from its start to its byte length; empty
/// lines dropped.
pub open spec fn file_blocks(t: FileText, line_count: nat) -> Seq<(Seq<char>, Range, Seq<char>)>
    decreases line_count,
{
    if line_count == 0 {
        Seq::empty()
    } else {
        let i = (line_count - 1) as nat;
        let rest = file_blocks(t, i);
        match rope_line_str(t.text@, i) {
            Some(l) => if trimmed(l).len() > 0 {
                rest.push(
                    (
                        trimmed(l),
                        Range {
                            start: Position { line: i as u32, character: 0 },
                            end: Position {
                                line: i as u32,
                                character: (vstd::utf8::encode_utf8(l).len() as usize) as u32,
                            },
                        },
                        t.path@,
                    ),
                )
            } else {
                rest
            },
            None => rest,
        }
    }
}

/// The blocks of all files, file by file.
pub open spec fn all_blocks(texts: Seq<FileText>) -> Seq<(Seq<char>, Range, Seq<char>)>
    decreases texts.len(),
{
    if texts.len() == 0 {
        Seq::empty()
    } else {
        all_blocks(texts.drop_last()) + file_blocks(
            texts.last(),
            rope_len_lines(texts.last().text@),
        )
    }
}

pub open spec fn block_views<'a>(v: Seq<Block<'a>>) -> Seq<(Seq<char>, Range, Seq<char>)> {
    v.map_values(|b: Block<'a>| (b.text@, b.range.0, b.file@))
}

impl Vault {
    /// Every non-empty line of every file of the vault, trimmed.
    pub fn select_blocks(&self) -> (r: Vec<Block<'_>>)
        ensures
            block_views(r@) == all_blocks(self.ropes@),
    {
        let mut out: Vec<Block> = Vec::new();
        let mut fi: usize = 0;
        assert(self.ropes@.subrange(0, 0) =~= Seq::<FileText>::empty());
        assert(block_views(out@) =~= all_blocks(self.ropes@.subrange(0, 0)));
        while fi < self.ropes.len()
            invariant
                fi <= self.ropes.len(),
                block_views(out@) == all_blocks(self.ropes@.subrange(0, fi as int)),
            decreases self.ropes.len() - fi,
        {
            let ft = &self.ropes[fi];
            let n = len_lines(ft.text.as_str());
            let ghost before = block_views(out@);
            let mut i: usize = 0;
            assert(before + file_blocks(*ft, 0) =~= before);
            while i < n
                invariant
                    i <= n,
                    n == rope_len_lines(ft.text@),
                    block_views(out@) == before + file_blocks(*ft, i as nat),
                decreases n - i,
            {
                match line_str(ft.text.as_str(), i) {
                    Some(l) => {
                        let t = trim(l.as_str());
                        if !t.as_str().is_empty() {
                            let blen = l.as_str().len();
                            let b = Block {
                                text: t,
                                range: MyRange(
                                    Range {
                                        start: Position { line: i as u32, character: 0 },
                                        end: Position { line: i as u32, character: blen as u32 },
                                    },
                                ),
                                file: &ft.path,
                            };
                            let ghost prev = block_views(out@);
                            out.push(b);
                            assert(block_views(out@) =~= prev.push(
                                (b.text@, b.range.0, b.file@),
                            ));
                        }
                    },
                    None => {},
                }
                i += 1;
            }
            assert(self.ropes@.subrange(0, fi + 1).drop_last() =~= self.ropes@.subrange(
                0,
                fi as int,
            ));
            fi += 1;
        }
        assert(self.ropes@.subrange(0, fi as int) =~= self.ropes@);
        out
    }
}

} // verus!
