//! The shapes of the answers that the language server gives, as plain data.
//! Files are named by their paths; the server turns paths into URIs.

use vstd::prelude::*;

use crate::vault::{DocumentChange, Range};

verus! {

/// A range in a file.
#[derive(Debug, Clone, PartialEq, Eq)]
pub struct Location {
    pub path: String,
    pub range: Range,
}

/// The kinds of symbol that the server reports.
#[derive(Debug, Clone, Copy, PartialEq, Eq, Structural)]
pub enum SymbolKind {
    File,
    Constant,
    Key,
    Struct,
    Object,
}

/// A named symbol at a location.
#[derive(Debug, Clone, PartialEq, Eq)]
pub struct SymbolInformation {
    pub name: String,
    pub kind: SymbolKind,
    pub location: Location,
}

/// A symbol of a document, with an optional detail line.
#[derive(Debug, PartialEq, Eq)]
pub struct DocumentSymbol {
    pub name: String,
    pub kind: SymbolKind,
    pub range: Range,
    pub selection_range: Range,
    pub detail: Option<String>,
    pub children: Option<Vec<DocumentSymbol>>,
}

/// How serious a diagnostic is.
#[derive(Debug, Clone, Copy, PartialEq, Eq, Structural)]
pub enum DiagnosticSeverity {
    Error,
    Warning,
    Information,
    Hint,
}

/// A problem found in a document.
#[derive(Debug, Clone, PartialEq, Eq)]
pub struct Diagnostic {
    pub range: Range,
    pub message: String,
    pub severity: DiagnosticSeverity,
    pub source: String,
}

/// The kinds of completion item that the completers offer.
#[derive(Debug, Clone, Copy, PartialEq, Eq, Structural)]
pub enum CompletionItemKind {
    Text,
    Keyword,
    Snippet,
    File,
    Reference,
}

/// A replacement of the text in a range.
#[derive(Debug, Clone, PartialEq, Eq)]
pub struct TextEdit {
    pub range: Range,
    pub new_text: String,
}

/// One completion offered to the editor. `snippet` says whether the new text
/// is in snippet format (with `$1`-style placeholders).
#[derive(Debug, Clone, PartialEq, Eq)]
pub struct CompletionItem {
    pub label: String,
    pub detail: Option<String>,
    pub kind: CompletionItemKind,
    pub snippet: bool,
    pub text_edit: TextEdit,
    pub filter_text: String,
}

/// The changes of a rename: edits of references, then the definition change.
#[derive(Debug, Clone, PartialEq, Eq)]
pub struct WorkspaceEdit {
    pub document_changes: Vec<DocumentChange>,
}

} // verus!
