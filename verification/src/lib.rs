//! charip: the verified core of a MyST-aware language server for documentation vaults.

pub mod text;
pub mod completion;
pub mod config;
pub mod diagnostics;
pub mod frontmatter_schema;
pub mod gotodef;
pub mod lsp;
pub mod myst_parser;
pub mod pattern;
pub mod references;
pub mod rename;
pub mod sort;
pub mod symbol;
pub mod vault;
