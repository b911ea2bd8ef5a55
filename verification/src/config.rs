//! Configuration of the language server.
//!
//! Settings are read from `~/.config/moxide/settings` and `<vault>/.moxide`;
//! reading them is the server's business. This module holds their shape and
//! their defaults.

use vstd::prelude::*;

verus! {

/// Language server configuration options.
#[derive(Debug, Clone)]
pub struct Settings {
    /// Date format for daily note filenames (strftime). Default: `%Y-%m-%d`
    pub dailynote: String,
    /// Folder for new files created via code actions. Default: `""`
    pub new_file_folder_path: String,
    /// Folder containing daily notes. Default: `""`
    pub daily_notes_folder: String,
    /// Enable heading-based completions. Default: `true`
    pub heading_completions: bool,
    /// Use first heading as document title in completions. Default: `true`
    pub title_headings: bool,
    /// Report diagnostics for unresolved references. Default: `true`
    pub unresolved_diagnostics: bool,
    /// Enable semantic token highlighting. Default: `true`
    pub semantic_tokens: bool,
    /// Parse tags inside code blocks. Default: `false`
    pub tags_in_codeblocks: bool,
    /// Parse references inside code blocks. Default: `false`
    pub references_in_codeblocks: bool,
    /// Include `.md` extension in markdown link completions. Default: `false`
    pub include_md_extension_md_link: bool,
    /// Enable hover information. Default: `true`
    pub hover: bool,
    /// Case sensitivity for fuzzy matching. Default: `Smart`
    pub case_matching: Case,
    /// Enable inlay hints. Default: `true`
    pub inlay_hints: bool,
    /// Enable block transclusion in hover. Default: `true`
    pub block_transclusion: bool,
    /// Length of transcluded blocks in hover. Default: `Full`
    pub block_transclusion_length: EmbeddedBlockTransclusionLength,
    /// Show only filenames in link completions. Default: `false`
    pub link_filenames_only: bool,
    /// Path to JSON Schema for frontmatter validation, relative to the vault root.
    pub frontmatter_schema_path: String,
}

/// Case sensitivity mode for fuzzy matching.
#[derive(Clone, Copy, Debug, PartialEq, Eq, Structural)]
pub enum Case {
    /// Always case-insensitive
    Ignore,
    /// Case-sensitive only if query contains uppercase
    Smart,
    /// Always case-sensitive
    Respect,
}

/// How much of an embedded block to show in hover previews.
#[derive(Clone, Copy, Debug, PartialEq, Eq, Structural)]
pub enum EmbeddedBlockTransclusionLength {
    /// Show only the first `n` characters
    Partial(usize),
    /// Show the entire block content
    Full,
}

/// The default settings.
pub open spec fn is_default_settings(s: Settings) -> bool {
    &&& s.dailynote@ == "%Y-%m-%d"@
    &&& s.new_file_folder_path@ == Seq::<char>::empty()
    &&& s.daily_notes_folder@ == Seq::<char>::empty()
    &&& s.heading_completions
    &&& s.title_headings
    &&& s.unresolved_diagnostics
    &&& s.semantic_tokens
    &&& !s.tags_in_codeblocks
    &&& !s.references_in_codeblocks
    &&& !s.include_md_extension_md_link
    &&& s.hover
    &&& s.case_matching == Case::Smart
    &&& s.inlay_hints
    &&& s.block_transclusion
    &&& s.block_transclusion_length == EmbeddedBlockTransclusionLength::Full
    &&& !s.link_filenames_only
    &&& s.frontmatter_schema_path@ == "_schemas/frontmatter.schema.json"@
}

impl Default for Settings {
    fn default() -> (r: Settings)
        ensures
            is_default_settings(r),
    {
        Settings {
            dailynote: String::from_str("%Y-%m-%d"),
            new_file_folder_path: String::new(),
            daily_notes_folder: String::new(),
            heading_completions: true,
            title_headings: true,
            unresolved_diagnostics: true,
            semantic_tokens: true,
            tags_in_codeblocks: false,
            references_in_codeblocks: false,
            include_md_extension_md_link: false,
            hover: true,
            case_matching: Case::Smart,
            inlay_hints: true,
            block_transclusion: true,
            block_transclusion_length: EmbeddedBlockTransclusionLength::Full,
            link_filenames_only: false,
            frontmatter_schema_path: String::from_str("_schemas/frontmatter.schema.json"),
        }
    }
}

} // verus!
