pub mod file;
pub mod graph;
pub mod helpers;
pub mod ast_refs;
pub mod mdast;
pub mod metadata;
pub mod parsers;
pub mod paths;
pub mod reference;
pub mod referenceable;
pub mod rope;
pub mod preview;
pub mod store;
pub mod types;

pub use file::MDFile;
pub use helpers::{get_obsidian_ref_path, Refname};
pub use metadata::MDMetadata;
pub use reference::{MystRoleKind, Reference, ReferenceData};
pub use referenceable::{DocumentChange, Referenceable};
pub use preview::{Block, Preview};
pub use store::{FileText, Vault};
pub use types::{
    HeadingLevel, MDCodeBlock, MDFootnote, MDHeading, MDIndexedBlock, MDLinkReferenceDefinition,
    MDSubstitutionDef, MDTag, MyRange, Position, Range, Rangeable,
};
