//! References: the places in a document that point somewhere (links, roles,
//! footnote and link references, tags, images, substitutions).

use vstd::prelude::*;

use super::types::{MyRange, Range, Rangeable};
use crate::text::{concat, concat3, decimal, decimal_string};

verus! {

#[derive(Debug, PartialEq, Eq, Default, Clone)]
pub struct ReferenceData {
    pub reference_text: String,
    pub display_text: Option<String>,
    pub range: MyRange,
}

/// MyST role kind for inline references like {ref}`target` or {doc}`path`
#[derive(Debug, PartialEq, Eq, Clone, Copy, Hash, Structural)]
pub enum MystRoleKind {
    Ref,
    NumRef,
    Eq,
    Doc,
    Download,
    Term,
    Abbr,
}

#[derive(Debug, PartialEq, Eq, Clone)]
pub enum Reference {
    Tag(ReferenceData),
    MDFileLink(ReferenceData),
    /// Data, file part, heading part.
    MDHeadingLink(ReferenceData, String, String),
    /// Data, file part, block index (without `^`).
    MDIndexedBlockLink(ReferenceData, String, String),
    Footnote(ReferenceData),
    LinkRef(ReferenceData),
    /// MyST role reference: {role}`target` (data, role kind, target)
    MystRole(ReferenceData, MystRoleKind, String),
    /// Image link: ![alt](path); reference_text holds the image path
    ImageLink(ReferenceData),
    /// MyST substitution reference: {{variable}}; reference_text holds the name
    Substitution(ReferenceData),
}

/// The texts of a `ReferenceData`.
pub struct ReferenceDataView {
    pub reference_text: Seq<char>,
    pub display_text: Option<Seq<char>>,
    pub range: Range,
}

/// A `Reference` with its texts as sequences.
pub enum ReferenceView {
    Tag(ReferenceDataView),
    MDFileLink(ReferenceDataView),
    MDHeadingLink(ReferenceDataView, Seq<char>, Seq<char>),
    MDIndexedBlockLink(ReferenceDataView, Seq<char>, Seq<char>),
    Footnote(ReferenceDataView),
    LinkRef(ReferenceDataView),
    MystRole(ReferenceDataView, MystRoleKind, Seq<char>),
    ImageLink(ReferenceDataView),
    Substitution(ReferenceDataView),
}

impl View for ReferenceData {
    type V = ReferenceDataView;

    open spec fn view(&self) -> ReferenceDataView {
        ReferenceDataView {
            reference_text: self.reference_text@,
            display_text: match self.display_text {
                Some(s) => Some(s@),
                None => None,
            },
            range: self.range.0,
        }
    }
}

impl View for Reference {
    type V = ReferenceView;

    open spec fn view(&self) -> ReferenceView {
        match self {
            Reference::Tag(d) => ReferenceView::Tag(d@),
            Reference::MDFileLink(d) => ReferenceView::MDFileLink(d@),
            Reference::MDHeadingLink(d, f, h) => ReferenceView::MDHeadingLink(d@, f@, h@),
            Reference::MDIndexedBlockLink(d, f, i) => ReferenceView::MDIndexedBlockLink(
                d@,
                f@,
                i@,
            ),
            Reference::Footnote(d) => ReferenceView::Footnote(d@),
            Reference::LinkRef(d) => ReferenceView::LinkRef(d@),
            Reference::MystRole(d, k, t) => ReferenceView::MystRole(d@, *k, t@),
            Reference::ImageLink(d) => ReferenceView::ImageLink(d@),
            Reference::Substitution(d) => ReferenceView::Substitution(d@),
        }
    }
}

/// The data of a reference view.
pub open spec fn view_data(r: ReferenceView) -> ReferenceDataView {
    match r {
        ReferenceView::Tag(d) => d,
        ReferenceView::MDFileLink(d) => d,
        ReferenceView::MDHeadingLink(d, _, _) => d,
        ReferenceView::MDIndexedBlockLink(d, _, _) => d,
        ReferenceView::Footnote(d) => d,
        ReferenceView::LinkRef(d) => d,
        ReferenceView::MystRole(d, _, _) => d,
        ReferenceView::ImageLink(d) => d,
        ReferenceView::Substitution(d) => d,
    }
}

/// Which variant a reference is, as a number (for comparing kinds).
pub open spec fn variant_index(r: ReferenceView) -> int {
    match r {
        ReferenceView::Tag(_) => 0,
        ReferenceView::MDFileLink(_) => 1,
        ReferenceView::MDHeadingLink(..) => 2,
        ReferenceView::MDIndexedBlockLink(..) => 3,
        ReferenceView::Footnote(_) => 4,
        ReferenceView::LinkRef(_) => 5,
        ReferenceView::MystRole(..) => 6,
        ReferenceView::ImageLink(_) => 7,
        ReferenceView::Substitution(_) => 8,
    }
}

/// The type name of a reference.
pub open spec fn spec_reference_type_name(r: ReferenceView) -> &'static str {
    match r {
        ReferenceView::Tag(_) => "tag",
        ReferenceView::Footnote(_) => "footnote",
        ReferenceView::MDFileLink(_) => "file_link",
        ReferenceView::MDHeadingLink(..) => "heading_link",
        ReferenceView::MDIndexedBlockLink(..) => "indexed_block_link",
        ReferenceView::LinkRef(_) => "link_ref",
        ReferenceView::MystRole(..) => "myst_role",
        ReferenceView::ImageLink(_) => "image_link",
        ReferenceView::Substitution(_) => "substitution",
    }
}

/// The diagnostic message of an unresolved reference, before any usage count.
pub open spec fn base_diagnostic_message(r: ReferenceView) -> Seq<char> {
    match r {
        ReferenceView::MystRole(_, kind, target) => match kind {
            MystRoleKind::Ref | MystRoleKind::NumRef => "Unresolved reference to anchor '"@
                + target + "'"@,
            MystRoleKind::Doc => "Unresolved document reference '"@ + target + "'"@,
            MystRoleKind::Download => "Unresolved download reference '"@ + target + "'"@,
            MystRoleKind::Term => "Unresolved glossary term '"@ + target + "'"@,
            MystRoleKind::Eq => "Unresolved equation reference '"@ + target + "'"@,
            MystRoleKind::Abbr => "Unresolved Reference"@,
        },
        ReferenceView::ImageLink(d) => "Missing image file '"@ + d.reference_text + "'"@,
        ReferenceView::Substitution(d) => "Undefined substitution '{{"@ + d.reference_text
            + "}}'"@,
        _ => "Unresolved Reference"@,
    }
}

/// The diagnostic message of an unresolved reference used `usage_count` times.
pub open spec fn diagnostic_message(r: ReferenceView, usage_count: nat) -> Seq<char> {
    if usage_count > 1 {
        base_diagnostic_message(r) + " (used "@ + decimal(usage_count) + " times)"@
    } else {
        base_diagnostic_message(r)
    }
}

impl Reference {
    /// The underlying reference data (range, reference text, display text).
    pub fn data(&self) -> (r: &ReferenceData)
        ensures
            r@ == view_data(self@),
    {
        match self {
            Reference::Tag(data) => data,
            Reference::Footnote(data) => data,
            Reference::MDFileLink(data) => data,
            Reference::MDHeadingLink(data, ..) => data,
            Reference::MDIndexedBlockLink(data, ..) => data,
            Reference::LinkRef(data) => data,
            Reference::MystRole(data, ..) => data,
            Reference::ImageLink(data) => data,
            Reference::Substitution(data) => data,
        }
    }

    /// Whether the two references are of the same variant.
    pub fn matches_type(&self, other: &Reference) -> (b: bool)
        ensures
            b == (variant_index(self@) == variant_index(other@)),
    {
        match other {
            Reference::Tag(..) => matches!(self, Reference::Tag(..)),
            Reference::Footnote(..) => matches!(self, Reference::Footnote(..)),
            Reference::MDFileLink(..) => matches!(self, Reference::MDFileLink(..)),
            Reference::MDHeadingLink(..) => matches!(self, Reference::MDHeadingLink(..)),
            Reference::MDIndexedBlockLink(..) => matches!(self, Reference::MDIndexedBlockLink(..)),
            Reference::LinkRef(..) => matches!(self, Reference::LinkRef(..)),
            Reference::MystRole(..) => matches!(self, Reference::MystRole(..)),
            Reference::ImageLink(..) => matches!(self, Reference::ImageLink(..)),
            Reference::Substitution(..) => matches!(self, Reference::Substitution(..)),
        }
    }

    /// A static string identifying the reference type.
    pub fn reference_type_name(&self) -> (r: &'static str)
        ensures
            r == spec_reference_type_name(self@),
    {
        match self {
            Reference::Tag(..) => "tag",
            Reference::Footnote(..) => "footnote",
            Reference::MDFileLink(..) => "file_link",
            Reference::MDHeadingLink(..) => "heading_link",
            Reference::MDIndexedBlockLink(..) => "indexed_block_link",
            Reference::LinkRef(..) => "link_ref",
            Reference::MystRole(..) => "myst_role",
            Reference::ImageLink(..) => "image_link",
            Reference::Substitution(..) => "substitution",
        }
    }

    /// Whether hovering this reference can show a preview: every reference
    /// type except tags, image links and substitutions.
    pub fn has_preview(&self) -> (b: bool)
        ensures
            b == !(self@ is Tag || self@ is ImageLink || self@ is Substitution),
    {
        match self {
            Reference::Tag(_) => false,
            Reference::ImageLink(_) => false,
            Reference::Substitution(_) => false,
            Reference::Footnote(_)
            | Reference::MDFileLink(..)
            | Reference::MDHeadingLink(..)
            | Reference::MDIndexedBlockLink(..)
            | Reference::LinkRef(..)
            | Reference::MystRole(..) => true,
        }
    }

    fn base_diagnostic_message(&self) -> (r: String)
        ensures
            r@ == base_diagnostic_message(self@),
    {
        match self {
            Reference::MystRole(_, kind, target) => match kind {
                MystRoleKind::Ref | MystRoleKind::NumRef => concat3(
                    "Unresolved reference to anchor '",
                    target.as_str(),
                    "'",
                ),
                MystRoleKind::Doc => concat3("Unresolved document reference '", target.as_str(), "'"),
                MystRoleKind::Download => concat3(
                    "Unresolved download reference '",
                    target.as_str(),
                    "'",
                ),
                MystRoleKind::Term => concat3("Unresolved glossary term '", target.as_str(), "'"),
                MystRoleKind::Eq => concat3(
                    "Unresolved equation reference '",
                    target.as_str(),
                    "'",
                ),
                MystRoleKind::Abbr => String::from_str("Unresolved Reference"),
            },
            Reference::ImageLink(data) => concat3(
                "Missing image file '",
                data.reference_text.as_str(),
                "'",
            ),
            Reference::Substitution(data) => concat3(
                "Undefined substitution '{{",
                data.reference_text.as_str(),
                "}}'",
            ),
            _ => String::from_str("Unresolved Reference"),
        }
    }

    /// The diagnostic message of an unresolved reference: a type-specific
    /// message, followed by " (used N times)" when the reference is used more
    /// than once.
    pub fn generate_diagnostic_message(&self, usage_count: usize) -> (r: String)
        ensures
            r@ == diagnostic_message(self@, usage_count as nat),
    {
        let base = self.base_diagnostic_message();
        if usage_count > 1 {
            let count = decimal_string(usage_count);
            let tail = concat3(" (used ", count.as_str(), " times)");
            concat(base.as_str(), tail.as_str())
        } else {
            base
        }
    }
}

/// A message carries a usage count exactly when the reference is used more
/// than once; otherwise it is the bare type-specific message.
pub proof fn lemma_diagnostic_message_count(r: ReferenceView, usage_count: nat)
    ensures
        usage_count <= 1 ==> diagnostic_message(r, usage_count) == base_diagnostic_message(r),
        usage_count > 1 ==> diagnostic_message(r, usage_count).subrange(
            0,
            base_diagnostic_message(r).len() as int,
        ) == base_diagnostic_message(r),
{
    if usage_count > 1 {
        let b = base_diagnostic_message(r);
        let rest = " (used "@ + decimal(usage_count) + " times)"@;
        assert((b + rest).subrange(0, b.len() as int) =~= b);
        assert(diagnostic_message(r, usage_count) =~= b + rest);
    }
}

impl Rangeable for Reference {
    open spec fn spec_range(&self) -> Range {
        view_data(self@).range
    }

    fn range(&self) -> (r: &MyRange) {
        &self.data().range
    }
}

/// Text and file name: the references of a document (see
/// `extract_references_from_ast`).
impl Reference {
    pub fn new(text: &str, file_name: &str) -> (r: Vec<Reference>)
        ensures
            super::ast_refs::ref_views(r@) == super::ast_refs::spec_extract_references(
                text@,
                text.len() as nat,
            ),
    {
        super::ast_refs::extract_references_from_ast(text, file_name)
    }
}

} // verus!
