//! Frontmatter JSON Schema validation.
//!
//! The YAML frontmatter of a document (between `---` lines at its very
//! start) is converted to JSON and validated against a JSON schema. Each
//! validation error becomes a warning placed on the frontmatter block.
//! A missing or malformed schema means no validation.

use vstd::prelude::*;

use crate::pattern::{first_capture, first_group};
use crate::text::{chars_of, concat};
use crate::vault::{Position, Range};

verus! {

/// The frontmatter at the start of a document: `---`, a line break, the
/// YAML (as short as possible), a line break and `---`.
pub const FRONTMATTER_PATTERN: &'static str = r"^---\n(?<yaml>(?:.|\n)*?)\n---";

/// How many times `c` occurs in `s`.
pub open spec fn count_char(s: Seq<char>, c: char) -> nat
    decreases s.len(),
{
    if s.len() == 0 {
        0
    } else {
        count_char(s.drop_last(), c) + if s.last() == c {
            1nat
        } else {
            0nat
        }
    }
}

/// How many line breaks a text holds.
pub fn count_newlines(s: &str) -> (r: usize)
    ensures
        r == count_char(s@, '\n'),
{
    let v = chars_of(s);
    let mut n: usize = 0;
    let mut i: usize = 0;
    while i < v.len()
        invariant
            i <= v.len(),
            v@ == s@,
            n == count_char(v@.subrange(0, i as int), '\n'),
            n <= i,
        decreases v.len() - i,
    {
        assert(v@.subrange(0, i + 1).drop_last() =~= v@.subrange(0, i as int));
        if v[i] == '\n' {
            n += 1;
        }
        i += 1;
    }
    assert(v@.subrange(0, i as int) =~= v@);
    n
}

/// The frontmatter of a document: its YAML text, the line of the opening
/// `---` (always the first) and the line of the closing `---`: the opening
/// line, its line break, then one line per line break of the YAML, and the
/// line break before the closing `---`.
pub open spec fn spec_extract_frontmatter_with_range(text: Seq<char>) -> Option<
    (Seq<char>, nat, nat),
> {
    match first_group(FRONTMATTER_PATTERN@, text, 1) {
        Some(g) => Some((g.2, 0, count_char(g.2, '\n') + 2)),
        None => None,
    }
}

/// Extract frontmatter with full range information.
///
/// Returns (yaml_content, start_line, end_line) where:
/// - yaml_content: The YAML text between the delimiters
/// - start_line: Line number of the opening --- (0-indexed)
/// - end_line: Line number of the closing --- (0-indexed)
pub fn extract_frontmatter_with_range(text: &str) -> (r: Option<(String, usize, usize)>)
    requires
        text@.len() + 1 < usize::MAX,
    ensures
        match (r, spec_extract_frontmatter_with_range(text@)) {
            (Some((y, s, e)), Some(m)) => y@ == m.0 && s == m.1 && e == m.2,
            (None, None) => true,
            _ => false,
        },
{
    match first_capture(FRONTMATTER_PATTERN, text, 1) {
        Some(g) => {
            let n = count_newlines(g.text.as_str());
            assert(n <= g.text@.len()) by {
                lemma_count_char_bound(g.text@, '\n');
            }
            Some((g.text, 0, n + 2))
        },
        None => None,
    }
}

/// A character occurs in a text at most as often as the text is long.
pub proof fn lemma_count_char_bound(s: Seq<char>, c: char)
    ensures
        count_char(s, c) <= s.len(),
    decreases s.len(),
{
    if s.len() > 0 {
        lemma_count_char_bound(s.drop_last(), c);
    }
}

/// Extract the raw YAML content from frontmatter delimiters.
///
/// Returns the YAML content and its starting line number (0-indexed).
pub fn extract_frontmatter(text: &str) -> (r: Option<(String, usize)>)
    requires
        text@.len() + 1 < usize::MAX,
    ensures
        match (r, spec_extract_frontmatter_with_range(text@)) {
            (Some((y, s)), Some(m)) => y@ == m.0 && s == m.1,
            (None, None) => true,
            _ => false,
        },
{
    match extract_frontmatter_with_range(text) {
        Some((y, s, _e)) => Some((y, s)),
        None => None,
    }
}

/// The range that frontmatter diagnostics are placed on: from the start of
/// the opening `---` to the end of the closing `---` on line `end_line`.
pub open spec fn spec_frontmatter_range(end_line: nat) -> Range {
    Range {
        start: Position { line: 0, character: 0 },
        end: Position { line: end_line as u32, character: 3 },
    }
}

/// Errors that can occur during frontmatter validation.
#[derive(Debug, Clone, PartialEq, Eq)]
pub struct FrontmatterValidationError {
    /// Human-readable error message from schema validation.
    pub message: String,
    /// The JSON path within the frontmatter where the error occurred.
    /// E.g., "/tags/0" for the first element of the tags array.
    pub instance_path: String,
}

/// Result of validating frontmatter against a schema.
#[derive(Debug, Clone, PartialEq, Eq)]
pub struct FrontmatterValidationResult {
    /// Validation errors found.
    pub errors: Vec<FrontmatterValidationError>,
    /// The range of the frontmatter block in the document.
    /// Used to position diagnostics.
    pub frontmatter_range: Option<Range>,
}

/// Validation errors as (message, instance path) pairs.
pub open spec fn error_views(v: Seq<FrontmatterValidationError>) -> Seq<(Seq<char>, Seq<char>)> {
    v.map_values(|e: FrontmatterValidationError| (e.message@, e.instance_path@))
}

/// The outcome of checking YAML against a schema, as plain values: the
/// schema's errors, or the text of the YAML parse error.
pub open spec fn outcome_view(o: Result<Vec<FrontmatterValidationError>, String>) -> Result<
    Seq<(Seq<char>, Seq<char>)>,
    Seq<char>,
> {
    match o {
        Ok(v) => Ok(error_views(v@)),
        Err(e) => Err(e@),
    }
}

/// The errors reported for an outcome: the schema's errors, or one error
/// with the parse error's message and no instance path.
pub open spec fn outcome_errors(o: Result<Seq<(Seq<char>, Seq<char>)>, Seq<char>>) -> Seq<
    (Seq<char>, Seq<char>),
> {
    match o {
        Ok(es) => es,
        Err(e) => seq![(yaml_error_message(e), Seq::<char>::empty())],
    }
}

/// The message of a YAML parse error.
pub open spec fn yaml_error_message(e: Seq<char>) -> Seq<char> {
    "YAML parse error: "@ + e
}

/// The frontmatter block of a document: its YAML text and the range that
/// diagnostics about it are placed on.
pub fn frontmatter_block(document_text: &str) -> (r: Option<(String, Range)>)
    requires
        document_text@.len() + 1 < usize::MAX,
    ensures
        match (r, spec_extract_frontmatter_with_range(document_text@)) {
            (Some((y, range)), Some(m)) => y@ == m.0 && range == spec_frontmatter_range(m.2),
            (None, None) => true,
            _ => false,
        },
{
    match extract_frontmatter_with_range(document_text) {
        Some((yaml, _start_line, end_line)) => Some(
            (
                yaml,
                Range {
                    start: Position { line: 0, character: 0 },
                    end: Position { line: end_line as u32, character: 3 },
                },
            ),
        ),
        None => None,
    }
}

/// The validation result for a frontmatter block at `range`, given the
/// outcome of checking its YAML: the schema's errors when the YAML parsed,
/// else one error carrying the parse error's text.
pub fn validation_result(
    range: Range,
    outcome: Result<Vec<FrontmatterValidationError>, String>,
) -> (r: FrontmatterValidationResult)
    ensures
        r.frontmatter_range == Some(range),
        match outcome {
            Ok(errors) => r.errors == errors,
            Err(e) => r.errors@.len() == 1 && r.errors@[0].message@ == yaml_error_message(e@)
                && r.errors@[0].instance_path@.len() == 0,
        },
        error_views(r.errors@) == outcome_errors(outcome_view(outcome)),
{
    match outcome {
        Ok(errors) => FrontmatterValidationResult { errors, frontmatter_range: Some(range) },
        Err(e) => {
            let message = concat("YAML parse error: ", e.as_str());
            let mut errors: Vec<FrontmatterValidationError> = Vec::new();
            errors.push(FrontmatterValidationError { message, instance_path: String::new() });
            assert(error_views(errors@) =~= outcome_errors(outcome_view(Err::<Vec<FrontmatterValidationError>, String>(e))));
            FrontmatterValidationResult { errors, frontmatter_range: Some(range) }
        },
    }
}

/// The result for a document without frontmatter: no error and no range.
pub fn no_frontmatter_result() -> (r: FrontmatterValidationResult)
    ensures
        r.errors@.len() == 0,
        r.frontmatter_range is None,
{
    FrontmatterValidationResult { errors: Vec::new(), frontmatter_range: None }
}


/// Whether a JSON schema text compiles: it parses as JSON
/// (`serde_json::from_str`) and `jsonschema::validator_for` accepts it. A
/// function of the text.
pub uninterp spec fn schema_compiles(schema_json: Seq<char>) -> bool;

/// What checking YAML against the schema compiled from `schema_json` gives:
/// the text of the error when `serde_yaml` cannot read the YAML as a JSON
/// value, else the errors `Validator::iter_errors` yields for that value,
/// each as its message and its instance path. A function of the schema text
/// and the YAML.
pub uninterp spec fn schema_validation(schema_json: Seq<char>, yaml: Seq<char>) -> Result<
    Seq<(Seq<char>, Seq<char>)>,
    Seq<char>,
>;

/// A compiled `jsonschema::Validator`, held without looking inside.
#[verifier::external_body]
pub struct CompiledSchema {
    validator: jsonschema::Validator,
}

/// Parses `schema_json` with `serde_json::from_str` and compiles it with
/// `jsonschema::validator_for`; `None` when either fails. The claim: whether
/// it succeeds is a function of the text.
#[verifier::external_body]
fn compile(schema_json: &str) -> (r: Option<CompiledSchema>)
    ensures
        r is Some == schema_compiles(schema_json@),
{
    let value: serde_json::Value = serde_json::from_str(schema_json).ok()?;
    let validator = jsonschema::validator_for(&value).ok()?;
    Some(CompiledSchema { validator })
}

/// A loaded and compiled JSON schema for frontmatter validation, with the
/// text it was compiled from.
pub struct FrontmatterSchema {
    source: String,
    compiled: CompiledSchema,
}

/// Reads `yaml` as a JSON value with `serde_yaml::from_str` and runs the
/// schema's `Validator::iter_errors` on it, each error as its `to_string`
/// and its instance path's `to_string`; the parse error's `to_string` when
/// the YAML cannot be read. The claim: the outcome is a function of the
/// schema text and the YAML.
#[verifier::external_body]
fn schema_outcome(schema: &FrontmatterSchema, yaml: &str) -> (r: Result<
    Vec<FrontmatterValidationError>,
    String,
>)
    ensures
        outcome_view(r) == schema_validation(schema.schema_source(), yaml@),
{
    match serde_yaml::from_str::<serde_json::Value>(yaml) {
        Ok(value) => Ok(
            schema.compiled.validator.iter_errors(&value).map(
                |error| FrontmatterValidationError {
                    message: error.to_string(),
                    instance_path: error.instance_path().to_string(),
                },
            ).collect(),
        ),
        Err(e) => Err(e.to_string()),
    }
}

/// Compiles a JSON schema text for frontmatter validation; `None` when it is
/// not JSON or not a schema.
pub fn compile_schema(schema_json: &str) -> (r: Option<FrontmatterSchema>)
    ensures
        r is Some == schema_compiles(schema_json@),
        r matches Some(s) ==> s.schema_source() == schema_json@,
{
    match compile(schema_json) {
        Some(compiled) => Some(FrontmatterSchema { source: String::from_str(schema_json), compiled }),
        None => None,
    }
}

impl FrontmatterSchema {
    /// The JSON text the schema was compiled from.
    pub closed spec fn schema_source(&self) -> Seq<char> {
        self.source@
    }

    /// Validates a document's frontmatter against the schema: nothing when
    /// the document has no frontmatter, else the outcome of checking its
    /// YAML, placed on the frontmatter block.
    pub fn validate(&self, document_text: &str) -> (r: FrontmatterValidationResult)
        requires
            document_text@.len() + 1 < usize::MAX,
        ensures
            match spec_extract_frontmatter_with_range(document_text@) {
                None => r.errors@.len() == 0 && r.frontmatter_range is None,
                Some(m) => r.frontmatter_range == Some(spec_frontmatter_range(m.2)) && error_views(
                    r.errors@,
                ) == outcome_errors(schema_validation(self.schema_source(), m.0)),
            },
    {
        match frontmatter_block(document_text) {
            Some((yaml, range)) => {
                let outcome = schema_outcome(self, yaml.as_str());
                validation_result(range, outcome)
            },
            None => no_frontmatter_result(),
        }
    }
}

} // verus!
