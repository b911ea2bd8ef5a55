use charip::diagnostics::frontmatter_diagnostics;
use charip::frontmatter_schema::{
    extract_frontmatter_with_range, frontmatter_block, no_frontmatter_result,
    validation_result, FrontmatterValidationError,
};
use charip::lsp::DiagnosticSeverity;
use charip::sort::stable_sort_by_key;
use charip::symbol::{construct_tree, HeadingNode};
use charip::vault::metadata::metadata_yaml;
use charip::vault::{HeadingLevel, MDHeading, MDMetadata, MyRange, Position, Range};

fn heading(level: usize, text: &str) -> MDHeading {
    MDHeading { heading_text: text.to_string(), range: MyRange::default(), level: HeadingLevel(level) }
}

fn flatten(nodes: &[HeadingNode], out: &mut Vec<MDHeading>) {
    for n in nodes {
        out.push(n.heading.clone());
        if let Some(c) = &n.children {
            flatten(c, out);
        }
    }
}

fn lookup<'a>(m: &'a MDMetadata, name: &str) -> Option<&'a String> {
    m.substitutions().iter().find(|(n, _)| n == name).map(|(_, v)| v)
}

#[test]
fn sort_is_stable_and_ascending() {
    let items = vec![(3u128, "a"), (1, "b"), (3, "c"), (2, "d"), (1, "e")];
    let sorted = stable_sort_by_key(items);
    assert_eq!(sorted, vec![(1, "b"), (1, "e"), (2, "d"), (3, "a"), (3, "c")]);
}

#[test]
fn sort_of_nothing_is_nothing() {
    let sorted = stable_sort_by_key(Vec::<(u128, u8)>::new());
    assert!(sorted.is_empty());
}

#[test]
fn tree_flattens_back_to_the_headings() {
    let headings = vec![
        heading(2, "a"),
        heading(1, "b"),
        heading(3, "c"),
        heading(2, "d"),
        heading(4, "e"),
        heading(1, "f"),
    ];
    let tree = construct_tree(&headings).unwrap();
    let mut flat = Vec::new();
    flatten(&tree, &mut flat);
    assert_eq!(flat, headings);
    let top: Vec<&str> = tree.iter().map(|n| n.heading.heading_text.as_str()).collect();
    assert_eq!(top, vec!["a", "b", "f"]);
}

#[test]
fn no_headings_no_tree() {
    assert_eq!(construct_tree(&vec![]), None);
}

#[test]
fn myst_substitutions_take_precedence() {
    let m = MDMetadata::from_parts(
        vec![],
        vec![("name".to_string(), "TopLevel".to_string()), ("only_top".to_string(), "OnlyTop".to_string())],
        Some(vec![
            ("name".to_string(), "MystLevel".to_string()),
            ("only_myst".to_string(), "OnlyMyst".to_string()),
        ]),
    );
    assert_eq!(lookup(&m, "name"), Some(&"MystLevel".to_string()));
    assert_eq!(lookup(&m, "only_top"), Some(&"OnlyTop".to_string()));
    assert_eq!(lookup(&m, "only_myst"), Some(&"OnlyMyst".to_string()));
    assert_eq!(m.substitutions().len(), 3);
}

#[test]
fn metadata_without_substitutions() {
    let m = MDMetadata::from_parts(vec!["alias1".to_string(), "alias2".to_string()], vec![], None);
    assert_eq!(m.aliases(), &vec!["alias1".to_string(), "alias2".to_string()]);
    assert!(m.substitutions().is_empty());
}

#[test]
fn metadata_yaml_is_the_frontmatter() {
    assert_eq!(
        metadata_yaml("---\naliases: [\"a\"]\n---\nContent"),
        Some("aliases: [\"a\"]".to_string())
    );
    assert_eq!(metadata_yaml("No frontmatter"), None);
    assert_eq!(metadata_yaml("text\n---\na: b\n---"), None);
}

#[test]
fn frontmatter_range_ends_at_closing_delimiter() {
    let text = "---\ntitle: x\ntags: [a]\n---\nBody";
    assert_eq!(
        extract_frontmatter_with_range(text),
        Some(("title: x\ntags: [a]".to_string(), 0, 3))
    );
    let (yaml, range) = frontmatter_block(text).unwrap();
    assert_eq!(yaml, "title: x\ntags: [a]");
    assert_eq!(
        range,
        Range { start: Position { line: 0, character: 0 }, end: Position { line: 3, character: 3 } }
    );
    assert_eq!(frontmatter_block("no frontmatter"), None);
}

#[test]
fn yaml_error_becomes_one_error() {
    let range = Range { start: Position { line: 0, character: 0 }, end: Position { line: 2, character: 3 } };
    let r = validation_result(range, Err("bad indent".to_string()));
    assert_eq!(r.frontmatter_range, Some(range));
    assert_eq!(r.errors.len(), 1);
    assert_eq!(r.errors[0].message, "YAML parse error: bad indent");
    assert_eq!(r.errors[0].instance_path, "");
    let diags = frontmatter_diagnostics(&r);
    assert_eq!(diags.len(), 1);
    assert_eq!(diags[0].message, "Frontmatter: YAML parse error: bad indent");
    assert_eq!(diags[0].severity, DiagnosticSeverity::Warning);
    assert_eq!(diags[0].range, range);
}

#[test]
fn schema_errors_name_their_path() {
    let range = Range { start: Position { line: 0, character: 0 }, end: Position { line: 4, character: 3 } };
    let errors = vec![FrontmatterValidationError {
        message: "\"x\" is not of type \"array\"".to_string(),
        instance_path: "/tags".to_string(),
    }];
    let r = validation_result(range, Ok(errors.clone()));
    assert_eq!(r.errors, errors);
    let diags = frontmatter_diagnostics(&r);
    assert_eq!(diags[0].message, "Frontmatter /tags: \"x\" is not of type \"array\"");
    assert!(frontmatter_diagnostics(&no_frontmatter_result()).is_empty());
}

#[test]
fn heading_tree_maps_to_nested_symbols() {
    let headings = vec![heading(1, "First"), heading(2, "Second"), heading(1, "Third")];
    let tree = construct_tree(&headings).unwrap();
    let symbols = charip::symbol::map_to_lsp_tree(tree);
    assert_eq!(symbols.len(), 2);
    assert_eq!(symbols[0].name, "First");
    assert_eq!(symbols[0].kind, charip::lsp::SymbolKind::Struct);
    assert_eq!(symbols[0].detail, None);
    let children = symbols[0].children.as_ref().unwrap();
    assert_eq!(children.len(), 1);
    assert_eq!(children[0].name, "Second");
    assert!(children[0].children.is_none());
    assert_eq!(symbols[1].name, "Third");
    assert!(symbols[1].children.is_none());
}

const TITLE_TAGS_SCHEMA: &str = r#"{
    "$schema": "http://json-schema.org/draft-07/schema#",
    "type": "object",
    "required": ["title", "tags"],
    "properties": {
        "title": { "type": "string" },
        "tags": { "type": "array", "items": { "type": "string" } }
    }
}"#;

#[test]
fn valid_frontmatter_has_no_errors() {
    let schema = charip::frontmatter_schema::compile_schema(TITLE_TAGS_SCHEMA).unwrap();
    let r = schema.validate("---\ntitle: \"My Document\"\ntags:\n  - rust\n  - testing\n---\n# Content\n");
    assert!(r.errors.is_empty());
    assert_eq!(
        r.frontmatter_range,
        Some(Range { start: Position { line: 0, character: 0 }, end: Position { line: 5, character: 3 } })
    );
}

#[test]
fn missing_required_field_is_an_error() {
    let schema = charip::frontmatter_schema::compile_schema(TITLE_TAGS_SCHEMA).unwrap();
    let r = schema.validate("---\ntitle: \"My Document\"\n---\n# Content\n");
    assert_eq!(r.errors.len(), 1);
    assert!(r.errors[0].message.contains("tags"));
}

#[test]
fn wrong_type_names_its_path() {
    let schema = charip::frontmatter_schema::compile_schema(TITLE_TAGS_SCHEMA).unwrap();
    let r = schema.validate("---\ntitle: \"T\"\ntags: \"notalist\"\n---\n");
    assert_eq!(r.errors.len(), 1);
    assert_eq!(r.errors[0].instance_path, "/tags");
}

#[test]
fn unreadable_yaml_is_one_parse_error() {
    let schema = charip::frontmatter_schema::compile_schema(TITLE_TAGS_SCHEMA).unwrap();
    let r = schema.validate("---\ntitle: [unclosed\n---\n");
    assert_eq!(r.errors.len(), 1);
    assert!(r.errors[0].message.starts_with("YAML parse error: "));
    assert_eq!(r.errors[0].instance_path, "");
}

#[test]
fn no_frontmatter_no_validation() {
    let schema = charip::frontmatter_schema::compile_schema(TITLE_TAGS_SCHEMA).unwrap();
    let r = schema.validate("# Just content\n");
    assert!(r.errors.is_empty());
    assert_eq!(r.frontmatter_range, None);
}

#[test]
fn malformed_schema_does_not_compile() {
    assert!(charip::frontmatter_schema::compile_schema("{ not json").is_none());
}

#[test]
fn end_line_counts_blank_lines() {
    assert_eq!(
        extract_frontmatter_with_range("---\na: 1\n\n---\nBody"),
        Some(("a: 1\n".to_string(), 0, 3))
    );
}

#[test]
fn default_settings_enable_tokens_and_hints() {
    let s = charip::config::Settings::default();
    assert!(s.semantic_tokens && s.inlay_hints && s.unresolved_diagnostics && s.hover);
    assert!(!s.tags_in_codeblocks && !s.references_in_codeblocks);
}

#[test]
fn slugifying_a_slug_gives_it_back() {
    for s in ["my-heading", "a1-b2-c3", "x", ""] {
        assert_eq!(charip::completion::myst_role_completer::slugify_heading(s), s);
    }
    let once = charip::completion::myst_role_completer::slugify_heading("  Hello,  World!  ");
    assert_eq!(once, "hello-world");
    assert_eq!(charip::completion::myst_role_completer::slugify_heading(&once), once);
}
