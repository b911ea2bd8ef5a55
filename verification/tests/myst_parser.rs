use charip::myst_parser::{parse, parse_glossary_terms, scan_for_myst, syntax_tree, MystSymbolKind};

#[test]
fn test_myst_symbol_has_range_field() {
        let input = "(my-target)=";
        let symbols = parse(input);

        assert_eq!(symbols.len(), 1);
        let range = symbols[0].range;
        // Range should cover the anchor "(my-target)=" (12 chars)
        assert_eq!(range.start.line, 0);
        assert_eq!(range.start.character, 0);
        assert_eq!(range.end.line, 0);
        assert_eq!(range.end.character, 12);
    }

#[test]
fn test_directive_has_range_field() {
        let input = "```{note}\nContent\n```";
        let symbols = parse(input);

        assert_eq!(symbols.len(), 1);
        let range = symbols[0].range;
        // Directive should span from line 0 to line 2
        assert_eq!(range.start.line, 0);
        assert_eq!(range.start.character, 0);
        assert_eq!(range.end.line, 2);
    }

#[test]
fn test_anchor_range_on_non_first_line() {
        let input = "# Title\n\n(my-anchor)=\n# Section";
        let symbols = parse(input);

        let anchor = symbols
            .iter()
            .find(|s| s.kind == MystSymbolKind::Anchor)
            .expect("Should find anchor");

        // Anchor is on line 2 (0-indexed)
        assert_eq!(anchor.range.start.line, 2);
    }

#[test]
fn test_directive_with_label_option() {
        let input = r#"```{figure} image.png
:label: my-figure

Caption here
```"#;
        let symbols = parse(input);

        assert_eq!(symbols.len(), 1);
        assert_eq!(symbols[0].kind, MystSymbolKind::Directive);
        assert_eq!(symbols[0].name, "figure");
        assert_eq!(symbols[0].label, Some("my-figure".to_string()));
    }

#[test]
fn test_directive_with_name_option() {
        // :name: is an alias for :label: in MyST
        let input = r#"```{code-block} python
:name: hello-world
print("Hello")
```"#;
        let symbols = parse(input);

        assert_eq!(symbols.len(), 1);
        assert_eq!(symbols[0].label, Some("hello-world".to_string()));
    }

#[test]
fn test_directive_without_label() {
        let input = r#"```{note}
This note has no label.
```"#;
        let symbols = parse(input);

        assert_eq!(symbols.len(), 1);
        assert_eq!(symbols[0].label, None);
    }

#[test]
fn test_directive_label_takes_priority_over_name() {
        let input = r#"```{figure} image.png
:label: from-label
:name: from-name

Caption
```"#;
        let symbols = parse(input);

        assert_eq!(symbols.len(), 1);
        assert_eq!(symbols[0].label, Some("from-label".to_string()));
    }

#[test]
fn test_directive_options_with_other_options() {
        let input = r#"```{figure} image.png
:width: 80%
:label: my-figure
:align: center

Caption
```"#;
        let symbols = parse(input);

        assert_eq!(symbols.len(), 1);
        assert_eq!(symbols[0].label, Some("my-figure".to_string()));
    }

#[test]
fn test_parse_basic_directive() {
        let input = r#"
```{note}
This is the body of the note.
```
"#;
        let symbols = parse(input);
        assert_eq!(symbols.len(), 1);
        assert_eq!(symbols[0].kind, MystSymbolKind::Directive);
        assert_eq!(symbols[0].name, "note");
    }

#[test]
fn test_parse_anchor() {
        let input = "(my-target)=";
        let symbols = parse(input);
        assert_eq!(symbols.len(), 1);
        assert_eq!(symbols[0].kind, MystSymbolKind::Anchor);
        assert_eq!(symbols[0].name, "my-target");
    }

#[test]
fn test_finds_myst_directive() {
        let input = r#"
# Title

```{note}
This is a note

    "#;

        let ast = syntax_tree(input).unwrap();
        let mut symbols = Vec::new();
        scan_for_myst(&ast, input, &mut symbols);

        assert!(symbols
            .iter()
            .any(|s| s.kind == MystSymbolKind::Directive && s.name == "note"));
    }

#[test]
fn test_finds_myst_anchor() {
        let input = "Here is a text.\n\n(my-target)=\n# Heading";

        let ast = syntax_tree(input).unwrap();
        let mut symbols = Vec::new();
        scan_for_myst(&ast, input, &mut symbols);

        assert!(symbols
            .iter()
            .any(|s| s.kind == MystSymbolKind::Anchor && s.name == "my-target"));
    }

#[test]
fn test_parse_glossary_directive_extracts_terms() {
        let input = r#"```{glossary}
MyST
  Markedly Structured Text, an extended Markdown syntax.

Sphinx
  A documentation generator for Python projects.
```"#;
        let terms = parse_glossary_terms(input);

        assert_eq!(terms.len(), 2);
        assert!(terms.iter().any(|t| t.term == "MyST"));
        assert!(terms.iter().any(|t| t.term == "Sphinx"));
    }

#[test]
fn test_glossary_term_has_definition() {
        let input = r#"```{glossary}
MyST
  Markedly Structured Text, an extended Markdown syntax.
```"#;
        let terms = parse_glossary_terms(input);

        assert_eq!(terms.len(), 1);
        let term = &terms[0];
        assert_eq!(term.term, "MyST");
        assert!(term.definition.contains("Markedly Structured Text"));
    }

#[test]
fn test_glossary_term_has_range() {
        let input = r#"```{glossary}
MyST
  Definition here.
```"#;
        let terms = parse_glossary_terms(input);

        assert_eq!(terms.len(), 1);
        let term = &terms[0];
        // Term "MyST" is on line 1 (0-indexed)
        assert_eq!(term.range.start.line, 1);
    }

#[test]
fn test_glossary_multiline_definition() {
        let input = r#"```{glossary}
Term
  First line of definition.
  Second line of definition.

Another Term
  Another definition.
```"#;
        let terms = parse_glossary_terms(input);

        assert_eq!(terms.len(), 2);
        let term = terms.iter().find(|t| t.term == "Term").unwrap();
        assert!(term.definition.contains("First line"));
        assert!(term.definition.contains("Second line"));
    }

#[test]
fn test_glossary_term_with_sorted_option() {
        // Glossary can have :sorted: option which we should ignore when parsing terms
        let input = r#"```{glossary}
:sorted:

Alpha
  First term alphabetically.

Beta
  Second term.
```"#;
        let terms = parse_glossary_terms(input);

        assert_eq!(terms.len(), 2);
        assert!(terms.iter().any(|t| t.term == "Alpha"));
        assert!(terms.iter().any(|t| t.term == "Beta"));
    }

#[test]
fn test_no_glossary_terms_in_regular_directive() {
        let input = r#"```{note}
This is not a glossary.
```"#;
        let terms = parse_glossary_terms(input);

        assert!(terms.is_empty());
    }

#[test]
fn test_glossary_terms_in_document_with_multiple_directives() {
        let input = r#"# Introduction

```{note}
A note before the glossary.
```

```{glossary}
Term1
  First term.

Term2
  Second term.
```

```{warning}
A warning after.
```"#;
        let terms = parse_glossary_terms(input);

        assert_eq!(terms.len(), 2);
        assert!(terms.iter().any(|t| t.term == "Term1"));
        assert!(terms.iter().any(|t| t.term == "Term2"));
    }
