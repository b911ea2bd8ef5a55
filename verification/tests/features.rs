use charip::completion::get_completions;
use charip::completion::myst_directive_completer::cursor_fits;
use charip::config::Settings;
use charip::diagnostics::{diagnostics, image_checks, path_include_cycles, ImageCheck};
use charip::gotodef::goto_definition;
use charip::lsp::DiagnosticSeverity;
use charip::references::references;
use charip::rename::rename;
use charip::symbol::{document_symbol, workspace_symbol};
use charip::vault::{DocumentChange, FileText, MDCodeBlock, MDFile, Position, Vault};

fn vault_of(files: &[(&str, &str)]) -> Vault {
    let settings = Settings::default();
    let mut md_files = Vec::new();
    let mut ropes = Vec::new();
    for (name, text) in files {
        let path = format!("/vault/{}", name);
        md_files.push(MDFile::new(&settings, text, path.clone(), None));
        ropes.push(FileText { path, text: text.to_string() });
    }
    Vault::new(md_files, ropes, "/vault".to_string())
}

#[test]
fn goto_definition_of_file_link() {
    let vault = vault_of(&[
        ("target.md", "# Target Document\n\nContent here."),
        ("source.md", "# Source\n\nSee [my link](target) for more."),
    ]);
    let locations = goto_definition(&vault, Position::new(2, 8), "/vault/source.md").unwrap();
    assert_eq!(locations.len(), 1);
    assert_eq!(locations[0].path, "/vault/target.md");
}

#[test]
fn goto_definition_of_heading_link() {
    let vault = vault_of(&[
        ("target.md", "# Introduction\n\nSome intro text.\n\n## Details\n\nMore details here."),
        ("source.md", "# Source\n\nSee [details section](target#Details) for more."),
    ]);
    let locations = goto_definition(&vault, Position::new(2, 10), "/vault/source.md").unwrap();
    assert_eq!(locations.len(), 1);
    assert_eq!(locations[0].path, "/vault/target.md");
    assert_eq!(locations[0].range.start.line, 4);
}

#[test]
fn goto_definition_of_ref_role() {
    let vault = vault_of(&[
        ("target.md", "(my-anchor)=\n# Important Section\n\nContent here."),
        ("source.md", "# Source\n\nSee {ref}`my-anchor` for the important section."),
    ]);
    let locations = goto_definition(&vault, Position::new(2, 10), "/vault/source.md").unwrap();
    assert_eq!(locations.len(), 1);
    assert_eq!(locations[0].path, "/vault/target.md");
    assert_eq!(locations[0].range.start.line, 0);
}

#[test]
fn goto_definition_on_plain_text() {
    let vault = vault_of(&[("source.md", "# Source\n\nJust some text.")]);
    assert_eq!(goto_definition(&vault, Position::new(2, 3), "/vault/source.md"), None);
}

#[test]
fn references_to_a_file_come_most_recent_first() {
    let vault = vault_of(&[
        ("target.md", "# Target Document\n\nContent here."),
        ("source1.md", "# Source 1\n\nSee [link](target) for more."),
        ("source2.md", "# Source 2\n\nAlso see [reference](target) here."),
        ("unrelated.md", "# Unrelated\n\nNo links here."),
    ]);
    let mtimes = vec![
        ("/vault/source1.md".to_string(), 10u128),
        ("/vault/source2.md".to_string(), 20u128),
    ];
    let locations = references(&vault, Position::new(2, 6), "/vault/source1.md", &mtimes).unwrap();
    assert_eq!(locations.len(), 2);
    assert_eq!(locations[0].path, "/vault/source2.md");
    assert_eq!(locations[1].path, "/vault/source1.md");
}

#[test]
fn rename_heading_edits_heading_and_links() {
    let vault = vault_of(&[
        ("target.md", "# Target\n\n## Details\n\nText."),
        ("source.md", "# Source\n\nSee [x](target#Details)."),
    ]);
    let edit = rename(&vault, "/vault/target.md", Position::new(2, 4), "Summary", &vec![]).unwrap();
    let edits: Vec<(String, String)> = edit
        .document_changes
        .iter()
        .filter_map(|c| match c {
            DocumentChange::Edit { path, new_text, .. } => Some((path.clone(), new_text.clone())),
            _ => None,
        })
        .collect();
    assert!(edits.contains(&("/vault/target.md".to_string(), "## Summary".to_string())));
    assert!(edits.iter().any(|(p, t)| p == "/vault/source.md" && t.contains("target#Summary")));
}

#[test]
fn rename_file_renames_the_file() {
    let vault = vault_of(&[
        ("oldname.md", "# Old Name\n\nContent here."),
        ("source.md", "# Source\n\nSee [link](oldname) for more."),
    ]);
    // The cursor on plain text of oldname.md selects the file itself.
    let edit = rename(&vault, "/vault/oldname.md", Position::new(2, 5), "newname", &vec![]).unwrap();
    let renames: Vec<(String, String)> = edit
        .document_changes
        .iter()
        .filter_map(|c| match c {
            DocumentChange::Rename { old_path, new_path } => Some((old_path.clone(), new_path.clone())),
            _ => None,
        })
        .collect();
    assert_eq!(renames, vec![("/vault/oldname.md".to_string(), "/vault/newname.md".to_string())]);
}

#[test]
fn broken_link_gives_a_diagnostic() {
    let vault = vault_of(&[("source.md", "# Source\n\nSee [x](missing) here.")]);
    let diags = diagnostics(&vault, &Settings::default(), "/vault/source.md", &vec![], &vec![]).unwrap();
    assert_eq!(diags.len(), 1);
    assert_eq!(diags[0].range.start.line, 2);
    assert_eq!(diags[0].severity, DiagnosticSeverity::Information);
    assert_eq!(diags[0].source, "charip");
}

#[test]
fn diagnostics_off_gives_none() {
    let vault = vault_of(&[("source.md", "# Source\n\nSee [x](missing) here.")]);
    let settings = Settings { unresolved_diagnostics: false, ..Settings::default() };
    assert_eq!(diagnostics(&vault, &settings, "/vault/source.md", &vec![], &vec![]), None);
}

#[test]
fn resolved_link_gives_no_diagnostic() {
    let vault = vault_of(&[
        ("target.md", "# Target"),
        ("source.md", "# Source\n\nSee [x](target) here."),
    ]);
    let diags = diagnostics(&vault, &Settings::default(), "/vault/source.md", &vec![], &vec![]).unwrap();
    assert!(diags.is_empty());
}

#[test]
fn missing_image_gives_a_warning() {
    let vault = vault_of(&[("doc.md", "# Doc\n\n![alt](images/pic.png)\n")]);
    let checks = image_checks(&vault, "/vault/doc.md");
    assert_eq!(checks.len(), 1);
    assert_eq!(checks[0].from_file_dir, "/vault/images/pic.png");
    assert_eq!(checks[0].from_root, "/vault/images/pic.png");
    assert!(!checks[0].found);
    let diags = diagnostics(&vault, &Settings::default(), "/vault/doc.md", &checks, &vec![]).unwrap();
    assert_eq!(diags.len(), 1);
    assert_eq!(diags[0].severity, DiagnosticSeverity::Warning);
    let found: Vec<ImageCheck> = checks.into_iter().map(|c| ImageCheck { found: true, ..c }).collect();
    let diags = diagnostics(&vault, &Settings::default(), "/vault/doc.md", &found, &vec![]).unwrap();
    assert!(diags.is_empty());
}

#[test]
fn include_cycle_is_reported_once_per_cycle() {
    let cycles = vec![
        vec!["/vault/a.md".to_string(), "/vault/b.md".to_string()],
        vec!["/vault/c.md".to_string(), "/vault/d.md".to_string()],
    ];
    let diags = path_include_cycles(&cycles, "/vault/a.md");
    assert_eq!(diags.len(), 1);
    assert_eq!(diags[0].message, "Circular include detected: a.md -> b.md");
    assert_eq!(diags[0].severity, DiagnosticSeverity::Error);
    assert!(path_include_cycles(&cycles, "/vault/e.md").is_empty());
}

#[test]
fn workspace_symbol_filters_by_query() {
    let vault = vault_of(&[
        ("alpha.md", "# Alpha Heading\n"),
        ("beta.md", "# Beta\n"),
    ]);
    let symbols = workspace_symbol(&vault, "alpha").unwrap();
    assert!(!symbols.is_empty());
    assert!(symbols.iter().all(|s| s.name.to_lowercase().contains("alpha")));
    assert!(symbols.iter().all(|s| !s.name.contains("beta")));
}

#[test]
fn document_symbol_lists_in_line_order() {
    let vault = vault_of(&[(
        "doc.md",
        "# Top\n\n(anchor-one)=\n## Second\n\n```{glossary}\nTerm\n  A definition.\n```\n",
    )]);
    let symbols = document_symbol(&vault, "/vault/doc.md").unwrap();
    let names: Vec<&str> = symbols.iter().map(|s| s.name.as_str()).collect();
    assert_eq!(names, vec!["Top", "anchor-one", "Second", "Term"]);
    assert_eq!(symbols[0].detail, Some("H1".to_string()));
    assert_eq!(symbols[1].detail, Some("anchor".to_string()));
    assert_eq!(symbols[3].detail, Some("glossary term".to_string()));
    assert!(document_symbol(&vault, "/vault/none.md").is_none());
}

#[test]
fn directive_completion_after_fence() {
    let vault = vault_of(&[("doc.md", "# Doc\n```{no")]);
    assert!(cursor_fits(&vault, "/vault/doc.md", 1, 6));
    let items = get_completions(&vault, "/vault/doc.md", 1, 6).unwrap();
    assert!(items.iter().any(|i| i.label == "note"));
    assert!(items.iter().all(|i| i.label.starts_with("no")));
}

#[test]
fn cursor_inside_a_character_does_not_fit() {
    let vault = vault_of(&[("doc.md", "é")]);
    assert!(!cursor_fits(&vault, "/vault/doc.md", 0, 1));
    assert!(cursor_fits(&vault, "/vault/doc.md", 0, 2));
    assert!(cursor_fits(&vault, "/vault/doc.md", 0, 9));
}

#[test]
fn code_blocks_are_found_and_their_tags_left_out() {
    let text = "# Doc\n\n```\n#inside [x](code)\n```\n\n#outside [y](outside)\n";
    let blocks = MDCodeBlock::new(text);
    assert_eq!(blocks.len(), 1);
    assert_eq!(blocks[0].range.0.start.line, 2);
    assert_eq!(blocks[0].range.0.end.line, 4);
    let file = MDFile::new(&Settings::default(), text, "/vault/doc.md".to_string(), None);
    let tags: Vec<&str> = file.tags.iter().map(|t| t.tag_ref.as_str()).collect();
    assert_eq!(tags, vec!["outside"]);
    // A link inside a code block is no link of the syntax tree.
    assert_eq!(file.references.len(), 1);
    assert_eq!(file.references[0].data().reference_text, "outside");
    let settings = Settings { tags_in_codeblocks: true, ..Settings::default() };
    let file = MDFile::new(&settings, text, "/vault/doc.md".to_string(), None);
    let tags: Vec<&str> = file.tags.iter().map(|t| t.tag_ref.as_str()).collect();
    assert_eq!(tags, vec!["inside", "outside"]);
}

#[test]
fn update_vault_replaces_one_file() {
    let mut vault = vault_of(&[("a.md", "# A"), ("b.md", "# B")]);
    assert!(Vault::try_update_vault(&Settings::default(), &mut vault, "/vault/a.md", "# A2\n\n## Sub", None));
    let a = vault.get_file("/vault/a.md").unwrap();
    assert_eq!(a.headings.len(), 2);
    assert_eq!(a.headings[0].heading_text, "A2");
    assert_eq!(vault.get_text("/vault/a.md").unwrap(), "# A2\n\n## Sub");
    assert_eq!(vault.get_file("/vault/b.md").unwrap().headings[0].heading_text, "B");
    assert!(Vault::try_update_vault(&Settings::default(), &mut vault, "/vault/c.md", "# C", None));
    assert!(!Vault::try_update_vault(&Settings::default(), &mut vault, "/", "# D", None));
    assert_eq!(vault.get_file("/vault/c.md").unwrap().headings[0].heading_text, "C");
    assert_eq!(vault.md_files.len(), 3);
}

#[test]
fn file_preview_is_its_first_lines() {
    let vault = vault_of(&[("doc.md", "# Title\nline one\nline two\n")]);
    let file = vault.get_file("/vault/doc.md").unwrap();
    let path = file.path.clone();
    let preview = vault.select_referenceable_preview(&charip::vault::Referenceable::File(&path, file));
    match preview {
        Some(charip::vault::Preview::Text(t)) => assert_eq!(t, "# Title\nline one\nline two\n"),
        _ => panic!("expected a text preview"),
    }
}

#[test]
fn one_line_file_has_empty_preview() {
    let vault = vault_of(&[("doc.md", "just one line")]);
    let file = vault.get_file("/vault/doc.md").unwrap();
    let path = file.path.clone();
    let preview = vault.select_referenceable_preview(&charip::vault::Referenceable::File(&path, file));
    assert!(matches!(preview, Some(charip::vault::Preview::Empty)));
}

#[test]
fn blocks_are_trimmed_non_empty_lines() {
    let vault = vault_of(&[("doc.md", "  first  \n\n second\n")]);
    let blocks = vault.select_blocks();
    let texts: Vec<&str> = blocks.iter().map(|b| b.text.as_str()).collect();
    assert_eq!(texts, vec!["first", "second"]);
    assert_eq!(blocks[0].range.0.start.line, 0);
    assert_eq!(blocks[1].range.0.start.line, 2);
    assert_eq!(blocks[0].file, "/vault/doc.md");
}

#[test]
fn test_glossary_term_preview_shows_definition() {
    let content = "```{glossary}\nMyST\n  Markedly Structured Text. A powerful Markdown variant.\n\nLSP\n  Language Server Protocol for IDE features.\n```\n";
    let vault = vault_of(&[("glossary.md", content)]);
    let terms: Vec<_> = vault
        .select_referenceable_nodes(None)
        .into_iter()
        .filter(|r| matches!(r, charip::vault::Referenceable::GlossaryTerm(..)))
        .collect();
    assert_eq!(terms.len(), 2, "Should find 2 glossary terms");
    let myst_term = terms
        .iter()
        .find(|r| match r {
            charip::vault::Referenceable::GlossaryTerm(_, term) => term.term == "MyST",
            _ => false,
        })
        .expect("Should find MyST term");
    match vault.select_referenceable_preview(myst_term) {
        Some(charip::vault::Preview::Text(text)) => {
            assert!(text.contains("**MyST**"), "Preview should contain bolded term name");
            assert!(text.contains("Markedly Structured Text"), "Preview should contain definition: got '{}'", text);
        }
        _ => panic!("Preview should be text"),
    }
}

#[test]
fn footnote_paths_compare_by_components() {
    let vault = vault_of(&[("doc.md", "Text[^1] here.\n\n[^1]: The note.\n")]);
    let file = vault.get_file("/vault/doc.md").unwrap();
    let footnote_ref = file
        .references
        .iter()
        .find(|r| matches!(r, charip::vault::Reference::Footnote(_)))
        .expect("footnote reference");
    let target = file
        .get_referenceables()
        .into_iter()
        .find(|r| matches!(r, charip::vault::Referenceable::Footnote(..)))
        .expect("footnote definition");
    assert!(footnote_ref.references("/vault", "/vault/doc.md", &target));
    assert!(footnote_ref.references("/vault", "/vault/./doc.md", &target));
    assert!(!footnote_ref.references("/vault", "/vault/other.md", &target));
}

#[test]
fn files_are_found_by_path_components() {
    let vault = vault_of(&[("a.md", "# A\n\nText [x](b).\n")]);
    assert!(vault.get_file("/vault/./a.md").is_some());
    assert!(vault.get_file("/vault//a.md").is_some());
    assert!(vault.get_text("/vault/./a.md").is_some());
    assert!(vault.get_file("/vault/b.md").is_none());
    let refs = vault.select_references(Some("/vault/./a.md"));
    assert_eq!(refs.len(), 1);
    assert_eq!(refs[0].0, "/vault/a.md");
}

#[test]
fn blocks_trim_unicode_white_space() {
    let vault = vault_of(&[("doc.md", "\u{3000}\tword\u{a0} \nx\n")]);
    let blocks = vault.select_blocks();
    let texts: Vec<&str> = blocks.iter().map(|b| b.text.as_str()).collect();
    assert_eq!(texts, vec!["word", "x"]);
}
