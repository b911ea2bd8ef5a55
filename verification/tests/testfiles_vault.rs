use charip::config::Settings;
use charip::diagnostics::diagnostics;
use charip::vault::{FileText, MDFile, Vault};

// A small MyST documentation vault, held in memory.
fn testfiles_vault() -> Vault {
    let files: Vec<(&str, &str)> = vec![
        (
            "index.md",
            "# Documentation\n\nStart with {doc}`guides/getting-started`.\nSee the {doc}`reference/api` and the {doc}`glossary`.\n",
        ),
        (
            "guides/getting-started.md",
            "(installation-anchor)=\n# Getting Started\n\nInstall the tool.\n\n## Usage\n\nRun it.\n",
        ),
        (
            "guides/advanced.md",
            "# Advanced\n\nBack to {ref}`installation-anchor`.\n",
        ),
        (
            "reference/api.md",
            "# API\n\nFirst read {ref}`installation-anchor`.\nTerms: {term}`API`.\n",
        ),
        (
            "glossary.md",
            "# Glossary\n\n```{glossary}\nAPI\n  Application Programming Interface.\n\nMyST\n  Markedly Structured Text.\n```\n",
        ),
        (
            "broken-refs.md",
            "# Broken\n\nSee {doc}`no-such-document`.\nSee {ref}`no-such-anchor`.\nSee {term}`NoSuchTerm`.\n",
        ),
        (
            "code-examples.md",
            "# Code\n\n```markdown\n{ref}`should-not-parse`\n{doc}`fake-reference`\n{term}`NotReal`\n```\n\nA real one: {ref}`installation-anchor`.\n",
        ),
        ("changelog.md", "# Changelog\n\n- First release.\n"),
    ];
    let settings = Settings::default();
    let mut md_files = Vec::new();
    let mut ropes = Vec::new();
    for (name, text) in files {
        let path = format!("/testfiles/{}", name);
        md_files.push(MDFile::new(&settings, text, path.clone(), None));
        ropes.push(FileText { path, text: text.to_string() });
    }
    Vault::new(md_files, ropes, "/testfiles".to_string())
}

fn diags_of(vault: &Vault, name: &str) -> Option<Vec<charip::lsp::Diagnostic>> {
    let settings = Settings { unresolved_diagnostics: true, ..Settings::default() };
    diagnostics(vault, &settings, &format!("/testfiles/{}", name), &vec![], &vec![])
}

#[test]
fn test_vault_construction() {
    let vault = testfiles_vault();
    assert!(vault.md_files.len() >= 8, "Should have at least 8 markdown files, got {}", vault.md_files.len());
}

#[test]
fn test_valid_doc_references() {
    let vault = testfiles_vault();
    if let Some(diags) = diags_of(&vault, "index.md") {
        let doc_diags: Vec<_> = diags.iter().filter(|d| d.message.contains("document")).collect();
        assert_eq!(doc_diags.len(), 0, "Valid {{doc}} references should not produce diagnostics: {:?}", doc_diags);
    }
}

#[test]
fn test_broken_refs_produce_diagnostics() {
    let vault = testfiles_vault();
    let diags = diags_of(&vault, "broken-refs.md").expect("broken-refs.md should have diagnostics");
    assert!(diags.len() >= 3, "Should have at least 3 broken reference diagnostics, got {}: {:?}", diags.len(), diags);
    assert!(diags.iter().any(|d| d.message.contains("document")));
}

#[test]
fn test_code_blocks_excluded() {
    let vault = testfiles_vault();
    if let Some(diags) = diags_of(&vault, "code-examples.md") {
        let code_block_diags: Vec<_> = diags
            .iter()
            .filter(|d| {
                d.message.contains("should-not-parse")
                    || d.message.contains("fake-reference")
                    || d.message.contains("NotReal")
            })
            .collect();
        assert_eq!(code_block_diags.len(), 0, "Roles inside code blocks should not produce diagnostics: {:?}", code_block_diags);
    }
}

#[test]
fn test_glossary_terms_extracted() {
    let vault = testfiles_vault();
    let doc = vault.get_file("/testfiles/glossary.md");
    assert!(doc.is_some(), "glossary.md should be indexed");
    let doc = doc.unwrap();
    assert!(!doc.glossary_terms.is_empty());
    let term_names: Vec<&String> = doc.glossary_terms.iter().map(|t| &t.term).collect();
    assert!(term_names.iter().any(|t| t.contains("API")), "Should have API term: {:?}", term_names);
    assert!(term_names.iter().any(|t| t.contains("MyST")), "Should have MyST term: {:?}", term_names);
}

#[test]
fn test_myst_anchors_extracted() {
    let vault = testfiles_vault();
    let doc = vault.get_file("/testfiles/guides/getting-started.md");
    assert!(doc.is_some(), "getting-started.md should be indexed");
    let doc = doc.unwrap();
    assert!(doc.myst_symbols.iter().any(|s| s.name == "installation-anchor"), "{:?}", doc.myst_symbols);
}

#[test]
fn test_cross_file_ref_resolution() {
    let vault = testfiles_vault();
    if let Some(diags) = diags_of(&vault, "reference/api.md") {
        let installation_diags: Vec<_> = diags.iter().filter(|d| d.message.contains("installation-anchor")).collect();
        assert_eq!(installation_diags.len(), 0, "Cross-file {{ref}} to installation-anchor should resolve: {:?}", installation_diags);
    }
}
