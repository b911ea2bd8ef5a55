use charip::vault::ast_refs::extract_references_from_ast;
use charip::vault::{MystRoleKind, Reference};

#[test]
fn test_md_link_simple() {
        let text = "[click here](other.md)";
        let refs: Vec<_> = extract_references_from_ast(text, "test");

        assert_eq!(refs.len(), 1);
        assert!(matches!(&refs[0], Reference::MDFileLink(_)));
        assert_eq!(refs[0].data().reference_text, "other");
        assert_eq!(refs[0].data().display_text, Some("click here".to_string()));
    }

#[test]
fn test_md_link_with_heading() {
        let text = "[go to section](doc.md#introduction)";
        let refs: Vec<_> = extract_references_from_ast(text, "test");

        assert_eq!(refs.len(), 1);
        match &refs[0] {
            Reference::MDHeadingLink(data, file, heading) => {
                assert_eq!(data.reference_text, "doc#introduction");
                assert_eq!(file, "doc");
                assert_eq!(heading, "introduction");
            }
            _ => panic!("Expected MDHeadingLink"),
        }
    }

#[test]
fn test_md_link_with_block() {
        let text = "[see block](notes.md#^abc123)";
        let refs: Vec<_> = extract_references_from_ast(text, "test");

        assert_eq!(refs.len(), 1);
        match &refs[0] {
            Reference::MDIndexedBlockLink(data, file, index) => {
                assert_eq!(data.reference_text, "notes#^abc123");
                assert_eq!(file, "notes");
                assert_eq!(index, "abc123");
            }
            _ => panic!("Expected MDIndexedBlockLink"),
        }
    }

#[test]
fn test_md_link_with_block_no_extension() {
        // Like path/to/link#^index1 (no .md extension)
        let text = "[link](path/to/link#^index1)";
        let refs: Vec<_> = extract_references_from_ast(text, "test");

        assert_eq!(refs.len(), 1, "Should extract 1 reference");
        match &refs[0] {
            Reference::MDIndexedBlockLink(data, file, index) => {
                assert_eq!(data.reference_text, "path/to/link#^index1");
                assert_eq!(file, "path/to/link");
                assert_eq!(index, "index1");
            }
            _ => panic!("Expected MDIndexedBlockLink, got {:?}", refs[0]),
        }
    }

#[test]
fn test_md_link_with_trailing_colon() {
        // Regression test: link followed by colon on multiline text
        // Note: 4+ spaces of indentation creates a code block in markdown!
        // The original test text was indented with 12 spaces, making it a code block.
        let text = r#"
Buggy cross [link](path/to/link#^index1):

(this causes bug)
"#;
        let refs: Vec<_> = extract_references_from_ast(text, "test");

        println!("Refs found: {:?}", refs);
        assert_eq!(refs.len(), 1, "Should extract 1 reference");
        match &refs[0] {
            Reference::MDIndexedBlockLink(data, file, index) => {
                assert_eq!(data.reference_text, "path/to/link#^index1");
                assert_eq!(file, "path/to/link");
                assert_eq!(index, "index1");
            }
            _ => panic!("Expected MDIndexedBlockLink, got {:?}", refs[0]),
        }
    }

#[test]
fn test_md_link_skip_external_http() {
        let text = "[example](https://example.com)";
        let refs: Vec<_> = extract_references_from_ast(text, "test");
        assert!(refs.is_empty(), "Should skip https URLs");
    }

#[test]
fn test_md_link_skip_external_http_plain() {
        let text = "[example](http://example.com)";
        let refs: Vec<_> = extract_references_from_ast(text, "test");
        assert!(refs.is_empty(), "Should skip http URLs");
    }

#[test]
fn test_md_link_skip_data_uri() {
        let text = "[image](data:image/png;base64,abc)";
        let refs: Vec<_> = extract_references_from_ast(text, "test");
        assert!(refs.is_empty(), "Should skip data URIs");
    }

#[test]
fn test_md_link_url_encoded() {
        let text = "[doc](my%20file.md)";
        let refs: Vec<_> = extract_references_from_ast(text, "test");

        assert_eq!(refs.len(), 1);
        assert_eq!(refs[0].data().reference_text, "my file");
    }

#[test]
fn test_md_link_relative_path() {
        let text = "[doc](./subdir/file.md)";
        let refs: Vec<_> = extract_references_from_ast(text, "test");

        assert_eq!(refs.len(), 1);
        assert_eq!(refs[0].data().reference_text, "./subdir/file");
    }

#[test]
fn test_md_link_no_extension() {
        let text = "[doc](readme)";
        let refs: Vec<_> = extract_references_from_ast(text, "test");

        assert_eq!(refs.len(), 1);
        assert_eq!(refs[0].data().reference_text, "readme");
    }

#[test]
fn test_footnote_reference() {
        let text = "Some text[^note] more text.";
        let refs: Vec<_> = extract_references_from_ast(text, "test");

        assert_eq!(refs.len(), 1);
        match &refs[0] {
            Reference::Footnote(data) => {
                assert_eq!(data.reference_text, "^note");
            }
            _ => panic!("Expected Footnote"),
        }
    }

#[test]
fn test_footnote_definition_not_extracted() {
        // Footnote definitions should NOT be extracted as references
        let text = "[^note]: This is the footnote content.";
        let refs: Vec<_> = extract_references_from_ast(text, "test");

        // Should be empty - definitions are not references
        assert!(
            refs.is_empty(),
            "Footnote definitions should not be extracted as references"
        );
    }

#[test]
fn test_multiple_footnotes() {
        let text = "First[^a] and second[^b] footnotes.";
        let refs: Vec<_> = extract_references_from_ast(text, "test");

        assert_eq!(refs.len(), 2);
        assert!(matches!(&refs[0], Reference::Footnote(_)));
        assert!(matches!(&refs[1], Reference::Footnote(_)));
    }

#[test]
fn test_link_ref_with_definition() {
        let text = "Use [example] in text.\n\n[example]: http://example.com";
        let refs: Vec<_> = extract_references_from_ast(text, "test");

        assert_eq!(refs.len(), 1);
        match &refs[0] {
            Reference::LinkRef(data) => {
                assert_eq!(data.reference_text, "example");
            }
            _ => panic!("Expected LinkRef"),
        }
    }

#[test]
fn test_link_ref_without_definition() {
        // Without a definition, [ref] is just text, not a link reference
        let text = "Use [example] in text.";
        let refs: Vec<_> = extract_references_from_ast(text, "test");

        // Should be empty - no definition means no LinkRef
        assert!(
            refs.is_empty(),
            "Link references without definitions should not be extracted"
        );
    }

#[test]
fn test_multiple_link_refs() {
        let text = "See [foo] and [bar] here.\n\n[foo]: http://foo.com\n[bar]: http://bar.com";
        let refs: Vec<_> = extract_references_from_ast(text, "test");

        assert_eq!(refs.len(), 2);
        assert!(refs.iter().all(|r| matches!(r, Reference::LinkRef(_))));
    }

#[test]
fn test_mixed_references() {
        // Note: Link definitions must be at root level, not inside footnote definitions
        let text = r#"# Document

Check [md link](other.md) and [another](doc.md#heading).

See footnote[^1] and reference [ref].

[ref]: http://example.com

[^1]: Footnote text
"#;
        let refs: Vec<_> = extract_references_from_ast(text, "test");

        // Should have: 2 md links, 1 footnote, 1 link ref = 4
        assert_eq!(refs.len(), 4);

        let md_count = refs
            .iter()
            .filter(|r| {
                matches!(
                    r,
                    Reference::MDFileLink(_) | Reference::MDHeadingLink(_, _, _)
                )
            })
            .count();
        let footnote_count = refs
            .iter()
            .filter(|r| matches!(r, Reference::Footnote(_)))
            .count();
        let linkref_count = refs
            .iter()
            .filter(|r| matches!(r, Reference::LinkRef(_)))
            .count();

        assert_eq!(md_count, 2);
        assert_eq!(footnote_count, 1);
        assert_eq!(linkref_count, 1);
    }

#[test]
fn test_range_positions() {
        let text = "Start [link](file.md) end";
        let refs: Vec<_> = extract_references_from_ast(text, "test");

        assert_eq!(refs.len(), 1);
        let range = &refs[0].data().range;

        // [link](file.md) starts at position 6 and ends at 21
        assert_eq!(range.start.line, 0);
        assert_eq!(range.start.character, 6);
        assert_eq!(range.end.line, 0);
        assert_eq!(range.end.character, 21);
    }

#[test]
fn test_multiline_range() {
        let text = "First line\n[link](file.md) on second line";
        let refs: Vec<_> = extract_references_from_ast(text, "test");

        assert_eq!(refs.len(), 1);
        let range = &refs[0].data().range;

        // [link](file.md) is on line 1 (0-indexed), starting at character 0
        assert_eq!(range.start.line, 1);
        assert_eq!(range.start.character, 0);
    }

#[test]
fn test_empty_document() {
        let refs: Vec<_> = extract_references_from_ast("", "test");
        assert!(refs.is_empty());
    }

#[test]
fn test_document_with_no_references() {
        let text = "# Just a heading\n\nSome plain text without any links.";
        let refs: Vec<_> = extract_references_from_ast(text, "test");
        assert!(refs.is_empty());
    }

#[test]
fn test_myst_ref_role_extraction() {
        let text = "See {ref}`my-section` for details.";
        let refs: Vec<_> = extract_references_from_ast(text, "test");

        assert_eq!(refs.len(), 1);
        match &refs[0] {
            Reference::MystRole(data, kind, target) => {
                assert_eq!(*kind, MystRoleKind::Ref);
                assert_eq!(target, "my-section");
                assert_eq!(data.reference_text, "my-section");
                assert!(data.display_text.is_none());
            }
            _ => panic!("Expected MystRole, got {:?}", refs[0]),
        }
    }

#[test]
fn test_myst_doc_role_extraction() {
        let text = "Read {doc}`./other-file` next.";
        let refs: Vec<_> = extract_references_from_ast(text, "test");

        assert_eq!(refs.len(), 1);
        match &refs[0] {
            Reference::MystRole(data, kind, target) => {
                assert_eq!(*kind, MystRoleKind::Doc);
                assert_eq!(target, "./other-file");
                assert_eq!(data.reference_text, "./other-file");
            }
            _ => panic!("Expected MystRole, got {:?}", refs[0]),
        }
    }

#[test]
fn test_myst_role_with_display_text() {
        let text = "See {ref}`the section <my-target>` here.";
        let refs: Vec<_> = extract_references_from_ast(text, "test");

        assert_eq!(refs.len(), 1);
        match &refs[0] {
            Reference::MystRole(data, kind, target) => {
                assert_eq!(*kind, MystRoleKind::Ref);
                assert_eq!(target, "my-target");
                assert_eq!(data.reference_text, "my-target");
                assert_eq!(data.display_text, Some("the section".to_string()));
            }
            _ => panic!("Expected MystRole, got {:?}", refs[0]),
        }
    }

#[test]
fn test_myst_term_role_extraction() {
        let text = "The {term}`dialectical materialism` is important.";
        let refs: Vec<_> = extract_references_from_ast(text, "test");

        assert_eq!(refs.len(), 1);
        match &refs[0] {
            Reference::MystRole(_, kind, target) => {
                assert_eq!(*kind, MystRoleKind::Term);
                assert_eq!(target, "dialectical materialism");
            }
            _ => panic!("Expected MystRole"),
        }
    }

#[test]
fn test_myst_multiple_roles() {
        let text = "See {ref}`section-a` and {doc}`./file-b` for more info.";
        let refs: Vec<_> = extract_references_from_ast(text, "test");

        assert_eq!(refs.len(), 2);

        let role_kinds: Vec<_> = refs
            .iter()
            .filter_map(|r| match r {
                Reference::MystRole(_, kind, _) => Some(*kind),
                _ => None,
            })
            .collect();

        assert!(role_kinds.contains(&MystRoleKind::Ref));
        assert!(role_kinds.contains(&MystRoleKind::Doc));
    }

#[test]
fn test_myst_all_role_types() {
        let text = r#"
{ref}`target1`
{numref}`Figure %s <fig-label>`
{eq}`equation1`
{doc}`/path/to/doc`
{download}`file.zip`
{term}`glossary-term`
{abbr}`MyST (Markedly Structured Text)`
"#;
        let refs: Vec<_> = extract_references_from_ast(text, "test");

        assert_eq!(refs.len(), 7);

        let kinds: Vec<_> = refs
            .iter()
            .filter_map(|r| match r {
                Reference::MystRole(_, kind, _) => Some(*kind),
                _ => None,
            })
            .collect();

        assert!(kinds.contains(&MystRoleKind::Ref));
        assert!(kinds.contains(&MystRoleKind::NumRef));
        assert!(kinds.contains(&MystRoleKind::Eq));
        assert!(kinds.contains(&MystRoleKind::Doc));
        assert!(kinds.contains(&MystRoleKind::Download));
        assert!(kinds.contains(&MystRoleKind::Term));
        assert!(kinds.contains(&MystRoleKind::Abbr));
    }

#[test]
fn test_myst_unknown_role_ignored() {
        let text = "Using {unknown}`something` role.";
        let refs: Vec<_> = extract_references_from_ast(text, "test");

        // Unknown roles should be ignored
        assert!(refs.is_empty());
    }

#[test]
fn test_myst_role_range_position() {
        let text = "Start {ref}`my-target` end";
        let refs: Vec<_> = extract_references_from_ast(text, "test");

        assert_eq!(refs.len(), 1);
        let range = &refs[0].data().range;

        // {ref}`my-target` starts at position 6 and ends at 22
        assert_eq!(range.start.line, 0);
        assert_eq!(range.start.character, 6);
        assert_eq!(range.end.line, 0);
        assert_eq!(range.end.character, 22);
    }

#[test]
fn test_myst_mixed_with_other_references() {
        let text = r#"# Document

Check [md link](other.md) and {ref}`my-section`.

See footnote[^1] too.

[^1]: Footnote text
"#;
        let refs: Vec<_> = extract_references_from_ast(text, "test");

        let md_count = refs
            .iter()
            .filter(|r| matches!(r, Reference::MDFileLink(_)))
            .count();
        let role_count = refs
            .iter()
            .filter(|r| matches!(r, Reference::MystRole(..)))
            .count();
        let footnote_count = refs
            .iter()
            .filter(|r| matches!(r, Reference::Footnote(_)))
            .count();

        assert_eq!(md_count, 1);
        assert_eq!(role_count, 1);
        assert_eq!(footnote_count, 1);
    }

#[test]
fn test_image_link_extraction() {
        let text = "![Example](./images/photo.png)";
        let refs: Vec<_> = extract_references_from_ast(text, "test.md");

        assert_eq!(refs.len(), 1);
        assert!(
            matches!(&refs[0], Reference::ImageLink(_)),
            "Expected ImageLink, got {:?}",
            refs[0]
        );
        assert_eq!(refs[0].data().reference_text, "./images/photo.png");
    }

#[test]
fn test_image_skip_external_https() {
        let text = "![Logo](https://example.com/logo.png)";
        let refs: Vec<_> = extract_references_from_ast(text, "test.md");

        assert!(refs.is_empty(), "External https images should be skipped");
    }

#[test]
fn test_image_skip_external_http() {
        let text = "![Logo](http://example.com/logo.png)";
        let refs: Vec<_> = extract_references_from_ast(text, "test.md");

        assert!(refs.is_empty(), "External http images should be skipped");
    }

#[test]
fn test_image_skip_data_uri() {
        let text = "![Inline](data:image/png;base64,ABC123)";
        let refs: Vec<_> = extract_references_from_ast(text, "test.md");

        assert!(refs.is_empty(), "Data URIs should be skipped");
    }

#[test]
fn test_image_with_title() {
        let text = r#"![Alt text](./image.png "Title")"#;
        let refs: Vec<_> = extract_references_from_ast(text, "test.md");

        assert_eq!(refs.len(), 1);
        assert!(
            matches!(&refs[0], Reference::ImageLink(_)),
            "Expected ImageLink, got {:?}",
            refs[0]
        );
    }

#[test]
fn test_image_with_alt_text() {
        let text = "![My alt text](assets/diagram.svg)";
        let refs: Vec<_> = extract_references_from_ast(text, "test.md");

        assert_eq!(refs.len(), 1);
        match &refs[0] {
            Reference::ImageLink(data) => {
                assert_eq!(data.reference_text, "assets/diagram.svg");
                assert_eq!(data.display_text, Some("My alt text".to_string()));
            }
            _ => panic!("Expected ImageLink"),
        }
    }

#[test]
fn test_multiple_images() {
        let text = "![First](a.png) and ![Second](b.jpg)";
        let refs: Vec<_> = extract_references_from_ast(text, "test.md");

        assert_eq!(refs.len(), 2);
        assert!(refs.iter().all(|r| matches!(r, Reference::ImageLink(_))));
    }

#[test]
fn test_image_range_position() {
        let text = "Start ![img](photo.png) end";
        let refs: Vec<_> = extract_references_from_ast(text, "test.md");

        assert_eq!(refs.len(), 1);
        let range = &refs[0].data().range;

        // ![img](photo.png) starts at position 6 and ends at 23
        assert_eq!(range.start.line, 0);
        assert_eq!(range.start.character, 6);
        assert_eq!(range.end.line, 0);
        assert_eq!(range.end.character, 23);
    }

#[test]
fn test_mixed_images_and_links() {
        let text = "See [link](doc.md) and ![image](photo.png)";
        let refs: Vec<_> = extract_references_from_ast(text, "test.md");

        assert_eq!(refs.len(), 2);

        let link_count = refs
            .iter()
            .filter(|r| matches!(r, Reference::MDFileLink(_)))
            .count();
        let image_count = refs
            .iter()
            .filter(|r| matches!(r, Reference::ImageLink(_)))
            .count();

        assert_eq!(link_count, 1);
        assert_eq!(image_count, 1);
    }

#[test]
fn test_substitution_extraction() {
        let text = "The {{project_name}} is ready.";
        let refs = extract_references_from_ast(text, "test.md");
        let subs: Vec<_> = refs
            .iter()
            .filter(|r| matches!(r, Reference::Substitution(_)))
            .collect();

        assert_eq!(subs.len(), 1);
        assert_eq!(subs[0].data().reference_text, "project_name");
    }

#[test]
fn test_substitution_in_code_block_ignored() {
        let text = "```\n{{not_a_sub}}\n```";
        let refs = extract_references_from_ast(text, "test.md");
        let subs: Vec<_> = refs
            .iter()
            .filter(|r| matches!(r, Reference::Substitution(_)))
            .collect();

        assert!(
            subs.is_empty(),
            "Substitutions inside code blocks should be ignored"
        );
    }

#[test]
fn test_substitution_in_fenced_code_block_ignored() {
        let text = "```python\nprint('{{template}}')\n```";
        let refs = extract_references_from_ast(text, "test.md");
        let subs: Vec<_> = refs
            .iter()
            .filter(|r| matches!(r, Reference::Substitution(_)))
            .collect();

        assert!(
            subs.is_empty(),
            "Substitutions inside fenced code blocks should be ignored"
        );
    }

#[test]
fn test_multiple_substitutions() {
        let text = "{{one}} and {{two}} and {{three}}";
        let refs = extract_references_from_ast(text, "test.md");
        let subs: Vec<_> = refs
            .iter()
            .filter(|r| matches!(r, Reference::Substitution(_)))
            .collect();

        assert_eq!(subs.len(), 3);

        let names: Vec<_> = subs
            .iter()
            .map(|s| s.data().reference_text.as_str())
            .collect();
        assert!(names.contains(&"one"));
        assert!(names.contains(&"two"));
        assert!(names.contains(&"three"));
    }

#[test]
fn test_substitution_with_underscores() {
        let text = "The {{my_long_variable_name}} value.";
        let refs = extract_references_from_ast(text, "test.md");
        let subs: Vec<_> = refs
            .iter()
            .filter(|r| matches!(r, Reference::Substitution(_)))
            .collect();

        assert_eq!(subs.len(), 1);
        assert_eq!(subs[0].data().reference_text, "my_long_variable_name");
    }

#[test]
fn test_substitution_with_numbers() {
        let text = "Version {{version_2}} is out.";
        let refs = extract_references_from_ast(text, "test.md");
        let subs: Vec<_> = refs
            .iter()
            .filter(|r| matches!(r, Reference::Substitution(_)))
            .collect();

        assert_eq!(subs.len(), 1);
        assert_eq!(subs[0].data().reference_text, "version_2");
    }

#[test]
fn test_substitution_invalid_starting_with_number() {
        // Substitution names must start with a letter or underscore
        let text = "Invalid {{123abc}} here.";
        let refs = extract_references_from_ast(text, "test.md");
        let subs: Vec<_> = refs
            .iter()
            .filter(|r| matches!(r, Reference::Substitution(_)))
            .collect();

        assert!(
            subs.is_empty(),
            "Names starting with numbers should be invalid"
        );
    }

#[test]
fn test_substitution_range_position() {
        let text = "Start {{myvar}} end";
        let refs = extract_references_from_ast(text, "test.md");
        let subs: Vec<_> = refs
            .iter()
            .filter(|r| matches!(r, Reference::Substitution(_)))
            .collect();

        assert_eq!(subs.len(), 1);
        let range = &subs[0].data().range;

        // {{myvar}} starts at position 6 and ends at 15
        assert_eq!(range.start.line, 0);
        assert_eq!(range.start.character, 6);
        assert_eq!(range.end.line, 0);
        assert_eq!(range.end.character, 15);
    }

#[test]
fn test_substitution_multiline() {
        let text = "First line\n{{var_on_line_two}} on second line";
        let refs = extract_references_from_ast(text, "test.md");
        let subs: Vec<_> = refs
            .iter()
            .filter(|r| matches!(r, Reference::Substitution(_)))
            .collect();

        assert_eq!(subs.len(), 1);
        let range = &subs[0].data().range;

        assert_eq!(range.start.line, 1);
        assert_eq!(range.start.character, 0);
    }

#[test]
fn test_substitution_in_inline_code_ignored() {
        let text = "Use `{{template}}` in your config.";
        let refs = extract_references_from_ast(text, "test.md");
        let subs: Vec<_> = refs
            .iter()
            .filter(|r| matches!(r, Reference::Substitution(_)))
            .collect();

        assert!(
            subs.is_empty(),
            "Substitutions inside inline code should be ignored"
        );
    }

#[test]
fn test_substitution_mixed_with_other_references() {
        let text = "The {{project}} version. See [link](doc.md) for more.";
        let refs = extract_references_from_ast(text, "test.md");

        let sub_count = refs
            .iter()
            .filter(|r| matches!(r, Reference::Substitution(_)))
            .count();
        let link_count = refs
            .iter()
            .filter(|r| matches!(r, Reference::MDFileLink(_)))
            .count();

        assert_eq!(sub_count, 1);
        assert_eq!(link_count, 1);
    }

#[test]
fn test_empty_substitution_ignored() {
        // Empty braces should not be extracted
        let text = "Empty {{}} should be ignored.";
        let refs = extract_references_from_ast(text, "test.md");
        let subs: Vec<_> = refs
            .iter()
            .filter(|r| matches!(r, Reference::Substitution(_)))
            .collect();

        assert!(subs.is_empty(), "Empty substitutions should be ignored");
    }

#[test]
fn test_substitution_adjacent_to_text() {
        let text = "Hello{{name}}World";
        let refs = extract_references_from_ast(text, "test.md");
        let subs: Vec<_> = refs
            .iter()
            .filter(|r| matches!(r, Reference::Substitution(_)))
            .collect();

        assert_eq!(subs.len(), 1);
        assert_eq!(subs[0].data().reference_text, "name");
    }
