use charip::completion::role_name_completer::{parse_role_name_pattern, MystRole};

#[test]
fn test_matches_opening_brace() {
            // Test: {
            let input = "{";
            let result = parse_role_name_pattern(input, input.len());
            assert!(result.is_some(), "Should match opening brace");
            assert_eq!(result.unwrap(), "", "Partial should be empty");
        }

#[test]
fn test_matches_partial_role_name_do() {
            // Test: {do -> should suggest doc, download
            let input = "{do";
            let result = parse_role_name_pattern(input, input.len());
            assert!(result.is_some(), "Should match partial role name");
            assert_eq!(result.unwrap(), "do", "Partial should be 'do'");
        }

#[test]
fn test_matches_partial_role_name_ref() {
            // Test: {re -> should suggest ref
            let input = "{re";
            let result = parse_role_name_pattern(input, input.len());
            assert!(result.is_some(), "Should match partial role name");
            assert_eq!(result.unwrap(), "re", "Partial should be 're'");
        }

#[test]
fn test_matches_in_sentence() {
            // Test: See {
            let input = "See {";
            let result = parse_role_name_pattern(input, input.len());
            assert!(result.is_some(), "Should match {{ in sentence");
            assert_eq!(result.unwrap(), "");
        }

#[test]
fn test_matches_after_text_with_partial() {
            // Test: See {do
            let input = "See {do";
            let result = parse_role_name_pattern(input, input.len());
            assert!(result.is_some(), "Should match partial role after text");
            assert_eq!(result.unwrap(), "do");
        }

#[test]
fn test_does_not_match_closed_role() {
            // Test: {doc} - already closed, should not trigger
            let input = "{doc}";
            let result = parse_role_name_pattern(input, input.len());
            assert!(
                result.is_none(),
                "Should not match closed role (ends with }})"
            );
        }

#[test]
fn test_does_not_match_complete_role_with_backtick() {
            // Test: {doc}` - role is complete, MystRoleCompleter handles this
            let input = "{doc}`";
            let result = parse_role_name_pattern(input, input.len());
            assert!(
                result.is_none(),
                "Should not match complete role with backtick"
            );
        }

#[test]
fn test_does_not_match_directive_context_backticks() {
            // Test: ```{note - this is a directive, not a role
            let input = "```{note";
            let result = parse_role_name_pattern(input, input.len());
            assert!(result.is_none(), "Should not match directive context");
        }

#[test]
fn test_does_not_match_directive_context_colons() {
            // Test: :::{note - this is a directive, not a role
            let input = ":::{note";
            let result = parse_role_name_pattern(input, input.len());
            assert!(result.is_none(), "Should not match colon directive context");
        }

#[test]
fn test_does_not_match_longer_fence_directive() {
            // Test: ````{tip
            let input = "````{tip";
            let result = parse_role_name_pattern(input, input.len());
            assert!(
                result.is_none(),
                "Should not match longer fence directive context"
            );
        }

#[test]
fn test_does_not_match_plain_text() {
            let input = "This is plain text";
            let result = parse_role_name_pattern(input, input.len());
            assert!(result.is_none(), "Should not match plain text");
        }

#[test]
fn test_completion_inserts_snippet_format() {
            // The snippet should be {role}`$1` format for cursor placement
            let snippet = MystRole::Doc.snippet();
            assert!(
                snippet.contains("{doc}"),
                "Snippet should contain role syntax"
            );
            assert!(
                snippet.contains("$1"),
                "Snippet should have cursor position"
            );
            assert!(
                snippet.contains("\\`"),
                "Snippet should have escaped backticks"
            );
        }

#[test]
fn test_all_role_types_suggested() {
            let roles = MystRole::all();
            let names: Vec<&str> = roles.iter().map(|r| r.name()).collect();

            assert!(names.contains(&"ref"), "Should suggest ref");
            assert!(names.contains(&"numref"), "Should suggest numref");
            assert!(names.contains(&"doc"), "Should suggest doc");
            assert!(names.contains(&"download"), "Should suggest download");
            assert!(names.contains(&"term"), "Should suggest term");
            assert!(names.contains(&"eq"), "Should suggest eq");
        }

#[test]
fn test_role_count() {
            assert_eq!(MystRole::all().len(), 6, "Should have exactly 6 roles");
        }

#[test]
fn test_all_roles_have_descriptions() {
            for role in MystRole::all() {
                assert!(
                    !role.description().is_empty(),
                    "Role {:?} should have a description",
                    role
                );
            }
        }

#[test]
fn test_snippet_format_ref() {
            let snippet = MystRole::Ref.snippet();
            assert_eq!(
                snippet, "{ref}\\`$1\\`",
                "Ref snippet should have correct format"
            );
        }

#[test]
fn test_snippet_format_numref() {
            let snippet = MystRole::NumRef.snippet();
            assert_eq!(
                snippet, "{numref}\\`$1\\`",
                "NumRef snippet should have correct format"
            );
        }

#[test]
fn test_snippet_format_doc() {
            let snippet = MystRole::Doc.snippet();
            assert_eq!(
                snippet, "{doc}\\`$1\\`",
                "Doc snippet should have correct format"
            );
        }

#[test]
fn test_filter_with_do_prefix() {
            let partial = "do";
            let filtered: Vec<_> = MystRole::all()
                .into_iter()
                .filter(|r| r.name().starts_with(partial))
                .collect();

            assert_eq!(filtered.len(), 2, "Should have 2 roles starting with 'do'");
            let names: Vec<_> = filtered.iter().map(|r| r.name()).collect();
            assert!(names.contains(&"doc"));
            assert!(names.contains(&"download"));
        }

#[test]
fn test_filter_with_re_prefix() {
            let partial = "re";
            let filtered: Vec<_> = MystRole::all()
                .into_iter()
                .filter(|r| r.name().starts_with(partial))
                .collect();

            assert_eq!(filtered.len(), 1, "Should have 1 role starting with 're'");
            assert_eq!(filtered[0].name(), "ref");
        }

#[test]
fn test_filter_with_no_match() {
            let partial = "xyz";
            let filtered: Vec<_> = MystRole::all()
                .into_iter()
                .filter(|r| r.name().starts_with(partial))
                .collect();

            assert_eq!(filtered.len(), 0, "Should have no matches for 'xyz'");
        }

#[test]
fn test_filter_empty_returns_all() {
            let partial = "";
            let filtered: Vec<_> = MystRole::all()
                .into_iter()
                .filter(|r| partial.is_empty() || r.name().starts_with(partial))
                .collect();

            assert_eq!(filtered.len(), 6, "Empty filter should return all roles");
        }
