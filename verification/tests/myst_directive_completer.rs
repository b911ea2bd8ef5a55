use charip::completion::myst_directive_completer::{parse_fence_pattern, MystDirective};

#[test]
fn test_backtick_fence_with_open_brace() {
            // Test: ```{
            let input = "```{";
            let result = parse_fence_pattern(input, input.len());
            assert!(
                result.is_some(),
                "Should match backtick fence with open brace"
            );
            let (fence_char, fence_count, partial) = result.unwrap();
            assert_eq!(fence_char, '`');
            assert_eq!(fence_count, 3);
            assert_eq!(partial, "");
        }

#[test]
fn test_backtick_fence_with_partial_directive() {
            // Test: ```{no
            let input = "```{no";
            let result = parse_fence_pattern(input, input.len());
            assert!(
                result.is_some(),
                "Should match backtick fence with partial directive"
            );
            let (fence_char, fence_count, partial) = result.unwrap();
            assert_eq!(fence_char, '`');
            assert_eq!(fence_count, 3);
            assert_eq!(partial, "no");
        }

#[test]
fn test_colon_fence_with_open_brace() {
            // Test: :::{
            let input = ":::{";
            let result = parse_fence_pattern(input, input.len());
            assert!(result.is_some(), "Should match colon fence with open brace");
            let (fence_char, fence_count, partial) = result.unwrap();
            assert_eq!(fence_char, ':');
            assert_eq!(fence_count, 3);
            assert_eq!(partial, "");
        }

#[test]
fn test_colon_fence_with_partial_directive() {
            // Test: :::{warn
            let input = ":::{warn";
            let result = parse_fence_pattern(input, input.len());
            assert!(
                result.is_some(),
                "Should match colon fence with partial directive"
            );
            let (fence_char, fence_count, partial) = result.unwrap();
            assert_eq!(fence_char, ':');
            assert_eq!(fence_count, 3);
            assert_eq!(partial, "warn");
        }

#[test]
fn test_longer_backtick_fence() {
            // Test: ````{tip
            let input = "````{tip";
            let result = parse_fence_pattern(input, input.len());
            assert!(result.is_some(), "Should match longer backtick fence");
            let (fence_char, fence_count, partial) = result.unwrap();
            assert_eq!(fence_char, '`');
            assert_eq!(fence_count, 4);
            assert_eq!(partial, "tip");
        }

#[test]
fn test_longer_colon_fence() {
            // Test: ::::{note
            let input = "::::{note";
            let result = parse_fence_pattern(input, input.len());
            assert!(result.is_some(), "Should match longer colon fence");
            let (fence_char, fence_count, partial) = result.unwrap();
            assert_eq!(fence_char, ':');
            assert_eq!(fence_count, 4);
            assert_eq!(partial, "note");
        }

#[test]
fn test_fence_with_leading_whitespace() {
            // Test:    ```{code
            let input = "   ```{code";
            let result = parse_fence_pattern(input, input.len());
            assert!(
                result.is_some(),
                "Should match fence with leading whitespace"
            );
            let (fence_char, fence_count, partial) = result.unwrap();
            assert_eq!(fence_char, '`');
            assert_eq!(fence_count, 3);
            assert_eq!(partial, "code");
        }

#[test]
fn test_directive_with_hyphen() {
            // Test: ```{code-block
            let input = "```{code-block";
            let result = parse_fence_pattern(input, input.len());
            assert!(result.is_some(), "Should match directive name with hyphen");
            let (_, _, partial) = result.unwrap();
            assert_eq!(partial, "code-block");
        }

#[test]
fn test_directive_with_underscore() {
            // Test: ```{list_table
            let input = "```{list_table";
            let result = parse_fence_pattern(input, input.len());
            assert!(
                result.is_some(),
                "Should match directive name with underscore"
            );
            let (_, _, partial) = result.unwrap();
            assert_eq!(partial, "list_table");
        }

#[test]
fn myst_directive_completer_test_reject_plain_text() {
            let input = "This is plain text";
            let result = parse_fence_pattern(input, input.len());
            assert!(result.is_none(), "Should not match plain text");
        }

#[test]
fn test_reject_fence_without_brace() {
            // Test: ``` (no opening brace)
            let input = "```";
            let result = parse_fence_pattern(input, input.len());
            assert!(
                result.is_none(),
                "Should not match fence without opening brace"
            );
        }

#[test]
fn test_reject_short_fence() {
            // Test: ``{ (only 2 backticks)
            let input = "``{";
            let result = parse_fence_pattern(input, input.len());
            assert!(
                result.is_none(),
                "Should not match fence with only 2 characters"
            );
        }

#[test]
fn test_reject_closed_directive() {
            // Test: ```{note} (already closed)
            let input = "```{note}";
            let result = parse_fence_pattern(input, input.len());
            assert!(
                result.is_none(),
                "Should not match already closed directive"
            );
        }

#[test]
fn test_reject_directive_with_content_after() {
            // Test: ```{note} content
            let input = "```{note} content";
            let result = parse_fence_pattern(input, input.len());
            assert!(
                result.is_none(),
                "Should not match directive with content after"
            );
        }

#[test]
fn test_reject_inline_code() {
            // Test: `code`
            let input = "`code`";
            let result = parse_fence_pattern(input, input.len());
            assert!(result.is_none(), "Should not match inline code");
        }

#[test]
fn myst_directive_completer_test_reject_markdown_link() {
            // Test: [link](url)
            let input = "[link](url)";
            let result = parse_fence_pattern(input, input.len());
            assert!(result.is_none(), "Should not match markdown link");
        }

#[test]
fn test_all_directives_have_names() {
            for directive in MystDirective::all() {
                assert!(!directive.name().is_empty(), "Directive should have a name");
            }
        }

#[test]
fn test_all_directives_have_descriptions() {
            for directive in MystDirective::all() {
                assert!(
                    !directive.description().is_empty(),
                    "Directive {:?} should have a description",
                    directive
                );
            }
        }

#[test]
fn test_admonition_directives_present() {
            let directives = MystDirective::all();
            let names: Vec<&str> = directives.iter().map(|d| d.name()).collect();

            // Check all admonition types are present
            assert!(names.contains(&"note"), "Should have note directive");
            assert!(
                names.contains(&"important"),
                "Should have important directive"
            );
            assert!(names.contains(&"hint"), "Should have hint directive");
            assert!(names.contains(&"tip"), "Should have tip directive");
            assert!(names.contains(&"seealso"), "Should have seealso directive");
            assert!(
                names.contains(&"attention"),
                "Should have attention directive"
            );
            assert!(names.contains(&"caution"), "Should have caution directive");
            assert!(names.contains(&"warning"), "Should have warning directive");
            assert!(names.contains(&"danger"), "Should have danger directive");
            assert!(names.contains(&"error"), "Should have error directive");
            assert!(
                names.contains(&"admonition"),
                "Should have admonition directive"
            );
        }

#[test]
fn test_code_directives_present() {
            let directives = MystDirective::all();
            let names: Vec<&str> = directives.iter().map(|d| d.name()).collect();

            assert!(
                names.contains(&"code-block"),
                "Should have code-block directive"
            );
            assert!(
                names.contains(&"literalinclude"),
                "Should have literalinclude directive"
            );
        }

#[test]
fn test_structural_directives_present() {
            let directives = MystDirective::all();
            let names: Vec<&str> = directives.iter().map(|d| d.name()).collect();

            assert!(names.contains(&"toctree"), "Should have toctree directive");
            assert!(names.contains(&"include"), "Should have include directive");
        }

#[test]
fn test_directive_count() {
            // We expect exactly 22 directives
            assert_eq!(
                MystDirective::all().len(),
                22,
                "Should have exactly 22 directives"
            );
        }

#[test]
fn test_simple_admonition_snippet() {
            let snippet = MystDirective::Note.snippet('`', 3);
            assert!(
                snippet.starts_with("```{note}"),
                "Snippet should start with fence and directive"
            );
            assert!(
                snippet.ends_with("```"),
                "Snippet should end with closing fence"
            );
            assert!(
                snippet.contains("${1:Content}"),
                "Snippet should have content placeholder"
            );
        }

#[test]
fn test_admonition_with_title_snippet() {
            let snippet = MystDirective::Admonition.snippet('`', 3);
            assert!(
                snippet.contains("${1:Title}"),
                "Admonition snippet should have title placeholder"
            );
            assert!(
                snippet.contains("${2:Content}"),
                "Admonition snippet should have content placeholder"
            );
        }

#[test]
fn test_code_block_snippet() {
            let snippet = MystDirective::CodeBlock.snippet('`', 3);
            assert!(
                snippet.contains("```{code-block}"),
                "Code block snippet should have directive"
            );
            assert!(
                snippet.contains("${1:python}"),
                "Code block snippet should have language placeholder"
            );
        }

#[test]
fn test_colon_fence_snippet() {
            let snippet = MystDirective::Note.snippet(':', 3);
            assert!(
                snippet.starts_with(":::{note}"),
                "Colon fence snippet should start with :::"
            );
            assert!(
                snippet.ends_with(":::"),
                "Colon fence snippet should end with :::"
            );
        }

#[test]
fn test_longer_fence_snippet() {
            let snippet = MystDirective::Warning.snippet('`', 4);
            assert!(
                snippet.starts_with("````{warning}"),
                "Longer fence snippet should have 4 backticks"
            );
            assert!(
                snippet.ends_with("````"),
                "Longer fence snippet should end with 4 backticks"
            );
        }

#[test]
fn test_figure_snippet_has_options() {
            let snippet = MystDirective::Figure.snippet('`', 3);
            assert!(
                snippet.contains(":alt:"),
                "Figure snippet should have alt option"
            );
        }
