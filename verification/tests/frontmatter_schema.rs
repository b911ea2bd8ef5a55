use charip::frontmatter_schema::extract_frontmatter;

#[test]
fn test_extract_frontmatter_basic() {
        let document = r#"---
title: Test
---
# Content"#;

        let (yaml, start_line) = extract_frontmatter(document).expect("Should extract frontmatter");

        assert_eq!(
            start_line, 0,
            "Frontmatter starts at line 0 (the opening ---)"
        );
        assert!(yaml.contains("title: Test"));
    }

#[test]
fn test_extract_frontmatter_no_frontmatter() {
        let document = "# Just content\n\nNo frontmatter here.";
        assert!(
            extract_frontmatter(document).is_none(),
            "Document without frontmatter should return None"
        );
    }

#[test]
fn test_extract_frontmatter_not_at_start() {
        // Frontmatter must be at the very start of the document
        let document = "\n---\ntitle: Test\n---\n# Content";
        assert!(
            extract_frontmatter(document).is_none(),
            "Frontmatter not at document start should return None"
        );
    }
