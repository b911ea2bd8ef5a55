use charip::symbol::{construct_tree, HeadingNode};
use charip::vault::{HeadingLevel, MDHeading};

#[test]
fn test_simple_tree() {
    let headings = vec![
        MDHeading {
            level: HeadingLevel(1),
            heading_text: "First".to_string(),
            range: Default::default(),
        },
        MDHeading {
            level: HeadingLevel(2),
            heading_text: "Second".to_string(),
            range: Default::default(),
        },
        MDHeading {
            level: HeadingLevel(3),
            heading_text: "Third".to_string(),
            range: Default::default(),
        },
        MDHeading {
            level: HeadingLevel(2),
            heading_text: "Second".to_string(),
            range: Default::default(),
        },
        MDHeading {
            level: HeadingLevel(1),
            heading_text: "First".to_string(),
            range: Default::default(),
        },
        MDHeading {
            level: HeadingLevel(1),
            heading_text: "First".to_string(),
            range: Default::default(),
        },
    ];

    let tree = construct_tree(&headings);

    let expected = vec![
        HeadingNode {
            heading: MDHeading {
                level: HeadingLevel(1),
                heading_text: "First".to_string(),
                range: Default::default(),
            },
            children: Some(vec![
                HeadingNode {
                    heading: MDHeading {
                        level: HeadingLevel(2),
                        heading_text: "Second".to_string(),
                        range: Default::default(),
                    },
                    children: Some(vec![HeadingNode {
                        heading: MDHeading {
                            level: HeadingLevel(3),
                            heading_text: "Third".to_string(),
                            range: Default::default(),
                        },
                        children: None,
                    }]),
                },
                HeadingNode {
                    heading: MDHeading {
                        level: HeadingLevel(2),
                        heading_text: "Second".to_string(),
                        range: Default::default(),
                    },
                    children: None,
                },
            ]),
        },
        HeadingNode {
            heading: MDHeading {
                level: HeadingLevel(1),
                heading_text: "First".to_string(),
                range: Default::default(),
            },
            children: None,
        },
        HeadingNode {
            heading: MDHeading {
                level: HeadingLevel(1),
                heading_text: "First".to_string(),
                range: Default::default(),
            },
            children: None,
        },
    ];

    assert_eq!(tree, Some(expected))
}

#[test]
fn test_simple_tree_different() {
    let headings = vec![
        MDHeading {
            level: HeadingLevel(1),
            heading_text: "First".to_string(),
            range: Default::default(),
        },
        MDHeading {
            level: HeadingLevel(2),
            heading_text: "Second".to_string(),
            range: Default::default(),
        },
        MDHeading {
            level: HeadingLevel(3),
            heading_text: "Third".to_string(),
            range: Default::default(),
        },
        MDHeading {
            level: HeadingLevel(1),
            heading_text: "First".to_string(),
            range: Default::default(),
        },
        MDHeading {
            level: HeadingLevel(1),
            heading_text: "First".to_string(),
            range: Default::default(),
        },
    ];

    let tree = construct_tree(&headings);

    let expected = vec![
        HeadingNode {
            heading: MDHeading {
                level: HeadingLevel(1),
                heading_text: "First".to_string(),
                range: Default::default(),
            },
            children: Some(vec![HeadingNode {
                heading: MDHeading {
                    level: HeadingLevel(2),
                    heading_text: "Second".to_string(),
                    range: Default::default(),
                },
                children: Some(vec![HeadingNode {
                    heading: MDHeading {
                        level: HeadingLevel(3),
                        heading_text: "Third".to_string(),
                        range: Default::default(),
                    },
                    children: None,
                }]),
            }]),
        },
        HeadingNode {
            heading: MDHeading {
                level: HeadingLevel(1),
                heading_text: "First".to_string(),
                range: Default::default(),
            },
            children: None,
        },
        HeadingNode {
            heading: MDHeading {
                level: HeadingLevel(1),
                heading_text: "First".to_string(),
                range: Default::default(),
            },
            children: None,
        },
    ];

    assert_eq!(tree, Some(expected))
}
