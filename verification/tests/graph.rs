use charip::myst_parser::{MystSymbol, MystSymbolKind};
use charip::vault::graph::{DocumentNode, EdgeKind};
use charip::vault::metadata::MDMetadata;
use charip::vault::{HeadingLevel, MDFile, MDHeading, MDTag, MyRange, Reference, ReferenceData};
use petgraph::graph::DiGraph;

type VaultGraph = DiGraph<DocumentNode, EdgeKind>;

#[test]
fn test_document_node_creation() {
        let node = DocumentNode {
            path: String::from("/vault/test.md"),
            references: vec![],
            headings: vec![],
            indexed_blocks: vec![],
            tags: vec![],
            footnotes: vec![],
            link_reference_definitions: vec![],
            metadata: None,
            codeblocks: vec![],
            myst_symbols: vec![],
            glossary_terms: vec![],
            substitution_defs: vec![],
        };
        assert_eq!(node.path, String::from("/vault/test.md"));
    }

#[test]
fn test_edge_kind_toctree() {
        let edge = EdgeKind::Toctree {
            caption: Some("Chapter 1".to_string()),
        };
        assert!(matches!(edge, EdgeKind::Toctree { caption: Some(_) }));
    }

#[test]
fn test_edge_kind_toctree_no_caption() {
        let edge = EdgeKind::Toctree { caption: None };
        assert!(matches!(edge, EdgeKind::Toctree { caption: None }));
    }

#[test]
fn test_edge_kind_include() {
        let edge = EdgeKind::Include;
        assert!(matches!(edge, EdgeKind::Include));
    }

#[test]
fn test_document_node_default() {
        let node = DocumentNode::default();
        assert!(node.path.is_empty());
        assert!(node.headings.is_empty());
        assert!(node.indexed_blocks.is_empty());
        assert!(node.tags.is_empty());
        assert!(node.footnotes.is_empty());
        assert!(node.link_reference_definitions.is_empty());
        assert!(node.metadata.is_none());
        assert!(node.codeblocks.is_empty());
        assert!(node.myst_symbols.is_empty());
        assert!(node.glossary_terms.is_empty());
        assert!(node.substitution_defs.is_empty());
    }

#[test]
fn test_document_node_default_with_path_override() {
        let node = DocumentNode {
            path: String::from("/custom/path.md"),
            ..Default::default()
        };
        assert_eq!(node.path, String::from("/custom/path.md"));
        assert!(node.headings.is_empty());
    }

#[test]
fn test_create_empty_graph() {
        let graph: VaultGraph = DiGraph::new();
        assert_eq!(graph.node_count(), 0);
        assert_eq!(graph.edge_count(), 0);
    }

#[test]
fn test_add_document_node() {
        let mut graph: VaultGraph = DiGraph::new();

        let node_idx = graph.add_node(DocumentNode {
            path: String::from("/vault/test.md"),
            ..Default::default()
        });

        assert_eq!(graph.node_count(), 1);
        assert_eq!(graph[node_idx].path, String::from("/vault/test.md"));
    }

#[test]
fn test_add_document_and_edge() {
        let mut graph: VaultGraph = DiGraph::new();

        let source = graph.add_node(DocumentNode {
            path: String::from("/source.md"),
            ..Default::default()
        });
        let target = graph.add_node(DocumentNode {
            path: String::from("/target.md"),
            ..Default::default()
        });

        graph.add_edge(source, target, EdgeKind::Include);

        assert_eq!(graph.node_count(), 2);
        assert_eq!(graph.edge_count(), 1);
    }

#[test]
fn test_graph_neighbors() {
        let mut graph: VaultGraph = DiGraph::new();

        let a = graph.add_node(DocumentNode {
            path: String::from("/a.md"),
            ..Default::default()
        });
        let b = graph.add_node(DocumentNode {
            path: String::from("/b.md"),
            ..Default::default()
        });
        let c = graph.add_node(DocumentNode {
            path: String::from("/c.md"),
            ..Default::default()
        });

        graph.add_edge(a, b, EdgeKind::Include);
        graph.add_edge(a, c, EdgeKind::Toctree { caption: None });

        let neighbors: Vec<_> = graph.neighbors(a).collect();
        assert_eq!(neighbors.len(), 2);
    }

#[test]
fn test_graph_incoming_edges() {
        let mut graph: VaultGraph = DiGraph::new();

        let a = graph.add_node(DocumentNode {
            path: String::from("/a.md"),
            ..Default::default()
        });
        let b = graph.add_node(DocumentNode {
            path: String::from("/b.md"),
            ..Default::default()
        });
        let c = graph.add_node(DocumentNode {
            path: String::from("/c.md"),
            ..Default::default()
        });

        // b and c both point to a
        graph.add_edge(b, a, EdgeKind::Include);
        graph.add_edge(c, a, EdgeKind::Include);

        // Check incoming edges to a (reverse direction)
        let incoming: Vec<_> = graph
            .neighbors_directed(a, petgraph::Direction::Incoming)
            .collect();
        assert_eq!(incoming.len(), 2);
    }

#[test]
fn test_graph_with_reference_edge() {

        let mut graph: VaultGraph = DiGraph::new();

        let source = graph.add_node(DocumentNode {
            path: String::from("/source.md"),
            ..Default::default()
        });
        let target = graph.add_node(DocumentNode {
            path: String::from("/target.md"),
            ..Default::default()
        });

        let reference = Reference::MDFileLink(ReferenceData {
            reference_text: "target".to_string(),
            display_text: None,
            range: Default::default(),
        });

        graph.add_edge(
            source,
            target,
            EdgeKind::Reference {
                reference,
                source_path: String::from("/source.md"),
            },
        );

        assert_eq!(graph.edge_count(), 1);

        // Verify we can inspect the edge
        let edge = graph.edge_weight(graph.find_edge(source, target).unwrap());
        assert!(matches!(edge, Some(EdgeKind::Reference { .. })));
    }

#[test]
fn test_graph_multiple_edge_types() {
        let mut graph: VaultGraph = DiGraph::new();

        let index = graph.add_node(DocumentNode {
            path: String::from("/index.md"),
            ..Default::default()
        });
        let chapter1 = graph.add_node(DocumentNode {
            path: String::from("/chapter1.md"),
            ..Default::default()
        });
        let shared = graph.add_node(DocumentNode {
            path: String::from("/_shared/common.md"),
            ..Default::default()
        });

        // Toctree edge: index -> chapter1
        graph.add_edge(
            index,
            chapter1,
            EdgeKind::Toctree {
                caption: Some("Introduction".to_string()),
            },
        );

        // Include edge: chapter1 -> shared
        graph.add_edge(chapter1, shared, EdgeKind::Include);

        assert_eq!(graph.node_count(), 3);
        assert_eq!(graph.edge_count(), 2);
    }

#[test]
fn test_document_node_from_mdfile_empty() {
        // Test conversion of an empty MDFile
        let md_file = MDFile {
            path: String::from("/vault/empty.md"),
            references: vec![],
            headings: vec![],
            indexed_blocks: vec![],
            tags: vec![],
            footnotes: vec![],
            link_reference_definitions: vec![],
            metadata: None,
            codeblocks: vec![],
            myst_symbols: vec![],
            glossary_terms: vec![],
            substitution_defs: vec![],
        };

        let node = DocumentNode::from(&md_file);

        assert_eq!(node.path, String::from("/vault/empty.md"));
        assert!(node.headings.is_empty());
        assert!(node.indexed_blocks.is_empty());
        assert!(node.tags.is_empty());
        assert!(node.footnotes.is_empty());
        assert!(node.link_reference_definitions.is_empty());
        assert!(node.metadata.is_none());
        assert!(node.codeblocks.is_empty());
        assert!(node.myst_symbols.is_empty());
        assert!(node.glossary_terms.is_empty());
        assert!(node.substitution_defs.is_empty());
    }

#[test]
fn test_document_node_from_mdfile_with_headings() {
        

        let md_file = MDFile {
            path: String::from("/vault/test.md"),
            headings: vec![
                MDHeading {
                    heading_text: "Introduction".to_string(),
                    range: MyRange::default(),
                    level: HeadingLevel(1),
                },
                MDHeading {
                    heading_text: "Details".to_string(),
                    range: MyRange::default(),
                    level: HeadingLevel(2),
                },
            ],
            ..Default::default()
        };

        let node = DocumentNode::from(&md_file);

        assert_eq!(node.path, String::from("/vault/test.md"));
        assert_eq!(node.headings.len(), 2);
        assert_eq!(node.headings[0].heading_text, "Introduction");
        assert_eq!(node.headings[0].level.0, 1);
        assert_eq!(node.headings[1].heading_text, "Details");
        assert_eq!(node.headings[1].level.0, 2);
    }

#[test]
fn test_document_node_from_mdfile_with_tags() {
        

        let md_file = MDFile {
            path: String::from("/vault/tagged.md"),
            tags: vec![
                MDTag {
                    tag_ref: "project".to_string(),
                    range: MyRange::default(),
                },
                MDTag {
                    tag_ref: "rust".to_string(),
                    range: MyRange::default(),
                },
            ],
            ..Default::default()
        };

        let node = DocumentNode::from(&md_file);

        assert_eq!(node.tags.len(), 2);
        assert_eq!(node.tags[0].tag_ref, "project");
        assert_eq!(node.tags[1].tag_ref, "rust");
    }

#[test]
fn test_document_node_from_mdfile_preserves_metadata() {
        

        let metadata = Some(MDMetadata::from_parts(vec![], vec![], None));

        let md_file = MDFile {
            path: String::from("/vault/with_meta.md"),
            metadata: metadata.clone(),
            ..Default::default()
        };

        let node = DocumentNode::from(&md_file);

        assert!(node.metadata.is_some());
        // Verify metadata content is preserved
        assert_eq!(node.metadata, metadata);
    }

#[test]
fn test_document_node_from_mdfile_references_not_copied() {
        // DocumentNode intentionally does NOT copy references
        // References are stored as edges in the graph, not as node data
        // This test documents this design decision

        let md_file = MDFile {
            path: String::from("/vault/with_refs.md"),
            references: vec![Reference::MDFileLink(ReferenceData {
                reference_text: "other.md".to_string(),
                display_text: None,
                range: Default::default(),
            })],
            ..Default::default()
        };

        let node = DocumentNode::from(&md_file);

        // Node should have the path
        assert_eq!(node.path, String::from("/vault/with_refs.md"));
        // But DocumentNode does not have a references field - that's by design
        // References become edges in the graph, not node data
    }
