use osint_studio::entities::{Node, NodeType, RelationType, Relationship};
use osint_studio::store::Database;

fn person(label: &str) -> Node {
    Node::new(NodeType::Person, label.to_string())
}

#[test]
fn all_nodes_have_unique_ids() {
    let mut db = Database::new();
    for i in 0..10 {
        db.create_node(person(&format!("Node {}", i)));
    }
    let nodes = db.get_all_nodes();
    assert_eq!(nodes.len(), 10);
    for a in 0..nodes.len() {
        for b in (a + 1)..nodes.len() {
            assert_ne!(nodes[a].id, nodes[b].id);
        }
    }
}

#[test]
fn create_node_with_same_id_overwrites() {
    let mut db = Database::new();
    let first_version = person("Before");
    let id = first_version.id;
    db.create_node(first_version);
    let mut replacement = person("After");
    replacement.id = id;
    db.create_node(replacement);
    let nodes = db.get_all_nodes();
    assert_eq!(nodes.len(), 1);
    assert_eq!(nodes[0].label, "After");
}

#[test]
fn get_node_finds_stored_node() {
    let mut db = Database::new();
    let node = person("Alice");
    let id = db.create_node(node);
    let got = db.get_node(id).expect("node should be present");
    assert_eq!(got.id, id);
    assert_eq!(got.label, "Alice");
    assert!(db.get_node(id.wrapping_add(1)).is_none());
}

#[test]
fn cascade_removes_only_referencing_relationships() {
    let mut db = Database::new();
    let a = person("A");
    let b = person("B");
    let c = person("C");
    let (a_id, b_id, c_id) = (a.id, b.id, c.id);
    db.create_node(a);
    db.create_node(b);
    db.create_node(c);
    db.create_relationship(Relationship::new(a_id, b_id, RelationType::ConnectedTo));
    db.create_relationship(Relationship::new(b_id, a_id, RelationType::ConnectedTo));
    let survivor = Relationship::new(b_id, c_id, RelationType::ConnectedTo);
    let survivor_id = survivor.id;
    db.create_relationship(survivor);
    assert!(db.delete_node(a_id));
    let rels = db.get_relationships();
    assert_eq!(rels.len(), 1);
    assert_eq!(rels[0].id, survivor_id);
    for rel in &rels {
        assert_ne!(rel.source_id, a_id);
        assert_ne!(rel.target_id, a_id);
    }
}

#[test]
fn delete_unknown_node_reports_false_and_changes_nothing() {
    let mut db = Database::new();
    let node = person("Alice");
    let id = db.create_node(node);
    db.create_relationship(Relationship::new(id, id, RelationType::SameAs));
    assert!(!db.delete_node(id.wrapping_add(1)));
    assert_eq!(db.get_all_nodes().len(), 1);
    assert_eq!(db.get_relationships().len(), 1);
}

#[test]
fn delete_known_node_reports_true() {
    let mut db = Database::new();
    let id = db.create_node(person("Alice"));
    assert!(db.delete_node(id));
    assert!(db.get_node(id).is_none());
}

#[test]
fn search_empty_query_returns_all_nodes() {
    let mut db = Database::new();
    db.create_node(person("Alice"));
    db.create_node(person("Bob"));
    let found = db.search_nodes("");
    assert_eq!(found.len(), 2);
}

#[test]
fn search_is_case_insensitive_on_label() {
    let mut db = Database::new();
    db.create_node(person("Alice Smith"));
    db.create_node(person("Bob"));
    let lower = db.search_nodes("alice");
    assert_eq!(lower.len(), 1);
    assert_eq!(lower[0].label, "Alice Smith");
    let upper = db.search_nodes("SMITH");
    assert_eq!(upper.len(), 1);
    assert_eq!(upper[0].label, "Alice Smith");
}

#[test]
fn search_matches_description_and_tags() {
    let mut db = Database::new();
    db.create_node(
        Node::new(NodeType::Person, "X".to_string())
            .with_description("Works at Acme Corp".to_string()),
    );
    db.create_node(
        Node::new(NodeType::Person, "Y".to_string())
            .with_tags(vec!["Suspect".to_string()]),
    );
    db.create_node(person("Z"));
    assert_eq!(db.search_nodes("acme").len(), 1);
    assert_eq!(db.search_nodes("suspect").len(), 1);
    assert_eq!(db.search_nodes("nothing-here").len(), 0);
}

#[test]
fn search_matches_inner_substrings_only() {
    let mut db = Database::new();
    db.create_node(person("Alice Smith"));
    assert_eq!(db.search_nodes("mit").len(), 1);
    assert_eq!(db.search_nodes("ce sm").len(), 1);
    assert_eq!(db.search_nodes("smithy").len(), 0);
    assert_eq!(db.search_nodes("alice smithx").len(), 0);
}

#[test]
fn search_folds_case_beyond_ascii() {
    let mut db = Database::new();
    db.create_node(person("Über GmbH"));
    let found = db.search_nodes("über");
    assert_eq!(found.len(), 1);
    assert_eq!(found[0].label, "Über GmbH");
    assert_eq!(db.search_nodes("GMBH").len(), 1);
}

#[test]
fn update_node_with_unknown_id_inserts() {
    let mut db = Database::new();
    db.create_node(person("Existing"));
    let fresh = person("Fresh");
    db.update_node(fresh);
    assert_eq!(db.get_all_nodes().len(), 2);
}

#[test]
fn update_node_with_known_id_replaces() {
    let mut db = Database::new();
    let node = person("Before");
    let id = db.create_node(node);
    let mut changed = person("After");
    changed.id = id;
    db.update_node(changed);
    let nodes = db.get_all_nodes();
    assert_eq!(nodes.len(), 1);
    assert_eq!(nodes[0].label, "After");
}

#[test]
fn update_relationship_with_unknown_id_is_a_no_op() {
    let mut db = Database::new();
    let rel = Relationship::new(1, 2, RelationType::Owns);
    db.create_relationship(rel);
    let before = db.get_relationships();
    let stranger = Relationship::new(3, 4, RelationType::Controls);
    db.update_relationship(stranger);
    let after = db.get_relationships();
    assert_eq!(before.len(), after.len());
    assert_eq!(before[0].id, after[0].id);
    assert_eq!(before[0].source_id, after[0].source_id);
    assert!(matches!(after[0].relation_type, RelationType::Owns));
}

#[test]
fn update_relationship_replaces_first_match_in_place() {
    let mut db = Database::new();
    let first = Relationship::new(1, 2, RelationType::Owns);
    let second = Relationship::new(3, 4, RelationType::Controls);
    let first_id = first.id;
    db.create_relationship(first);
    db.create_relationship(second);
    let mut changed = Relationship::new(5, 6, RelationType::SameAs);
    changed.id = first_id;
    db.update_relationship(changed);
    let rels = db.get_relationships();
    assert_eq!(rels.len(), 2);
    assert_eq!(rels[0].id, first_id);
    assert_eq!(rels[0].source_id, 5);
    assert!(matches!(rels[0].relation_type, RelationType::SameAs));
    assert_eq!(rels[1].source_id, 3);
}

#[test]
fn relationships_allow_duplicates_and_keep_order() {
    let mut db = Database::new();
    let r1 = Relationship::new(1, 2, RelationType::ConnectedTo);
    let r2 = Relationship::new(1, 2, RelationType::ConnectedTo);
    let (id1, id2) = (r1.id, r2.id);
    db.create_relationship(r1);
    db.create_relationship(r2);
    let rels = db.get_relationships();
    assert_eq!(rels.len(), 2);
    assert_eq!(rels[0].id, id1);
    assert_eq!(rels[1].id, id2);
}

#[test]
fn delete_relationship_removes_first_match_only() {
    let mut db = Database::new();
    let rel = Relationship::new(1, 2, RelationType::Owns);
    let id = rel.id;
    db.create_relationship(rel);
    assert!(db.delete_relationship(id));
    assert!(!db.delete_relationship(id));
    assert_eq!(db.get_relationships().len(), 0);
}

#[test]
fn get_node_relationships_returns_both_directions() {
    let mut db = Database::new();
    let rel_in = Relationship::new(7, 1, RelationType::ParentOf);
    let rel_out = Relationship::new(1, 9, RelationType::ChildOf);
    let unrelated = Relationship::new(7, 9, RelationType::ConnectedTo);
    let (in_id, out_id) = (rel_in.id, rel_out.id);
    db.create_relationship(rel_in);
    db.create_relationship(rel_out);
    db.create_relationship(unrelated);
    let rels = db.get_node_relationships(1);
    assert_eq!(rels.len(), 2);
    assert_eq!(rels[0].id, in_id);
    assert_eq!(rels[1].id, out_id);
}

#[test]
fn clear_all_empties_both_collections() {
    let mut db = Database::new();
    let id = db.create_node(person("Alice"));
    db.create_relationship(Relationship::new(id, id, RelationType::SameAs));
    db.clear_all();
    assert!(db.get_all_nodes().is_empty());
    assert!(db.get_relationships().is_empty());
}

#[test]
fn round_trip_scenario() {
    let mut db = Database::new();
    let a = Node::new(NodeType::Person, "Alice".to_string());
    let b = Node::new(NodeType::Organization, "Acme".to_string());
    let (a_id, b_id) = (a.id, b.id);
    db.create_node(a);
    db.create_node(b);
    let rel = Relationship::new(a_id, b_id, RelationType::MemberOf).with_confidence(900);
    let rel_id = rel.id;
    db.create_relationship(rel);

    let from_a = db.get_node_relationships(a_id);
    assert_eq!(from_a.len(), 1);
    assert_eq!(from_a[0].id, rel_id);
    let from_b = db.get_node_relationships(b_id);
    assert_eq!(from_b.len(), 1);
    assert_eq!(from_b[0].id, rel_id);

    assert!(db.delete_node(a_id));
    assert!(db.get_relationships().is_empty());
    assert!(db.get_node(a_id).is_none());
    let b_back = db.get_node(b_id).expect("B must survive");
    assert_eq!(b_back.label, "Acme");
}
