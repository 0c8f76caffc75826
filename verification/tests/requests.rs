use osint_studio::entities::{NodeType, RelationType, CONFIDENCE_UNIT};
use osint_studio::requests::{
    create_node, create_relationship, delete_node, delete_relationship, get_node,
    get_node_relationships, node_type_from_tag, relation_type_from_tag, update_node,
    update_relationship, CreateNodeRequest, CreateRelationshipRequest, RequestError,
    UpdateNodeRequest, UpdateRelationshipRequest,
};
use osint_studio::store::Database;

fn create_request(node_type: &str, label: &str) -> CreateNodeRequest {
    CreateNodeRequest {
        node_type: node_type.to_string(),
        label: label.to_string(),
        description: None,
        tags: Vec::new(),
    }
}

#[test]
fn tag_mapping_accepts_every_known_tag() {
    assert!(matches!(node_type_from_tag("Person"), Some(NodeType::Person)));
    assert!(matches!(node_type_from_tag("Organization"), Some(NodeType::Organization)));
    assert!(matches!(node_type_from_tag("CryptoWallet"), Some(NodeType::CryptoWallet)));
    assert!(matches!(node_type_from_tag("SocialAccount"), Some(NodeType::SocialAccount)));
    assert!(matches!(node_type_from_tag("Domain"), Some(NodeType::Domain)));
    assert!(matches!(node_type_from_tag("IpAddress"), Some(NodeType::IpAddress)));
    assert!(matches!(node_type_from_tag("Email"), Some(NodeType::Email)));
    assert!(matches!(node_type_from_tag("Phone"), Some(NodeType::Phone)));
    assert!(matches!(node_type_from_tag("Document"), Some(NodeType::Document)));
    assert!(matches!(node_type_from_tag("Event"), Some(NodeType::Event)));
    assert!(node_type_from_tag("person").is_none());
    assert!(node_type_from_tag("").is_none());

    assert!(matches!(relation_type_from_tag("Owns"), Some(RelationType::Owns)));
    assert!(matches!(relation_type_from_tag("Controls"), Some(RelationType::Controls)));
    assert!(matches!(relation_type_from_tag("TransactsWith"), Some(RelationType::TransactsWith)));
    assert!(matches!(relation_type_from_tag("MemberOf"), Some(RelationType::MemberOf)));
    assert!(matches!(relation_type_from_tag("ConnectedTo"), Some(RelationType::ConnectedTo)));
    assert!(matches!(relation_type_from_tag("SameAs"), Some(RelationType::SameAs)));
    assert!(matches!(relation_type_from_tag("RelatedTo"), Some(RelationType::RelatedTo)));
    assert!(matches!(relation_type_from_tag("ParentOf"), Some(RelationType::ParentOf)));
    assert!(matches!(relation_type_from_tag("ChildOf"), Some(RelationType::ChildOf)));
    assert!(relation_type_from_tag("owns").is_none());
}

#[test]
fn create_node_rejects_unknown_tag() {
    let mut db = Database::new();
    let result = create_node(&mut db, create_request("Wizard", "Merlin"));
    assert_eq!(result.unwrap_err(), RequestError::InvalidNodeType);
    assert!(db.get_all_nodes().is_empty());
}

#[test]
fn create_node_then_get_by_returned_text_id() {
    let mut db = Database::new();
    let mut request = create_request("Person", "Alice");
    request.description = Some("analyst".to_string());
    request.tags = vec!["lead".to_string()];
    let text_id = create_node(&mut db, request).expect("valid request");
    assert_eq!(text_id.len(), 36);
    let node = get_node(&db, &text_id)
        .expect("well-formed id")
        .expect("node stored under the returned id");
    assert_eq!(node.label, "Alice");
    assert_eq!(node.description.as_deref(), Some("analyst"));
    assert_eq!(node.tags, vec!["lead"]);
    assert_eq!(node.confidence, CONFIDENCE_UNIT);
}

#[test]
fn malformed_id_is_a_parse_error_not_a_miss() {
    let mut db = Database::new();
    assert_eq!(get_node(&db, "not-a-uuid").unwrap_err(), RequestError::InvalidId);
    assert_eq!(delete_node(&mut db, "not-a-uuid").unwrap_err(), RequestError::InvalidId);
    assert_eq!(
        get_node_relationships(&db, "///").unwrap_err(),
        RequestError::InvalidId
    );
    assert_eq!(
        delete_relationship(&mut db, "xyz").unwrap_err(),
        RequestError::InvalidId
    );
    // A well-formed but unknown id is a miss, not an error.
    let missing = "00000000-0000-0000-0000-000000000000";
    assert!(get_node(&db, missing).unwrap().is_none());
    assert_eq!(delete_node(&mut db, missing).unwrap(), false);
}

#[test]
fn update_node_request_not_found_and_success() {
    let mut db = Database::new();
    let text_id = create_node(&mut db, create_request("Person", "Before")).unwrap();
    let missing = UpdateNodeRequest {
        id: "11111111-1111-1111-1111-111111111111".to_string(),
        label: "Ghost".to_string(),
        description: None,
        tags: Vec::new(),
        confidence: 500,
    };
    assert_eq!(update_node(&mut db, missing).unwrap_err(), RequestError::NodeNotFound);
    assert_eq!(db.get_all_nodes().len(), 1);

    let change = UpdateNodeRequest {
        id: text_id.clone(),
        label: "After".to_string(),
        description: Some("changed".to_string()),
        tags: vec!["updated".to_string()],
        confidence: 2500,
    };
    update_node(&mut db, change).expect("node exists");
    let node = get_node(&db, &text_id).unwrap().unwrap();
    assert_eq!(node.label, "After");
    assert_eq!(node.description.as_deref(), Some("changed"));
    assert_eq!(node.tags, vec!["updated"]);
    // The node path never clamps confidence.
    assert_eq!(node.confidence, 2500);
    assert!(node.updated_at >= node.created_at);
}

#[test]
fn update_node_request_rejects_malformed_id() {
    let mut db = Database::new();
    let request = UpdateNodeRequest {
        id: "nope".to_string(),
        label: "X".to_string(),
        description: None,
        tags: Vec::new(),
        confidence: 0,
    };
    assert_eq!(update_node(&mut db, request).unwrap_err(), RequestError::InvalidId);
}

#[test]
fn create_relationship_request_full_flow() {
    let mut db = Database::new();
    let a = create_node(&mut db, create_request("Person", "Alice")).unwrap();
    let b = create_node(&mut db, create_request("Organization", "Acme")).unwrap();

    let bad_id = create_relationship(
        &mut db,
        CreateRelationshipRequest {
            source_id: "broken".to_string(),
            target_id: b.clone(),
            relation_type: "MemberOf".to_string(),
            description: None,
            confidence: None,
            source: None,
        },
    );
    assert_eq!(bad_id.unwrap_err(), RequestError::InvalidId);

    let bad_tag = create_relationship(
        &mut db,
        CreateRelationshipRequest {
            source_id: a.clone(),
            target_id: b.clone(),
            relation_type: "Likes".to_string(),
            description: None,
            confidence: None,
            source: None,
        },
    );
    assert_eq!(bad_tag.unwrap_err(), RequestError::InvalidRelationType);
    assert!(db.get_relationships().is_empty());

    let rel_id = create_relationship(
        &mut db,
        CreateRelationshipRequest {
            source_id: a.clone(),
            target_id: b.clone(),
            relation_type: "MemberOf".to_string(),
            description: Some("on the payroll".to_string()),
            confidence: Some(1700),
            source: Some("Filing".to_string()),
        },
    )
    .expect("valid request");
    assert_eq!(rel_id.len(), 36);
    let rels = db.get_relationships();
    assert_eq!(rels.len(), 1);
    assert!(matches!(rels[0].relation_type, RelationType::MemberOf));
    assert_eq!(rels[0].description.as_deref(), Some("on the payroll"));
    assert_eq!(rels[0].confidence, CONFIDENCE_UNIT); // clamped from 1700
    assert_eq!(rels[0].source.as_deref(), Some("Filing"));
    assert_eq!(rels[0].weight, CONFIDENCE_UNIT);

    let from_a = get_node_relationships(&db, &a).unwrap();
    assert_eq!(from_a.len(), 1);
}

#[test]
fn update_relationship_request_keeps_confidence_and_position() {
    let mut db = Database::new();
    let a = create_node(&mut db, create_request("Person", "Alice")).unwrap();
    let b = create_node(&mut db, create_request("Person", "Bob")).unwrap();
    let rel_id = create_relationship(
        &mut db,
        CreateRelationshipRequest {
            source_id: a.clone(),
            target_id: b.clone(),
            relation_type: "Owns".to_string(),
            description: None,
            confidence: Some(420),
            source: None,
        },
    )
    .unwrap();

    let not_found = update_relationship(
        &mut db,
        UpdateRelationshipRequest {
            id: "22222222-2222-2222-2222-222222222222".to_string(),
            relation_type: "Controls".to_string(),
            description: None,
            weight: 100,
            confidence: None,
        },
    );
    assert_eq!(not_found.unwrap_err(), RequestError::RelationshipNotFound);

    let bad_tag = update_relationship(
        &mut db,
        UpdateRelationshipRequest {
            id: rel_id.clone(),
            relation_type: "Hates".to_string(),
            description: None,
            weight: 100,
            confidence: None,
        },
    );
    assert_eq!(bad_tag.unwrap_err(), RequestError::InvalidRelationType);

    update_relationship(
        &mut db,
        UpdateRelationshipRequest {
            id: rel_id.clone(),
            relation_type: "Controls".to_string(),
            description: Some("takeover".to_string()),
            weight: 2500,
            confidence: Some(999),
        },
    )
    .expect("relationship exists");
    let rels = db.get_relationships();
    assert_eq!(rels.len(), 1);
    assert!(matches!(rels[0].relation_type, RelationType::Controls));
    assert_eq!(rels[0].description.as_deref(), Some("takeover"));
    assert_eq!(rels[0].weight, 2500);
    // The update path ignores the request's confidence and keeps the stored one.
    assert_eq!(rels[0].confidence, 420);
    assert!(rels[0].updated_at >= rels[0].created_at);
}

#[test]
fn delete_requests_cascade_and_report() {
    let mut db = Database::new();
    let a = create_node(&mut db, create_request("Person", "Alice")).unwrap();
    let b = create_node(&mut db, create_request("Organization", "Acme")).unwrap();
    let rel_id = create_relationship(
        &mut db,
        CreateRelationshipRequest {
            source_id: a.clone(),
            target_id: b.clone(),
            relation_type: "MemberOf".to_string(),
            description: None,
            confidence: None,
            source: None,
        },
    )
    .unwrap();

    assert_eq!(delete_relationship(&mut db, &rel_id).unwrap(), true);
    assert_eq!(delete_relationship(&mut db, &rel_id).unwrap(), false);

    assert_eq!(delete_node(&mut db, &a).unwrap(), true);
    assert!(get_node(&db, &a).unwrap().is_none());
    assert!(get_node(&db, &b).unwrap().is_some());
}

#[test]
fn error_messages_match_the_boundary_wording() {
    assert_eq!(RequestError::InvalidNodeType.message(), "Invalid node type");
    assert_eq!(
        RequestError::InvalidRelationType.message(),
        "Invalid relationship type"
    );
    assert_eq!(RequestError::InvalidId.message(), "Invalid identifier");
    assert_eq!(RequestError::NodeNotFound.message(), "Node not found");
    assert_eq!(
        RequestError::RelationshipNotFound.message(),
        "Relationship not found"
    );
}
