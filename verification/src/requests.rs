//! The boundary layer: maps textual identifiers and type tags onto the
//! entity model, rejecting malformed input with a distinct error, and
//! applies create and update requests to the store.
//!
//! A parse error (malformed identifier, unrecognized type tag) is always
//! distinct from a "not found" outcome, and the store itself is only ever
//! handed well-formed values.

use vstd::prelude::*;

use crate::entities::{
    text_view, texts_view, Node, NodeType, NodeView, RelationType, Relationship, RelationshipView,
    spec_clamp_unit, CONFIDENCE_UNIT,
};
use crate::store::{has_node_id, has_rel_id, node_index, upsert_node, Database};
use crate::trusted::{id_text, id_text_of, now_micros, parse_id, parsed_id};

verus! {

/// Why a request was rejected.
#[derive(Clone, Copy, Debug, PartialEq, Eq, Structural)]
pub enum RequestError {
    /// The node type tag is not one of the known tags.
    InvalidNodeType,
    /// The relationship type tag is not one of the known tags.
    InvalidRelationType,
    /// An identifier is not well-formed UUID text.
    InvalidId,
    /// No node has the given identifier.
    NodeNotFound,
    /// No relationship has the given identifier.
    RelationshipNotFound,
}

/// The user-facing text of each error.
pub open spec fn spec_error_message(e: RequestError) -> Seq<char> {
    match e {
        RequestError::InvalidNodeType => "Invalid node type"@,
        RequestError::InvalidRelationType => "Invalid relationship type"@,
        RequestError::InvalidId => "Invalid identifier"@,
        RequestError::NodeNotFound => "Node not found"@,
        RequestError::RelationshipNotFound => "Relationship not found"@,
    }
}

impl RequestError {
    /// The user-facing text of this error.
    pub fn message(&self) -> (r: String)
        ensures
            r@ == spec_error_message(*self),
    {
        match self {
            RequestError::InvalidNodeType => "Invalid node type".to_owned(),
            RequestError::InvalidRelationType => "Invalid relationship type".to_owned(),
            RequestError::InvalidId => "Invalid identifier".to_owned(),
            RequestError::NodeNotFound => "Node not found".to_owned(),
            RequestError::RelationshipNotFound => "Relationship not found".to_owned(),
        }
    }
}

/// The node type named by a tag, or `None` for an unrecognized tag.
pub open spec fn spec_node_type_from_tag(s: Seq<char>) -> Option<NodeType> {
    if s == "Person"@ {
        Some(NodeType::Person)
    } else if s == "Organization"@ {
        Some(NodeType::Organization)
    } else if s == "CryptoWallet"@ {
        Some(NodeType::CryptoWallet)
    } else if s == "SocialAccount"@ {
        Some(NodeType::SocialAccount)
    } else if s == "Domain"@ {
        Some(NodeType::Domain)
    } else if s == "IpAddress"@ {
        Some(NodeType::IpAddress)
    } else if s == "Email"@ {
        Some(NodeType::Email)
    } else if s == "Phone"@ {
        Some(NodeType::Phone)
    } else if s == "Document"@ {
        Some(NodeType::Document)
    } else if s == "Event"@ {
        Some(NodeType::Event)
    } else {
        None
    }
}

/// The relationship type named by a tag, or `None` for an unrecognized tag.
pub open spec fn spec_relation_type_from_tag(s: Seq<char>) -> Option<RelationType> {
    if s == "Owns"@ {
        Some(RelationType::Owns)
    } else if s == "Controls"@ {
        Some(RelationType::Controls)
    } else if s == "TransactsWith"@ {
        Some(RelationType::TransactsWith)
    } else if s == "MemberOf"@ {
        Some(RelationType::MemberOf)
    } else if s == "ConnectedTo"@ {
        Some(RelationType::ConnectedTo)
    } else if s == "SameAs"@ {
        Some(RelationType::SameAs)
    } else if s == "RelatedTo"@ {
        Some(RelationType::RelatedTo)
    } else if s == "ParentOf"@ {
        Some(RelationType::ParentOf)
    } else if s == "ChildOf"@ {
        Some(RelationType::ChildOf)
    } else {
        None
    }
}

/// Are the two texts the same sequence of characters?
fn str_eq(a: &str, b: &str) -> (r: bool)
    ensures
        r == (a@ == b@),
{
    let a_owned = a.to_owned();
    let b_owned = b.to_owned();
    a_owned == b_owned
}

/// Maps a node type tag to its variant; an unrecognized tag is rejected.
pub fn node_type_from_tag(tag: &str) -> (r: Option<NodeType>)
    ensures
        r == spec_node_type_from_tag(tag@),
{
    if str_eq(tag, "Person") {
        Some(NodeType::Person)
    } else if str_eq(tag, "Organization") {
        Some(NodeType::Organization)
    } else if str_eq(tag, "CryptoWallet") {
        Some(NodeType::CryptoWallet)
    } else if str_eq(tag, "SocialAccount") {
        Some(NodeType::SocialAccount)
    } else if str_eq(tag, "Domain") {
        Some(NodeType::Domain)
    } else if str_eq(tag, "IpAddress") {
        Some(NodeType::IpAddress)
    } else if str_eq(tag, "Email") {
        Some(NodeType::Email)
    } else if str_eq(tag, "Phone") {
        Some(NodeType::Phone)
    } else if str_eq(tag, "Document") {
        Some(NodeType::Document)
    } else if str_eq(tag, "Event") {
        Some(NodeType::Event)
    } else {
        None
    }
}

/// Maps a relationship type tag to its variant; an unrecognized tag is
/// rejected.
pub fn relation_type_from_tag(tag: &str) -> (r: Option<RelationType>)
    ensures
        r == spec_relation_type_from_tag(tag@),
{
    if str_eq(tag, "Owns") {
        Some(RelationType::Owns)
    } else if str_eq(tag, "Controls") {
        Some(RelationType::Controls)
    } else if str_eq(tag, "TransactsWith") {
        Some(RelationType::TransactsWith)
    } else if str_eq(tag, "MemberOf") {
        Some(RelationType::MemberOf)
    } else if str_eq(tag, "ConnectedTo") {
        Some(RelationType::ConnectedTo)
    } else if str_eq(tag, "SameAs") {
        Some(RelationType::SameAs)
    } else if str_eq(tag, "RelatedTo") {
        Some(RelationType::RelatedTo)
    } else if str_eq(tag, "ParentOf") {
        Some(RelationType::ParentOf)
    } else if str_eq(tag, "ChildOf") {
        Some(RelationType::ChildOf)
    } else {
        None
    }
}

/// A request to create a node.
pub struct CreateNodeRequest {
    pub node_type: String,
    pub label: String,
    pub description: Option<String>,
    pub tags: Vec<String>,
}

/// A request to update a node's mutable fields.
pub struct UpdateNodeRequest {
    pub id: String,
    pub label: String,
    pub description: Option<String>,
    pub tags: Vec<String>,
    pub confidence: i64,
}

/// A request to create a relationship.
pub struct CreateRelationshipRequest {
    pub source_id: String,
    pub target_id: String,
    pub relation_type: String,
    pub description: Option<String>,
    pub confidence: Option<i64>,
    pub source: Option<String>,
}

/// A request to update a relationship's mutable fields.
pub struct UpdateRelationshipRequest {
    pub id: String,
    pub relation_type: String,
    pub description: Option<String>,
    pub weight: i64,
    pub confidence: Option<i64>,
}

/// Creates a node from a request: the tag is mapped to its variant, the
/// optional fields are applied, the node is stored, and its identifier is
/// returned in text form. An unrecognized tag is rejected and changes
/// nothing.
pub fn create_node(db: &mut Database, request: CreateNodeRequest) -> (r: Result<
    String,
    RequestError,
>)
    ensures
        r is Err <==> spec_node_type_from_tag(request.node_type@) is None,
        r is Err ==> r == Err::<String, RequestError>(RequestError::InvalidNodeType) && final(
            db).node_seq() == old(db).node_seq(),
        r matches Ok(text) ==> exists|n: NodeView|
            {
                &&& n.node_type == spec_node_type_from_tag(request.node_type@).unwrap()
                &&& n.label == request.label@
                &&& n.description == text_view(request.description)
                &&& n.tags == texts_view(request.tags@)
                &&& n.source is None
                &&& n.confidence == CONFIDENCE_UNIT
                &&& n.created_at == n.updated_at
                &&& #[trigger] id_text_of(n.id) == text@
                &&& parsed_id(text@) == Some(n.id)
                &&& final(db).node_seq() == upsert_node(old(db).node_seq(), n)
            },
        final(db).rel_seq() == old(db).rel_seq(),
{
    let node_type = match node_type_from_tag(request.node_type.as_str()) {
        Some(t) => t,
        None => {
            return Err(RequestError::InvalidNodeType);
        },
    };
    let ghost tags_ghost = request.tags@;
    let mut node = Node::new(node_type, request.label);
    match request.description {
        Some(desc) => {
            node = node.with_description(desc);
        },
        None => {},
    }
    if !request.tags.is_empty() {
        node = node.with_tags(request.tags);
    }
    proof {
        if tags_ghost.len() == 0 {
            assert(node@.tags =~= texts_view(tags_ghost));
        }
    }
    let ghost nv = node@;
    let id = db.create_node(node);
    let text = id_text(id);
    proof {
        assert(nv.tags =~= texts_view(request.tags@));
    }
    Ok(text)
}

/// Applies an update request to the node with the given identifier: the
/// label, description, tags and confidence are replaced (the confidence is
/// not clamped here), and the update timestamp is refreshed. Malformed
/// identifier text and an unknown identifier are rejected, distinctly, and
/// change nothing.
pub fn update_node(db: &mut Database, request: UpdateNodeRequest) -> (r: Result<
    (),
    RequestError,
>)
    ensures
        r is Err <==> (parsed_id(request.id@) is None || (parsed_id(request.id@) matches Some(id)
            && !has_node_id(old(db).node_seq(), id))),
        parsed_id(request.id@) is None ==> r == Err::<(), RequestError>(RequestError::InvalidId),
        parsed_id(request.id@) matches Some(id) && !has_node_id(old(db).node_seq(), id) ==> r
            == Err::<(), RequestError>(RequestError::NodeNotFound),
        r is Err ==> final(db).node_seq() == old(db).node_seq(),
        r is Ok ==> (parsed_id(request.id@) matches Some(id) && exists|n: NodeView|
            {
                let base = old(db).node_seq()[node_index(old(db).node_seq(), id)];
                &&& n.id == base.id
                &&& n.node_type == base.node_type
                &&& n.label == request.label@
                &&& n.description == text_view(request.description)
                &&& n.tags == texts_view(request.tags@)
                &&& n.confidence == request.confidence
                &&& n.created_at == base.created_at
                &&& n.metadata == base.metadata
                &&& n.source == base.source
                &&& final(db).node_seq() == #[trigger] upsert_node(old(db).node_seq(), n)
            }),
        final(db).rel_seq() == old(db).rel_seq(),
{
    let id = match parse_id(request.id.as_str()) {
        Some(u) => u,
        None => {
            return Err(RequestError::InvalidId);
        },
    };
    let mut node = match db.get_node(id) {
        Some(n) => n,
        None => {
            return Err(RequestError::NodeNotFound);
        },
    };
    node.label = request.label;
    node.description = request.description;
    node.tags = request.tags;
    node.confidence = request.confidence;
    node.updated_at = now_micros();
    proof {
        assert(node@.tags =~= texts_view(request.tags@));
    }
    db.update_node(node);
    Ok(())
}

/// Creates a relationship from a request: both endpoint identifiers are
/// parsed, the tag is mapped to its variant, the optional fields are
/// applied (the confidence through clamping), the relationship is appended,
/// and its identifier is returned in text form. Malformed identifier text
/// and an unrecognized tag are rejected, distinctly, and change nothing.
pub fn create_relationship(db: &mut Database, request: CreateRelationshipRequest) -> (r: Result<
    String,
    RequestError,
>)
    ensures
        (parsed_id(request.source_id@) is None || parsed_id(request.target_id@) is None) <==> r
            == Err::<String, RequestError>(RequestError::InvalidId),
        parsed_id(request.source_id@) is Some && parsed_id(request.target_id@) is Some
            && spec_relation_type_from_tag(request.relation_type@) is None <==> r == Err::<
            String,
            RequestError,
        >(RequestError::InvalidRelationType),
        r is Err ==> (parsed_id(request.source_id@) is None || parsed_id(request.target_id@)
            is None || spec_relation_type_from_tag(request.relation_type@) is None),
        r is Err ==> final(db).rel_seq() == old(db).rel_seq(),
        r matches Ok(text) ==> exists|rel: RelationshipView|
            {
                &&& Some(rel.source_id) == parsed_id(request.source_id@)
                &&& Some(rel.target_id) == parsed_id(request.target_id@)
                &&& Some(rel.relation_type) == spec_relation_type_from_tag(
                    request.relation_type@,
                )
                &&& rel.description == text_view(request.description)
                &&& rel.weight == CONFIDENCE_UNIT
                &&& rel.confidence == (match request.confidence {
                    Some(c) => spec_clamp_unit(c),
                    None => 700,
                })
                &&& rel.source == text_view(request.source)
                &&& rel.created_at == rel.updated_at
                &&& #[trigger] id_text_of(rel.id) == text@
                &&& parsed_id(text@) == Some(rel.id)
                &&& final(db).rel_seq() == old(db).rel_seq().push(rel)
            },
        final(db).node_seq() == old(db).node_seq(),
{
    let source_id = match parse_id(request.source_id.as_str()) {
        Some(u) => u,
        None => {
            return Err(RequestError::InvalidId);
        },
    };
    let target_id = match parse_id(request.target_id.as_str()) {
        Some(u) => u,
        None => {
            return Err(RequestError::InvalidId);
        },
    };
    let relation_type = match relation_type_from_tag(request.relation_type.as_str()) {
        Some(t) => t,
        None => {
            return Err(RequestError::InvalidRelationType);
        },
    };
    let mut relationship = Relationship::new(source_id, target_id, relation_type);
    match request.confidence {
        Some(confidence) => {
            relationship = relationship.with_confidence(confidence);
        },
        None => {},
    }
    match request.source {
        Some(source) => {
            relationship = relationship.with_source(source);
        },
        None => {},
    }
    match request.description {
        Some(description) => {
            relationship.description = Some(description);
        },
        None => {},
    }
    let id = db.create_relationship(relationship);
    let text = id_text(id);
    Ok(text)
}

/// Applies an update request to the first relationship with the given
/// identifier: the type, description and weight are replaced (the weight is
/// not clamped, and the stored confidence is kept), and the update
/// timestamp is refreshed. Malformed identifier text, an unknown
/// identifier, and an unrecognized tag are rejected, distinctly, and change
/// nothing.
pub fn update_relationship(db: &mut Database, request: UpdateRelationshipRequest) -> (r: Result<
    (),
    RequestError,
>)
    ensures
        parsed_id(request.id@) is None <==> r == Err::<(), RequestError>(RequestError::InvalidId),
        parsed_id(request.id@) matches Some(id) && !has_rel_id(old(db).rel_seq(), id) <==> r
            == Err::<(), RequestError>(RequestError::RelationshipNotFound),
        parsed_id(request.id@) matches Some(id) && has_rel_id(old(db).rel_seq(), id)
            && spec_relation_type_from_tag(request.relation_type@) is None <==> r == Err::<
            (),
            RequestError,
        >(RequestError::InvalidRelationType),
        r is Err ==> (r == Err::<(), RequestError>(RequestError::InvalidId) || r == Err::<
            (),
            RequestError,
        >(RequestError::RelationshipNotFound) || r == Err::<(), RequestError>(
            RequestError::InvalidRelationType,
        )),
        r is Err ==> final(db).rel_seq() == old(db).rel_seq(),
        r is Ok ==> (parsed_id(request.id@) matches Some(id) && exists|i: int, rv: RelationshipView|
            {
                let base = old(db).rel_seq()[i];
                &&& 0 <= i < old(db).rel_seq().len()
                &&& base.id == id
                &&& (forall|j: int| 0 <= j < i ==> old(db).rel_seq()[j].id != id)
                &&& rv.id == base.id
                &&& rv.source_id == base.source_id
                &&& rv.target_id == base.target_id
                &&& Some(rv.relation_type) == spec_relation_type_from_tag(request.relation_type@)
                &&& rv.description == text_view(request.description)
                &&& rv.weight == request.weight
                &&& rv.confidence == base.confidence
                &&& rv.created_at == base.created_at
                &&& rv.metadata == base.metadata
                &&& rv.source == base.source
                &&& final(db).rel_seq() == #[trigger] old(db).rel_seq().update(i, rv)
            }),
        final(db).node_seq() == old(db).node_seq(),
{
    let id = match parse_id(request.id.as_str()) {
        Some(u) => u,
        None => {
            return Err(RequestError::InvalidId);
        },
    };
    let relationships = db.get_relationships();
    let found = first_with_id(&relationships, id);
    let k = match found {
        Some(k) => k,
        None => {
            proof {
                assert(!has_rel_id(old(db).rel_seq(), id)) by {
                    assert(forall|j: int|
                        0 <= j < db.rel_seq().len() ==> (#[trigger] db.rel_seq()[j]).id
                            != id) by {
                        assert(forall|j: int|
                            0 <= j < relationships@.len() ==> #[trigger] relationships@[j]@.id
                                != id);
                    }
                }
            }
            return Err(RequestError::RelationshipNotFound);
        },
    };
    proof {
        assert(crate::store::rel_views(relationships@)[k as int].id == id);
        assert(has_rel_id(old(db).rel_seq(), id));
    }
    let relation_type = match relation_type_from_tag(request.relation_type.as_str()) {
        Some(t) => t,
        None => {
            return Err(RequestError::InvalidRelationType);
        },
    };
    let mut relationship = relationships[k].clone();
    relationship.relation_type = relation_type;
    relationship.description = request.description;
    relationship.weight = request.weight;
    relationship.updated_at = now_micros();
    let ghost updated = relationship@;
    let ghost now_t = relationship@.updated_at;
    db.update_relationship(relationship);
    proof {
        let oldr = old(db).rel_seq();
        let i = choose|i: int|
            0 <= i < oldr.len() && (#[trigger] oldr[i]).id == updated.id && (forall|j: int|
                0 <= j < i ==> oldr[j].id != updated.id) && db.rel_seq() == oldr.update(
                i,
                updated,
            );
        assert(i == k as int);
    }
    Ok(())
}

/// Looks up a node by its textual identifier. Malformed identifier text is
/// rejected; an unknown identifier is `Ok(None)`, not an error.
pub fn get_node(db: &Database, id: &str) -> (r: Result<Option<Node>, RequestError>)
    ensures
        r is Err <==> parsed_id(id@) is None,
        r is Err ==> r == Err::<Option<Node>, RequestError>(RequestError::InvalidId),
        r matches Ok(opt) ==> parsed_id(id@) matches Some(u) && (opt is Some <==> has_node_id(
            db.node_seq(),
            u,
        )) && (opt matches Some(n) ==> n@ == db.node_seq()[node_index(db.node_seq(), u)] && n@.id
            == u),
{
    let u = match parse_id(id) {
        Some(u) => u,
        None => {
            return Err(RequestError::InvalidId);
        },
    };
    Ok(db.get_node(u))
}

/// Deletes a node by its textual identifier, with the cascade of the
/// store's delete. Malformed identifier text is rejected; an unknown
/// identifier reports `Ok(false)` and changes nothing.
pub fn delete_node(db: &mut Database, id: &str) -> (r: Result<bool, RequestError>)
    ensures
        r is Err <==> parsed_id(id@) is None,
        r is Err ==> r == Err::<bool, RequestError>(RequestError::InvalidId) && final(
            db).node_seq() == old(db).node_seq() && final(db).rel_seq() == old(db).rel_seq(),
        r matches Ok(existed) ==> parsed_id(id@) matches Some(u) && existed == has_node_id(
            old(db).node_seq(),
            u,
        ) && (existed ==> final(db).node_seq() == old(db).node_seq().remove(
            node_index(old(db).node_seq(), u),
        ) && final(db).rel_seq() == crate::store::without_references(old(db).rel_seq(), u)) && (
        !existed ==> final(db).node_seq() == old(db).node_seq() && final(db).rel_seq() == old(
            db).rel_seq()),
{
    let u = match parse_id(id) {
        Some(u) => u,
        None => {
            return Err(RequestError::InvalidId);
        },
    };
    Ok(db.delete_node(u))
}

/// Lists the relationships that reference a node, by its textual
/// identifier. Malformed identifier text is rejected.
pub fn get_node_relationships(db: &Database, node_id: &str) -> (r: Result<
    Vec<Relationship>,
    RequestError,
>)
    ensures
        r is Err <==> parsed_id(node_id@) is None,
        r is Err ==> r == Err::<Vec<Relationship>, RequestError>(RequestError::InvalidId),
        r matches Ok(rels) ==> parsed_id(node_id@) matches Some(u)
            && crate::store::rel_views(rels@) == crate::store::referencing(db.rel_seq(), u),
{
    let u = match parse_id(node_id) {
        Some(u) => u,
        None => {
            return Err(RequestError::InvalidId);
        },
    };
    Ok(db.get_node_relationships(u))
}

/// Deletes the first relationship with the given textual identifier.
/// Malformed identifier text is rejected; an unknown identifier reports
/// `Ok(false)` and changes nothing.
pub fn delete_relationship(db: &mut Database, id: &str) -> (r: Result<bool, RequestError>)
    ensures
        r is Err <==> parsed_id(id@) is None,
        r is Err ==> r == Err::<bool, RequestError>(RequestError::InvalidId) && final(
            db).rel_seq() == old(db).rel_seq(),
        final(db).node_seq() == old(db).node_seq(),
        r matches Ok(existed) ==> parsed_id(id@) matches Some(u) && existed == has_rel_id(
            old(db).rel_seq(),
            u,
        ) && (!existed ==> final(db).rel_seq() == old(db).rel_seq()) && (existed ==> exists|i: int|
            0 <= i < old(db).rel_seq().len() && (#[trigger] old(db).rel_seq()[i]).id == u && (
            forall|j: int| 0 <= j < i ==> old(db).rel_seq()[j].id != u) && final(db).rel_seq()
                == old(db).rel_seq().remove(i)),
{
    let u = match parse_id(id) {
        Some(u) => u,
        None => {
            return Err(RequestError::InvalidId);
        },
    };
    Ok(db.delete_relationship(u))
}

/// The position of the first relationship with the given identifier in a
/// copied list, or `None` where no relationship has it.
fn first_with_id(rels: &Vec<Relationship>, id: u128) -> (r: Option<usize>)
    ensures
        r matches Some(i)
            ==> i < rels@.len() && rels@[i as int]@.id == id && (forall|j: int|
            0 <= j < i ==> rels@[j]@.id != id),
        r is None ==> forall|j: int| 0 <= j < rels@.len() ==> rels@[j]@.id != id,
{
    let n = rels.len();
    let mut i: usize = 0;
    while i < n
        invariant
            i <= n,
            n == rels@.len(),
            forall|j: int| 0 <= j < i ==> rels@[j]@.id != id,
        decreases n - i,
    {
        if rels[i].id == id {
            return Some(i);
        }
        i += 1;
    }
    None
}

} // verus!
