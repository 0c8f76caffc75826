//! The entity model: node and relationship records, their typed
//! enumerations, and their default-construction rules.
//!
//! Scores are fixed-point values in thousandths, so that they can be
//! reasoned about exactly: `1000` stands for a full score of one.
//! Identifiers are 128-bit values (the boundary renders them in the
//! conventional UUID text form), and timestamps are microseconds since the
//! epoch.

use vstd::prelude::*;

use crate::trusted::{empty_metadata, fresh_id, now_micros};

verus! {

/// A full fixed-point score of one, in thousandths.
pub const CONFIDENCE_UNIT: i64 = 1000;

/// The kind of entity a node represents.
#[derive(Clone, Copy, Debug, PartialEq, Eq, Structural)]
pub enum NodeType {
    Person,
    Organization,
    CryptoWallet,
    SocialAccount,
    Domain,
    IpAddress,
    Email,
    Phone,
    Document,
    Event,
}

/// The kind of a directed edge between two nodes.
#[derive(Clone, Copy, Debug, PartialEq, Eq, Structural)]
pub enum RelationType {
    Owns,
    Controls,
    TransactsWith,
    MemberOf,
    ConnectedTo,
    SameAs,
    RelatedTo,
    ParentOf,
    ChildOf,
}

/// One investigated entity.
#[derive(Debug)]
pub struct Node {
    /// Unique identifier, assigned at creation and never changed.
    pub id: u128,
    /// The kind of entity this node represents.
    pub node_type: NodeType,
    /// Human-readable display name.
    pub label: String,
    /// Optional free-text description.
    pub description: Option<String>,
    /// Open-ended structured metadata, carried through untouched.
    pub metadata: serde_json::Value,
    /// When the node was created, in microseconds since the epoch.
    pub created_at: i64,
    /// When the node was last updated.
    pub updated_at: i64,
    /// Reliability score in thousandths; not clamped anywhere.
    pub confidence: i64,
    /// Tags for categorization and search.
    pub tags: Vec<String>,
    /// Optional free-text provenance note.
    pub source: Option<String>,
}

/// The mathematical value of an optional text field.
pub open spec fn text_view(o: Option<String>) -> Option<Seq<char>> {
    match o {
        Some(s) => Some(s@),
        None => None,
    }
}

/// The mathematical values of a sequence of text fields.
pub open spec fn texts_view(v: Seq<String>) -> Seq<Seq<char>> {
    Seq::new(v.len(), |i: int| v[i]@)
}

/// The mathematical value of a node: every text field as a sequence of
/// characters.
pub ghost struct NodeView {
    pub id: u128,
    pub node_type: NodeType,
    pub label: Seq<char>,
    pub description: Option<Seq<char>>,
    pub metadata: serde_json::Value,
    pub created_at: i64,
    pub updated_at: i64,
    pub confidence: i64,
    pub tags: Seq<Seq<char>>,
    pub source: Option<Seq<char>>,
}

impl View for Node {
    type V = NodeView;

    open spec fn view(&self) -> NodeView {
        NodeView {
            id: self.id,
            node_type: self.node_type,
            label: self.label@,
            description: match self.description {
                Some(d) => Some(d@),
                None => None,
            },
            metadata: self.metadata,
            created_at: self.created_at,
            updated_at: self.updated_at,
            confidence: self.confidence,
            tags: Seq::new(self.tags@.len(), |i: int| self.tags@[i]@),
            source: match self.source {
                Some(s) => Some(s@),
                None => None,
            },
        }
    }
}

/// One directed, typed edge between two nodes.
#[derive(Debug)]
pub struct Relationship {
    /// Unique identifier, assigned at creation and never changed.
    pub id: u128,
    /// Identifier of the source node.
    pub source_id: u128,
    /// Identifier of the target node.
    pub target_id: u128,
    /// The kind of this edge.
    pub relation_type: RelationType,
    /// Optional free-text description.
    pub description: Option<String>,
    /// Strength of the edge in thousandths; unrestricted.
    pub weight: i64,
    /// Reliability score in thousandths; clamped to [0, CONFIDENCE_UNIT]
    /// when set through `with_confidence`.
    pub confidence: i64,
    /// When the relationship was created, in microseconds since the epoch.
    pub created_at: i64,
    /// When the relationship was last updated.
    pub updated_at: i64,
    /// Open-ended structured metadata, carried through untouched.
    pub metadata: serde_json::Value,
    /// Optional free-text provenance note.
    pub source: Option<String>,
}

/// The mathematical value of a relationship.
pub ghost struct RelationshipView {
    pub id: u128,
    pub source_id: u128,
    pub target_id: u128,
    pub relation_type: RelationType,
    pub description: Option<Seq<char>>,
    pub weight: i64,
    pub confidence: i64,
    pub created_at: i64,
    pub updated_at: i64,
    pub metadata: serde_json::Value,
    pub source: Option<Seq<char>>,
}

impl View for Relationship {
    type V = RelationshipView;

    open spec fn view(&self) -> RelationshipView {
        RelationshipView {
            id: self.id,
            source_id: self.source_id,
            target_id: self.target_id,
            relation_type: self.relation_type,
            description: match self.description {
                Some(d) => Some(d@),
                None => None,
            },
            weight: self.weight,
            confidence: self.confidence,
            created_at: self.created_at,
            updated_at: self.updated_at,
            metadata: self.metadata,
            source: match self.source {
                Some(s) => Some(s@),
                None => None,
            },
        }
    }
}

/// Clamps a fixed-point score into [0, CONFIDENCE_UNIT].
pub open spec fn spec_clamp_unit(c: i64) -> i64 {
    if c < 0 {
        0
    } else if c > CONFIDENCE_UNIT {
        CONFIDENCE_UNIT
    } else {
        c
    }
}

impl Node {
    /// A fresh node of the given type and label: a generated identifier,
    /// both timestamps set to the same current instant, a full confidence
    /// score, and every optional field empty.
    pub fn new(node_type: NodeType, label: String) -> (n: Node)
        ensures
            n@.node_type == node_type,
            n@.label == label@,
            n@.description is None,
            n@.created_at == n@.updated_at,
            n@.confidence == CONFIDENCE_UNIT,
            n@.tags =~= Seq::<Seq<char>>::empty(),
            n@.source is None,
    {
        let now = now_micros();
        Node {
            id: fresh_id(),
            node_type,
            label,
            description: None,
            metadata: empty_metadata(),
            created_at: now,
            updated_at: now,
            confidence: CONFIDENCE_UNIT,
            tags: Vec::new(),
            source: None,
        }
    }

    /// Replaces the description; a pre-insert builder, so no timestamp
    /// refresh.
    pub fn with_description(self, description: String) -> (n: Node)
        ensures
            n@ == (NodeView { description: Some(description@), ..self@ }),
    {
        Node { description: Some(description), ..self }
    }

    /// Replaces the tags; a pre-insert builder, so no timestamp refresh.
    pub fn with_tags(self, tags: Vec<String>) -> (n: Node)
        ensures
            n@ == (NodeView {
                tags: Seq::new(tags@.len(), |i: int| tags@[i]@),
                ..self@
            }),
    {
        Node { tags, ..self }
    }
}

impl Clone for Node {
    /// A copy whose mathematical value equals the original's.
    fn clone(&self) -> (n: Self)
        ensures
            n@ == self@,
    {
        let n = Node {
            id: self.id,
            node_type: self.node_type,
            label: self.label.clone(),
            description: self.description.clone(),
            metadata: self.metadata.clone(),
            created_at: self.created_at,
            updated_at: self.updated_at,
            confidence: self.confidence,
            tags: self.tags.clone(),
            source: self.source.clone(),
        };
        proof {
            assert(n@.tags =~= self@.tags);
            assert(n@ == self@);
        }
        n
    }
}

impl Relationship {
    /// A fresh directed edge between the two given node identifiers: a
    /// generated identifier, both timestamps set to the same current
    /// instant, a full weight, a default confidence score of seven tenths,
    /// and every optional field empty.
    pub fn new(source_id: u128, target_id: u128, relation_type: RelationType) -> (r: Relationship)
        ensures
            r@.source_id == source_id,
            r@.target_id == target_id,
            r@.relation_type == relation_type,
            r@.description is None,
            r@.weight == CONFIDENCE_UNIT,
            r@.confidence == 700,
            r@.created_at == r@.updated_at,
            r@.source is None,
    {
        let now = now_micros();
        Relationship {
            id: fresh_id(),
            source_id,
            target_id,
            relation_type,
            description: None,
            weight: CONFIDENCE_UNIT,
            confidence: 700,
            created_at: now,
            updated_at: now,
            metadata: empty_metadata(),
            source: None,
        }
    }

    /// Replaces the confidence score, clamped into [0, CONFIDENCE_UNIT].
    pub fn with_confidence(self, confidence: i64) -> (r: Relationship)
        ensures
            r@ == (RelationshipView { confidence: spec_clamp_unit(confidence), ..self@ }),
    {
        let clamped: i64 = if confidence < 0 {
            0
        } else if confidence > CONFIDENCE_UNIT {
            CONFIDENCE_UNIT
        } else {
            confidence
        };
        Relationship { confidence: clamped, ..self }
    }

    /// Replaces the provenance note.
    pub fn with_source(self, source: String) -> (r: Relationship)
        ensures
            r@ == (RelationshipView { source: Some(source@), ..self@ }),
    {
        Relationship { source: Some(source), ..self }
    }
}

impl Clone for Relationship {
    /// A copy whose mathematical value equals the original's.
    fn clone(&self) -> (r: Self)
        ensures
            r@ == self@,
    {
        Relationship {
            id: self.id,
            source_id: self.source_id,
            target_id: self.target_id,
            relation_type: self.relation_type,
            description: self.description.clone(),
            weight: self.weight,
            confidence: self.confidence,
            created_at: self.created_at,
            updated_at: self.updated_at,
            metadata: self.metadata.clone(),
            source: self.source.clone(),
        }
    }
}

} // verus!
