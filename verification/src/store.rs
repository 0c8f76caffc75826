//! The graph store: a keyed collection of nodes and an ordered collection
//! of relationships, with create/read/update/delete/search operations and
//! cascading integrity maintenance.
//!
//! The node collection behaves as a map keyed by identifier: storing a node
//! replaces any record with the same identifier, and the collection never
//! holds two nodes with one identifier. The relationship collection keeps
//! insertion order and permits duplicates. Deleting a node also deletes
//! every relationship that references it, so no relationship ever dangles
//! from a completed deletion.

use vstd::prelude::*;

use crate::entities::{Node, NodeView, Relationship, RelationshipView};
use crate::text::{is_substring, lemma_empty_is_substring, str_contains};
use crate::trusted::{lower_of, lowercase};

verus! {

/// The mathematical values of a sequence of node records.
pub open spec fn node_views(s: Seq<Node>) -> Seq<NodeView> {
    Seq::new(s.len(), |i: int| s[i]@)
}

/// The mathematical values of a sequence of relationship records.
pub open spec fn rel_views(s: Seq<Relationship>) -> Seq<RelationshipView> {
    Seq::new(s.len(), |i: int| s[i]@)
}

/// No two nodes of the sequence share an identifier.
pub open spec fn unique_node_ids(s: Seq<NodeView>) -> bool {
    forall|i: int, j: int| 0 <= i < j < s.len() ==> s[i].id != s[j].id
}

/// Some node of the sequence has the given identifier.
pub open spec fn has_node_id(s: Seq<NodeView>, id: u128) -> bool {
    exists|i: int| 0 <= i < s.len() && #[trigger] s[i].id == id
}

/// The position of the node with the given identifier; meaningful when
/// `has_node_id(s, id)` holds and the identifiers are unique.
pub open spec fn node_index(s: Seq<NodeView>, id: u128) -> int {
    choose|i: int| 0 <= i < s.len() && #[trigger] s[i].id == id
}

/// The node collection after storing `n`: the record with the same
/// identifier is replaced, or `n` is appended where none exists.
pub open spec fn upsert_node(s: Seq<NodeView>, n: NodeView) -> Seq<NodeView> {
    if has_node_id(s, n.id) {
        s.update(node_index(s, n.id), n)
    } else {
        s.push(n)
    }
}

/// Does the relationship reference the given node identifier as its source
/// or its target?
pub open spec fn references(r: RelationshipView, id: u128) -> bool {
    r.source_id == id || r.target_id == id
}

/// Some relationship of the sequence has the given identifier.
pub open spec fn has_rel_id(s: Seq<RelationshipView>, id: u128) -> bool {
    exists|i: int| 0 <= i < s.len() && #[trigger] s[i].id == id
}

/// Does the node match the already-folded query `lq`? The query matches on
/// the label, the description (where present), or any tag, by
/// case-insensitive substring: each candidate text is folded with
/// `lower_of` before the substring test.
pub open spec fn node_matches(n: NodeView, lq: Seq<char>) -> bool {
    is_substring(lq, lower_of(n.label)) || (match n.description {
        Some(d) => is_substring(lq, lower_of(d)),
        None => false,
    }) || (exists|i: int|
        0 <= i < n.tags.len() && is_substring(lq, lower_of(#[trigger] n.tags[i])))
}

/// Storing a node preserves the uniqueness of node identifiers: replacing
/// a record keeps every other identifier, and appending adds an identifier
/// that no record had.
pub proof fn lemma_upsert_preserves_uniqueness(s: Seq<NodeView>, n: NodeView)
    requires
        unique_node_ids(s),
    ensures
        unique_node_ids(upsert_node(s, n)),
{
    if has_node_id(s, n.id) {
        let k = node_index(s, n.id);
        assert(0 <= k < s.len() && s[k].id == n.id);
        assert forall|i: int, j: int|
            0 <= i < j < upsert_node(s, n).len() implies upsert_node(s, n)[i].id != upsert_node(
            s,
            n,
        )[j].id by {
            if i != k && j != k {
                assert(upsert_node(s, n)[i] == s[i] && upsert_node(s, n)[j] == s[j]);
            }
        }
    }
}

/// The nodes of `s` that match the already-folded query `lq`, in their
/// stored order.
pub open spec fn matching_nodes(s: Seq<NodeView>, lq: Seq<char>) -> Seq<NodeView> {
    s.filter(|n: NodeView| node_matches(n, lq))
}

/// The relationships of `rels` that reference the given node identifier,
/// in their stored order.
pub open spec fn referencing(rels: Seq<RelationshipView>, id: u128) -> Seq<RelationshipView> {
    rels.filter(|r: RelationshipView| references(r, id))
}

proof fn lemma_matching_push(s: Seq<NodeView>, x: NodeView, lq: Seq<char>)
    ensures
        matching_nodes(s.push(x), lq) == (if node_matches(x, lq) {
            matching_nodes(s, lq).push(x)
        } else {
            matching_nodes(s, lq)
        }),
{
    reveal(Seq::filter);
    assert(s.push(x).drop_last() =~= s);
}

/// An empty query matches every node, so it selects the whole collection.
pub proof fn lemma_empty_query_matches_all(s: Seq<NodeView>, lq: Seq<char>)
    requires
        lq.len() == 0,
    ensures
        matching_nodes(s, lq) == s,
    decreases s.len(),
{
    reveal(Seq::filter);
    if s.len() > 0 {
        lemma_empty_query_matches_all(s.drop_last(), lq);
        lemma_empty_is_substring(lq, lower_of(s.last().label));
        assert(s.drop_last().push(s.last()) =~= s);
    }
}

proof fn lemma_without_refs_push(s: Seq<RelationshipView>, x: RelationshipView, id: u128)
    ensures
        without_references(s.push(x), id) == (if references(x, id) {
            without_references(s, id)
        } else {
            without_references(s, id).push(x)
        }),
{
    reveal(Seq::filter);
    assert(s.push(x).drop_last() =~= s);
}

proof fn lemma_referencing_push(s: Seq<RelationshipView>, x: RelationshipView, id: u128)
    ensures
        referencing(s.push(x), id) == (if references(x, id) {
            referencing(s, id).push(x)
        } else {
            referencing(s, id)
        }),
{
    reveal(Seq::filter);
    assert(s.push(x).drop_last() =~= s);
}

/// The relationships that survive deleting the node with the given
/// identifier: those that reference it are removed, the rest keep their
/// relative order.
pub open spec fn without_references(rels: Seq<RelationshipView>, id: u128) -> Seq<
    RelationshipView,
> {
    rels.filter(|r: RelationshipView| !references(r, id))
}

/// Cascade integrity: after removing every relationship that references a
/// node, none of the kept relationships references it, and every
/// relationship that did not reference it is kept.
pub proof fn lemma_cascade_integrity(rels: Seq<RelationshipView>, id: u128)
    ensures
        forall|i: int|
            0 <= i < without_references(rels, id).len() ==> !references(
                #[trigger] without_references(rels, id)[i],
                id,
            ),
        forall|i: int|
            0 <= i < rels.len() && !references(#[trigger] rels[i], id) ==> without_references(
                rels,
                id,
            ).contains(rels[i]),
{
    broadcast use vstd::seq_lib::group_filter_ensures;

}

/// The in-memory graph store. The two collections are independent except
/// for node deletion, which also removes the relationships that reference
/// the deleted node.
pub struct Database {
    nodes: Vec<Node>,
    relationships: Vec<Relationship>,
}

impl Database {
    /// The stored nodes, in internal order.
    pub closed spec fn node_seq(&self) -> Seq<NodeView> {
        node_views(self.nodes@)
    }

    /// The stored relationships, in insertion order.
    pub closed spec fn rel_seq(&self) -> Seq<RelationshipView> {
        rel_views(self.relationships@)
    }

    #[verifier::type_invariant]
    spec fn wf(&self) -> bool {
        unique_node_ids(self.node_seq())
    }

    /// A new, empty store.
    pub fn new() -> (db: Database)
        ensures
            db.node_seq() == Seq::<NodeView>::empty(),
            db.rel_seq() == Seq::<RelationshipView>::empty(),
    {
        let db = Database { nodes: Vec::new(), relationships: Vec::new() };
        proof {
            assert(db.node_seq() =~= Seq::<NodeView>::empty());
            assert(db.rel_seq() =~= Seq::<RelationshipView>::empty());
        }
        db
    }

    /// Stores a node under its identifier and returns the identifier.
    /// A record with the same identifier is silently replaced; callers are
    /// expected to supply fresh identifiers. Always succeeds.
    pub fn create_node(&mut self, node: Node) -> (id: u128)
        ensures
            id == node@.id,
            final(self).node_seq() == upsert_node(old(self).node_seq(), node@),
            final(self).rel_seq() == old(self).rel_seq(),
    {
        proof {
            use_type_invariant(&*self);
        }
        let id = node.id;
        let ghost old_views = self.node_seq();
        let mut nodes: Vec<Node> = Vec::new();
        core::mem::swap(&mut nodes, &mut self.nodes);
        let found = find_node_index(&nodes, id);
        match found {
            Some(i) => {
                nodes.set(i, node);
                proof {
                    let s = node_views(nodes@);
                    assert(s =~= old_views.update(i as int, node@));
                    assert(old_views[node_index(old_views, id)].id == id);
                    assert(node_index(old_views, id) == i as int);
                    assert(s == upsert_node(old_views, node@));
                    lemma_upsert_preserves_uniqueness(old_views, node@);
                }
            },
            None => {
                nodes.push(node);
                proof {
                    let s = node_views(nodes@);
                    assert(s =~= old_views.push(node@));
                    assert(s == upsert_node(old_views, node@));
                    lemma_upsert_preserves_uniqueness(old_views, node@);
                }
            },
        }
        self.nodes = nodes;
        id
    }

    /// Returns a copy of the node with the given identifier, or `None`
    /// where no node has it. Always succeeds.
    pub fn get_node(&self, id: u128) -> (r: Option<Node>)
        ensures
            r is Some <==> has_node_id(self.node_seq(), id),
            r matches Some(n) ==> n@ == self.node_seq()[node_index(self.node_seq(), id)]
                && n@.id == id,
    {
        let found = find_node_index(&self.nodes, id);
        match found {
            Some(i) => {
                let n = self.nodes[i].clone();
                proof {
                    use_type_invariant(&*self);
                    let s = self.node_seq();
                    assert(s[node_index(s, id)].id == id);
                    assert(node_index(s, id) == i as int);
                }
                Some(n)
            },
            None => None,
        }
    }

    /// Returns a copy of every node, and with it the guarantee that the
    /// stored nodes never hold one identifier twice. Always succeeds.
    pub fn get_all_nodes(&self) -> (r: Vec<Node>)
        ensures
            node_views(r@) == self.node_seq(),
            unique_node_ids(self.node_seq()),
    {
        proof {
            use_type_invariant(&*self);
        }
        let r = self.nodes.clone();
        proof {
            assert(node_views(r@) =~= self.node_seq());
        }
        r
    }

    /// Returns a copy of every node whose label, description or any tag
    /// contains the query, case-insensitively, in stored order. An empty
    /// query matches every node. Always succeeds.
    pub fn search_nodes(&self, query: &str) -> (r: Vec<Node>)
        ensures
            node_views(r@) == matching_nodes(self.node_seq(), lower_of(query@)),
            query@.len() == 0 ==> node_views(r@) == self.node_seq(),
    {
        let lq = lowercase(query);
        let ghost lqv = lower_of(query@);
        let n = self.nodes.len();
        let mut r: Vec<Node> = Vec::new();
        let mut i: usize = 0;
        proof {
            reveal(Seq::filter);
            assert(self.node_seq().subrange(0, 0) =~= Seq::<NodeView>::empty());
            assert(node_views(r@) =~= matching_nodes(self.node_seq().subrange(0, 0), lqv));
        }
        while i < n
            invariant
                i <= n,
                n == self.nodes@.len(),
                lq@ == lqv,
                node_views(r@) == matching_nodes(self.node_seq().subrange(0, i as int), lqv),
            decreases n - i,
        {
            let ghost prefix = self.node_seq().subrange(0, i as int);
            let ghost prev = node_views(r@);
            let matched = node_matches_query(&self.nodes[i], lq.as_str());
            if matched {
                let node = self.nodes[i].clone();
                r.push(node);
            }
            proof {
                assert(self.node_seq().subrange(0, i + 1) =~= prefix.push(self.node_seq()[i as int]));
                lemma_matching_push(prefix, self.node_seq()[i as int], lqv);
                if matched {
                    assert(node_views(r@) =~= prev.push(self.node_seq()[i as int]));
                } else {
                    assert(node_views(r@) =~= prev);
                }
            }
            i += 1;
        }
        proof {
            assert(self.node_seq().subrange(0, n as int) =~= self.node_seq());
            if query@.len() == 0 {
                lemma_empty_query_matches_all(self.node_seq(), lqv);
            }
        }
        r
    }

    /// Replaces the record stored under `node.id`. Where no record has that
    /// identifier, the node is inserted instead: an update of an unknown
    /// identifier is an upsert, never an error. Always succeeds.
    pub fn update_node(&mut self, node: Node)
        ensures
            final(self).node_seq() == upsert_node(old(self).node_seq(), node@),
            final(self).rel_seq() == old(self).rel_seq(),
    {
        self.create_node(node);
    }

    /// Removes the node with the given identifier, and with it every
    /// relationship that references it as source or target. Returns whether
    /// a node was found; an unknown identifier changes nothing and is
    /// reported as `false`, never as an error.
    pub fn delete_node(&mut self, id: u128) -> (existed: bool)
        ensures
            existed == has_node_id(old(self).node_seq(), id),
            existed ==> final(self).node_seq() == old(self).node_seq().remove(
                node_index(old(self).node_seq(), id),
            ) && final(self).rel_seq() == without_references(old(self).rel_seq(), id),
            !existed ==> final(self).node_seq() == old(self).node_seq() && final(self).rel_seq()
                == old(self).rel_seq(),
    {
        proof {
            use_type_invariant(&*self);
        }
        let found = find_node_index(&self.nodes, id);
        match found {
            Some(i) => {
                let ghost oldn = self.node_seq();
                let mut nodes: Vec<Node> = Vec::new();
                core::mem::swap(&mut nodes, &mut self.nodes);
                let ghost pre = nodes@;
                nodes.remove(i);
                proof {
                    assert(oldn[node_index(oldn, id)].id == id);
                    assert(node_index(oldn, id) == i as int);
                    pre.remove_ensures(i as int);
                    let s = node_views(nodes@);
                    assert forall|j: int| 0 <= j < s.len() implies s[j] == (if j < i {
                        oldn[j]
                    } else {
                        oldn[j + 1]
                    }) by {
                        if j < i {
                            assert(pre.remove(i as int)[j] == pre[j]);
                        } else {
                            assert(pre.remove(i as int)[j] == pre[j + 1]);
                        }
                    }
                    assert(s =~= oldn.remove(i as int));
                    assert forall|a: int, b: int| 0 <= a < b < s.len() implies s[a].id != s[b].id by {
                        let a0: int = if a < i { a } else { a + 1 };
                        let b0: int = if b < i { b } else { b + 1 };
                        assert(s[a] == oldn[a0] && s[b] == oldn[b0]);
                    }
                }
                self.nodes = nodes;
                let kept = rels_without(&self.relationships, id);
                self.relationships = kept;
                true
            },
            None => false,
        }
    }

    /// Appends a relationship and returns its identifier. Neither
    /// uniqueness nor the existence of the referenced nodes is checked:
    /// duplicates are kept, and dangling references are the loader's
    /// responsibility. Always succeeds.
    pub fn create_relationship(&mut self, relationship: Relationship) -> (id: u128)
        ensures
            id == relationship@.id,
            final(self).rel_seq() == old(self).rel_seq().push(relationship@),
            final(self).node_seq() == old(self).node_seq(),
    {
        proof {
            use_type_invariant(&*self);
        }
        let id = relationship.id;
        let ghost oldr = self.rel_seq();
        let mut rels: Vec<Relationship> = Vec::new();
        core::mem::swap(&mut rels, &mut self.relationships);
        rels.push(relationship);
        self.relationships = rels;
        proof {
            assert(self.rel_seq() =~= oldr.push(relationship@));
        }
        id
    }

    /// Returns a copy of every relationship, in insertion order. Always
    /// succeeds.
    pub fn get_relationships(&self) -> (r: Vec<Relationship>)
        ensures
            rel_views(r@) == self.rel_seq(),
    {
        let r = self.relationships.clone();
        proof {
            assert(rel_views(r@) =~= self.rel_seq());
        }
        r
    }

    /// Returns a copy of every relationship that references the given node
    /// identifier as source or target, in stored order. Always succeeds.
    pub fn get_node_relationships(&self, node_id: u128) -> (r: Vec<Relationship>)
        ensures
            rel_views(r@) == referencing(self.rel_seq(), node_id),
    {
        let n = self.relationships.len();
        let mut r: Vec<Relationship> = Vec::new();
        let mut i: usize = 0;
        proof {
            reveal(Seq::filter);
            assert(self.rel_seq().subrange(0, 0) =~= Seq::<RelationshipView>::empty());
            assert(rel_views(r@) =~= referencing(self.rel_seq().subrange(0, 0), node_id));
        }
        while i < n
            invariant
                i <= n,
                n == self.relationships@.len(),
                rel_views(r@) == referencing(self.rel_seq().subrange(0, i as int), node_id),
            decreases n - i,
        {
            let ghost prefix = self.rel_seq().subrange(0, i as int);
            let ghost prev = rel_views(r@);
            let hit = self.relationships[i].source_id == node_id || self.relationships[i].target_id
                == node_id;
            if hit {
                let rel = self.relationships[i].clone();
                r.push(rel);
            }
            proof {
                assert(self.rel_seq().subrange(0, i + 1) =~= prefix.push(self.rel_seq()[i as int]));
                lemma_referencing_push(prefix, self.rel_seq()[i as int], node_id);
                if hit {
                    assert(rel_views(r@) =~= prev.push(self.rel_seq()[i as int]));
                } else {
                    assert(rel_views(r@) =~= prev);
                }
            }
            i += 1;
        }
        proof {
            assert(self.rel_seq().subrange(0, n as int) =~= self.rel_seq());
        }
        r
    }

    /// Replaces the first relationship whose identifier equals
    /// `relationship.id`, keeping its position. Where no relationship has
    /// that identifier, nothing changes: unlike a node update, this is a
    /// true no-op, never an insert. Always succeeds.
    pub fn update_relationship(&mut self, relationship: Relationship)
        ensures
            final(self).node_seq() == old(self).node_seq(),
            !has_rel_id(old(self).rel_seq(), relationship@.id) ==> final(self).rel_seq() == old(
                self).rel_seq(),
            has_rel_id(old(self).rel_seq(), relationship@.id) ==> exists|i: int|
                0 <= i < old(self).rel_seq().len() && (#[trigger] old(self).rel_seq()[i]).id
                    == relationship@.id && (forall|j: int|
                    0 <= j < i ==> old(self).rel_seq()[j].id != relationship@.id) && final(
                    self).rel_seq() == old(self).rel_seq().update(i, relationship@),
    {
        proof {
            use_type_invariant(&*self);
        }
        let found = find_rel_index(&self.relationships, relationship.id);
        match found {
            Some(i) => {
                let ghost oldr = self.rel_seq();
                let mut rels: Vec<Relationship> = Vec::new();
                core::mem::swap(&mut rels, &mut self.relationships);
                rels.set(i, relationship);
                self.relationships = rels;
                proof {
                    assert(self.rel_seq() =~= oldr.update(i as int, relationship@));
                }
            },
            None => {},
        }
    }

    /// Removes the first relationship with the given identifier. Returns
    /// whether one was found; an unknown identifier changes nothing and is
    /// reported as `false`, never as an error.
    pub fn delete_relationship(&mut self, id: u128) -> (existed: bool)
        ensures
            existed == has_rel_id(old(self).rel_seq(), id),
            final(self).node_seq() == old(self).node_seq(),
            !existed ==> final(self).rel_seq() == old(self).rel_seq(),
            existed ==> exists|i: int|
                0 <= i < old(self).rel_seq().len() && (#[trigger] old(self).rel_seq()[i]).id == id
                    && (forall|j: int| 0 <= j < i ==> old(self).rel_seq()[j].id != id) && final(
                    self).rel_seq() == old(self).rel_seq().remove(i),
    {
        proof {
            use_type_invariant(&*self);
        }
        let found = find_rel_index(&self.relationships, id);
        match found {
            Some(i) => {
                let ghost oldr = self.rel_seq();
                let mut rels: Vec<Relationship> = Vec::new();
                core::mem::swap(&mut rels, &mut self.relationships);
                let ghost pre = rels@;
                rels.remove(i);
                self.relationships = rels;
                proof {
                    pre.remove_ensures(i as int);
                    let s = self.rel_seq();
                    assert forall|j: int| 0 <= j < s.len() implies s[j] == (if j < i {
                        oldr[j]
                    } else {
                        oldr[j + 1]
                    }) by {
                        if j < i {
                            assert(pre.remove(i as int)[j] == pre[j]);
                        } else {
                            assert(pre.remove(i as int)[j] == pre[j + 1]);
                        }
                    }
                    assert(s =~= oldr.remove(i as int));
                }
                true
            },
            None => false,
        }
    }

    /// Empties both collections, dropping every node and relationship.
    /// Always succeeds.
    pub fn clear_all(&mut self)
        ensures
            final(self).node_seq() == Seq::<NodeView>::empty(),
            final(self).rel_seq() == Seq::<RelationshipView>::empty(),
    {
        self.nodes = Vec::new();
        self.relationships = Vec::new();
        proof {
            assert(self.node_seq() =~= Seq::<NodeView>::empty());
            assert(self.rel_seq() =~= Seq::<RelationshipView>::empty());
        }
    }
}

/// The position of the first node with the given identifier, or `None`
/// where no node has it.
fn find_node_index(nodes: &Vec<Node>, id: u128) -> (r: Option<usize>)
    ensures
        r matches Some(i)
            ==> i < nodes@.len() && node_views(nodes@)[i as int].id == id,
        r is None ==> !has_node_id(node_views(nodes@), id),
{
    let n = nodes.len();
    let mut i: usize = 0;
    while i < n
        invariant
            i <= n,
            n == nodes@.len(),
            forall|j: int| 0 <= j < i ==> node_views(nodes@)[j].id != id,
        decreases n - i,
    {
        if nodes[i].id == id {
            return Some(i);
        }
        i += 1;
    }
    None
}

/// The position of the first relationship with the given identifier, or
/// `None` where no relationship has it.
fn find_rel_index(rels: &Vec<Relationship>, id: u128) -> (r: Option<usize>)
    ensures
        r matches Some(i)
            ==> i < rels@.len() && rel_views(rels@)[i as int].id == id && (forall|j: int|
            0 <= j < i ==> rel_views(rels@)[j].id != id),
        r is None ==> !has_rel_id(rel_views(rels@), id),
{
    let n = rels.len();
    let mut i: usize = 0;
    while i < n
        invariant
            i <= n,
            n == rels@.len(),
            forall|j: int| 0 <= j < i ==> rel_views(rels@)[j].id != id,
        decreases n - i,
    {
        if rels[i].id == id {
            return Some(i);
        }
        i += 1;
    }
    None
}

/// A copy of the relationships that do not reference the given node
/// identifier, in their stored order.
fn rels_without(rels: &Vec<Relationship>, id: u128) -> (r: Vec<Relationship>)
    ensures
        rel_views(r@) == without_references(rel_views(rels@), id),
{
    let n = rels.len();
    let mut r: Vec<Relationship> = Vec::new();
    let mut i: usize = 0;
    proof {
        reveal(Seq::filter);
        assert(rel_views(rels@).subrange(0, 0) =~= Seq::<RelationshipView>::empty());
        assert(rel_views(r@) =~= without_references(rel_views(rels@).subrange(0, 0), id));
    }
    while i < n
        invariant
            i <= n,
            n == rels@.len(),
            rel_views(r@) == without_references(rel_views(rels@).subrange(0, i as int), id),
        decreases n - i,
    {
        let ghost all = rel_views(rels@);
        let ghost prefix = all.subrange(0, i as int);
        let ghost prev = rel_views(r@);
        let keep = rels[i].source_id != id && rels[i].target_id != id;
        if keep {
            let rel = rels[i].clone();
            r.push(rel);
        }
        proof {
            assert(all.subrange(0, i + 1) =~= prefix.push(all[i as int]));
            lemma_without_refs_push(prefix, all[i as int], id);
            if keep {
                assert(rel_views(r@) =~= prev.push(all[i as int]));
            } else {
                assert(rel_views(r@) =~= prev);
            }
        }
        i += 1;
    }
    proof {
        assert(rel_views(rels@).subrange(0, n as int) =~= rel_views(rels@));
    }
    r
}

/// Does the node match the already-folded query text `lq`? Checks the
/// label, then the description, then each tag, folding each with
/// `lowercase` before the substring test.
fn node_matches_query(node: &Node, lq: &str) -> (b: bool)
    ensures
        b == node_matches(node@, lq@),
{
    let ll = lowercase(node.label.as_str());
    if str_contains(ll.as_str(), lq) {
        return true;
    }
    match &node.description {
        Some(d) => {
            let ld = lowercase(d.as_str());
            if str_contains(ld.as_str(), lq) {
                return true;
            }
        },
        None => {},
    }
    let m = node.tags.len();
    let mut i: usize = 0;
    while i < m
        invariant
            i <= m,
            m == node.tags@.len(),
            !is_substring(lq@, lower_of(node@.label)),
            match node@.description {
                Some(d) => !is_substring(lq@, lower_of(d)),
                None => true,
            },
            forall|j: int| 0 <= j < i ==> !is_substring(lq@, lower_of(#[trigger] node@.tags[j])),
        decreases m - i,
    {
        let lt = lowercase(node.tags[i].as_str());
        if str_contains(lt.as_str(), lq) {
            proof {
                assert(node@.tags[i as int] == node.tags@[i as int]@);
            }
            return true;
        }
        i += 1;
    }
    false
}

} // verus!
