//! The scene hierarchy: which scene entities are shown at the top level, and in
//! which order.

use vstd::prelude::*;
use crate::sorting::{TextKeyed, sort_by_text_key, stably_sorted};
use crate::text::chars_of;

verus! {

/// A scene entity as the hierarchy panel sees it.
#[derive(Debug)]
pub struct HierarchyNode {
    /// The entity's id.
    pub entity: u64,
    /// The id of its parent, if it has one.
    pub parent: Option<u64>,
    /// The entity's name (empty when it has none).
    pub name: String,
}

impl TextKeyed for HierarchyNode {
    open spec fn text_key(&self) -> Seq<char> {
        self.name@
    }

    fn key_chars(&self) -> (r: Vec<char>) {
        chars_of(self.name.as_str())
    }
}

impl HierarchyNode {
    /// An identical copy of the node.
    pub fn duplicate(&self) -> (r: HierarchyNode)
        ensures
            r == *self,
    {
        HierarchyNode { entity: self.entity, parent: self.parent, name: self.name.clone() }
    }
}

/// Whether some node of `nodes` is the entity `e`.
pub open spec fn has_entity(nodes: Seq<HierarchyNode>, e: u64) -> bool {
    exists|i: int| 0 <= i < nodes.len() && #[trigger] nodes[i].entity == e
}

/// A node is shown at the top level when it has no parent or its parent is not
/// one of the scene entities.
pub open spec fn is_top_level(nodes: Seq<HierarchyNode>, n: HierarchyNode) -> bool {
    match n.parent {
        None => true,
        Some(p) => !has_entity(nodes, p),
    }
}

/// The top-level nodes of `nodes`, in their order.
pub open spec fn top_level(nodes: Seq<HierarchyNode>) -> Seq<HierarchyNode> {
    nodes.filter(|n: HierarchyNode| is_top_level(nodes, n))
}

/// A node is listed at the top level exactly when it has no parent, or no node of the
/// scene is its parent; in particular a child of any scene node (even one that has a
/// parent itself) is never listed at the top level.
pub proof fn lemma_top_level_membership(nodes: Seq<HierarchyNode>, i: int)
    requires
        0 <= i < nodes.len(),
    ensures
        top_level(nodes).contains(nodes[i]) <==> match nodes[i].parent {
            None => true,
            Some(p) => forall|j: int| 0 <= j < nodes.len() ==> #[trigger] nodes[j].entity != p,
        },
        forall|j: int|
            0 <= j < nodes.len() && nodes[i].parent == Some(#[trigger] nodes[j].entity)
                ==> !top_level(nodes).contains(nodes[i]),
{
    let pred = |n: HierarchyNode| is_top_level(nodes, n);
    if top_level(nodes).contains(nodes[i]) {
        let k = choose|k: int| 0 <= k < top_level(nodes).len() && top_level(nodes)[k] == nodes[i];
        nodes.lemma_filter_pred(pred, k);
    }
    if pred(nodes[i]) {
        nodes.lemma_filter_contains(pred, i);
    }
    match nodes[i].parent {
        None => {},
        Some(p) => {
            if !has_entity(nodes, p) {
                assert forall|j: int| 0 <= j < nodes.len() implies #[trigger] nodes[j].entity != p by {
                    if nodes[j].entity == p {
                        assert(has_entity(nodes, p));
                    }
                }
            }
        },
    }
}

/// Whether some node of `nodes` is the entity `e`.
fn contains_entity(nodes: &Vec<HierarchyNode>, e: u64) -> (r: bool)
    ensures
        r == has_entity(nodes@, e),
{
    let mut i: usize = 0;
    while i < nodes.len()
        invariant
            i <= nodes@.len(),
            forall|j: int| 0 <= j < i ==> #[trigger] nodes@[j].entity != e,
        decreases nodes@.len() - i,
    {
        if nodes[i].entity == e {
            return true;
        }
        i = i + 1;
    }
    false
}

/// The top-level scene entities, stably sorted by name, as the hierarchy panel lists
/// them.
pub fn root_nodes(nodes: &Vec<HierarchyNode>) -> (r: Vec<HierarchyNode>)
    ensures
        stably_sorted(r@, top_level(nodes@)),
        r@.len() == top_level(nodes@).len(),
{
    let ghost pred = |n: HierarchyNode| is_top_level(nodes@, n);
    let mut roots: Vec<HierarchyNode> = Vec::new();
    let mut i: usize = 0;
    while i < nodes.len()
        invariant
            pred == (|n: HierarchyNode| is_top_level(nodes@, n)),
            i <= nodes@.len(),
            roots@ == nodes@.take(i as int).filter(pred),
        decreases nodes@.len() - i,
    {
        proof {
            reveal_with_fuel(Seq::filter, 1);
            assert(nodes@.take(i + 1).drop_last() == nodes@.take(i as int));
            assert(nodes@.take(i + 1).last() == nodes@[i as int]);
        }
        let keep = match nodes[i].parent {
            None => true,
            Some(p) => !contains_entity(nodes, p),
        };
        proof {
            assert(pred(nodes@[i as int]) == keep);
        }
        if keep {
            roots.push(nodes[i].duplicate());
        }
        i = i + 1;
    }
    proof {
        assert(nodes@.take(nodes@.len() as int) == nodes@);
    }
    sort_by_text_key(roots)
}

} // verus!
