use std::collections::BTreeMap;
use vstd::prelude::*;

use crate::components::{ColorComponent, SelectionComponent};
use crate::maps::{btree_get_mut, sorted_keys, strictly_increasing};
use crate::node::{BaseNode, KeyCode, RadiantNode};

verus! {

/// A node that holds other nodes under their identifiers; an artboard of a
/// document is such a group.
pub struct RadiantGroupNode<N> {
    pub base: BaseNode,
    pub nodes: BTreeMap<u128, N>,
}

impl<N: RadiantNode> RadiantGroupNode<N> {
    /// Whether some child reacts to `key`.
    pub open spec fn some_child_handles(&self, key: KeyCode) -> bool {
        exists|k: u128| #[trigger]
            self.nodes@.contains_key(k) && self.nodes@[k].spec_handles_key(key)
    }

    /// An empty group under `id`.
    pub fn new(id: u128) -> (g: Self)
        ensures
            g.base == BaseNode::spec_new(id),
            g.nodes@ == Map::<u128, N>::empty(),
    {
        RadiantGroupNode { base: BaseNode::new(id), nodes: BTreeMap::new() }
    }

    /// Puts `node` under its own identifier, replacing what was there.
    pub fn add(&mut self, node: N)
        ensures
            final(self).nodes@ == old(self).nodes@.insert(node.spec_id(), node),
            final(self).base == old(self).base,
    {
        let id = node.get_id();
        self.nodes.insert(id, node);
    }

    pub fn get_node(&self, id: u128) -> (r: Option<&N>)
        ensures
            match r {
                Some(n) => self.nodes@.contains_key(id) && *n == self.nodes@[id],
                None => !self.nodes@.contains_key(id),
            },
    {
        self.nodes.get(&id)
    }

    pub fn get_node_mut(&mut self, id: u128) -> (r: Option<&mut N>)
        ensures
            final(self).base == old(self).base,
            match r {
                Some(n) => {
                    &&& old(self).nodes@.contains_key(id)
                    &&& *n == old(self).nodes@[id]
                    &&& final(self).nodes@ == old(self).nodes@.insert(id, *final(n))
                },
                None => !old(self).nodes@.contains_key(id) && final(self).nodes@ == old(self).nodes@,
            },
    {
        btree_get_mut(&mut self.nodes, id)
    }
}

impl<N: RadiantNode> RadiantNode for RadiantGroupNode<N> {
    open spec fn spec_id(&self) -> u128 {
        self.base.id
    }

    open spec fn spec_selection(&self) -> Option<SelectionComponent> {
        Some(self.base.selection)
    }

    open spec fn spec_color(&self) -> Option<ColorComponent> {
        Some(self.base.color)
    }

    /// A group has nothing of its own to draw: it is drawn through its
    /// children, so it never waits to be drawn again by itself.
    open spec fn spec_needs_tessellation(&self) -> bool {
        true
    }

    open spec fn spec_handles_key(&self, key: KeyCode) -> bool {
        self.some_child_handles(key)
    }

    fn get_id(&self) -> (id: u128) {
        self.base.id
    }

    fn set_id(&mut self, id: u128)
        ensures
            final(self).base == (BaseNode { id, ..old(self).base }),
            final(self).nodes@ == old(self).nodes@,
    {
        self.base.id = id;
    }

    fn get_selection(&self) -> (c: Option<SelectionComponent>) {
        Some(self.base.selection)
    }

    fn set_selection(&mut self, c: SelectionComponent)
        ensures
            final(self).base == (BaseNode { selection: c, ..old(self).base }),
            final(self).nodes@ == old(self).nodes@,
    {
        self.base.selection = c;
    }

    fn get_color(&self) -> (c: Option<ColorComponent>) {
        Some(self.base.color)
    }

    fn set_color(&mut self, c: ColorComponent)
        ensures
            final(self).base == (BaseNode { color: c, ..old(self).base }),
            final(self).nodes@ == old(self).nodes@,
    {
        self.base.color = c;
    }

    /// A group is drawn through its children; marking it changes nothing.
    fn set_needs_tessellation(&mut self, notify: bool)
        ensures
            final(self).base == old(self).base,
            final(self).nodes@ == old(self).nodes@,
    {
    }

    /// Offers `key` to the children in the order of their identifiers and
    /// stops at the first that reacts.
    fn handle_key_down(&mut self, key: KeyCode) -> (handled: bool)
        ensures
            final(self).base == old(self).base,
            final(self).nodes@.dom() == old(self).nodes@.dom(),
            forall|k: u128| #[trigger]
                final(self).nodes@.contains_key(k) ==> final(self).nodes@[k].spec_id()
                    == old(self).nodes@[k].spec_id() && final(self).nodes@[k].spec_selection()
                    == old(self).nodes@[k].spec_selection(),
            forall|k: u128, h: u128|
                #![trigger final(self).nodes@[k], old(self).nodes@[h]]
                old(self).nodes@.contains_key(k) && old(self).nodes@.contains_key(h) && h < k
                    && old(self).nodes@[h].spec_handles_key(key) ==> final(self).nodes@[k]
                    == old(self).nodes@[k],
    {
        let keys = sorted_keys(&self.nodes);
        let ghost old_nodes = self.nodes@;
        let mut i: usize = 0;
        while i < keys.len()
            invariant
                keys@.to_set() == old_nodes.dom(),
                keys@.len() == old_nodes.dom().len(),
                strictly_increasing(keys@),
                0 <= i <= keys@.len(),
                self.base == old(self).base,
                old_nodes == old(self).nodes@,
                self.nodes@.dom() == old_nodes.dom(),
                forall|j: int| i <= j < keys@.len() ==> self.nodes@[#[trigger] keys@[j]]
                    == old_nodes[keys@[j]],
                forall|j: int| 0 <= j < i ==> !old_nodes[#[trigger] keys@[j]].spec_handles_key(key),
                forall|k: u128| #[trigger]
                    self.nodes@.contains_key(k) ==> self.nodes@[k].spec_id() == old_nodes[k].spec_id()
                        && self.nodes@[k].spec_selection() == old_nodes[k].spec_selection(),
            decreases keys@.len() - i,
        {
            let k = keys[i];
            assert(keys@.to_set().contains(k));
            match btree_get_mut(&mut self.nodes, k) {
                Some(node) => {
                    if node.handle_key_down(key.clone()) {
                        proof {
                            assert forall|k2: u128, h: u128|
                                #![trigger self.nodes@[k2], old_nodes[h]]
                                old_nodes.contains_key(k2) && old_nodes.contains_key(h) && h < k2
                                    && old_nodes[h].spec_handles_key(key) implies self.nodes@[k2]
                                == old_nodes[k2] by {
                                assert(keys@.to_set().contains(h));
                                assert(keys@.to_set().contains(k2));
                                let jh = choose|j: int| 0 <= j < keys@.len() && keys@[j] == h;
                                let jk = choose|j: int| 0 <= j < keys@.len() && keys@[j] == k2;
                                assert(jh >= i);
                                assert(jk > jh);
                            }
                        }
                        return true;
                    }
                },
                None => {},
            }
            i = i + 1;
        }
        proof {
            assert forall|k: u128| #[trigger]
                old_nodes.contains_key(k) implies !old_nodes[k].spec_handles_key(key) by {
                assert(keys@.to_set().contains(k));
                let j = choose|j: int| 0 <= j < keys@.len() && keys@[j] == k;
            }
        }
        false
    }
}

/// A node added to a group is what the group gives back under the node's
/// identifier.
pub proof fn lemma_add_then_get<N: RadiantNode>(
    before: RadiantGroupNode<N>,
    after: RadiantGroupNode<N>,
    node: N,
)
    requires
        after.nodes@ == before.nodes@.insert(node.spec_id(), node),
    ensures
        after.nodes@.contains_key(node.spec_id()),
        after.nodes@[node.spec_id()] == node,
{
}

} // verus!
