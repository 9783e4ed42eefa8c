use std::collections::BTreeMap;
use vstd::prelude::*;

use crate::components::SelectionComponent;
use crate::group::RadiantGroupNode;
use crate::maps::{btree_get_mut, sorted_keys, strictly_increasing};
use crate::node::{new_node_id, BaseNode, RadiantNode};

verus! {

/// A document: artboards under their identifiers, each holding nodes; one
/// artboard is active and receives new nodes; at most one node is selected.
pub struct RadiantDocumentNode<N> {
    pub counter: u64,
    pub artboards: BTreeMap<u128, RadiantGroupNode<N>>,
    pub active_artboard_id: u128,
    pub selected_node_id: Option<u128>,
}

/// Whether `g` is an artboard just created under `id`: empty, with a fresh base.
pub open spec fn is_new_artboard<N>(g: RadiantGroupNode<N>, id: u128) -> bool {
    &&& g.base == BaseNode::spec_new(id)
    &&& g.nodes@ == Map::<u128, N>::empty()
}

/// What selecting `id` after `prev` makes of the node under `key`, `before`
/// the call: a node under one of the two identifiers that has a selection
/// component gets it set (on for `id`, off for `prev`) and is marked to be
/// drawn again; any other node stays.
pub open spec fn selected_after<N: RadiantNode>(
    before: N,
    after: N,
    key: u128,
    prev: Option<u128>,
    id: Option<u128>,
) -> bool {
    if (prev == Some(key) || id == Some(key)) && before.spec_selection() is Some {
        &&& after.spec_id() == before.spec_id()
        &&& after.spec_color() == before.spec_color()
        &&& after.spec_needs_tessellation()
        &&& after.spec_selection() == Some(SelectionComponent::spec_with(id == Some(key)))
    } else {
        after == before
    }
}

/// Whether artboard `after` is artboard `before` after selecting `id` in
/// place of `prev`.
pub open spec fn artboard_selected_after<N: RadiantNode>(
    before: RadiantGroupNode<N>,
    after: RadiantGroupNode<N>,
    prev: Option<u128>,
    id: Option<u128>,
) -> bool {
    &&& after.base == before.base
    &&& after.nodes@.dom() == before.nodes@.dom()
    &&& forall|k: u128| #[trigger]
        before.nodes@.contains_key(k) ==> selected_after(
            before.nodes@[k],
            after.nodes@[k],
            k,
            prev,
            id,
        )
}

/// Sets the selection of the node under `key` in `artboard`, if it has a
/// selection component, and marks it to be drawn again.
fn set_selected_in<N: RadiantNode>(artboard: &mut RadiantGroupNode<N>, key: u128, selected: bool)
    ensures
        final(artboard).base == old(artboard).base,
        if old(artboard).nodes@.contains_key(key) && old(artboard).nodes@[key].spec_selection() is Some {
            &&& final(artboard).nodes@ == old(artboard).nodes@.insert(key, final(artboard).nodes@[key])
            &&& final(artboard).nodes@[key].spec_id() == old(artboard).nodes@[key].spec_id()
            &&& final(artboard).nodes@[key].spec_color() == old(artboard).nodes@[key].spec_color()
            &&& final(artboard).nodes@[key].spec_needs_tessellation()
            &&& final(artboard).nodes@[key].spec_selection() == Some(SelectionComponent::spec_with(selected))
        } else {
            final(artboard).nodes@ == old(artboard).nodes@
        },
{
    match artboard.get_node_mut(key) {
        Some(node) => {
            match node.get_selection() {
                Some(c) => {
                    let mut c = c;
                    c.set_selected(selected);
                    node.set_selection(c);
                    node.set_needs_tessellation(true);
                },
                None => {},
            }
        },
        None => {},
    }
}

/// The `j`-th spare artboard identifier: version nibble 4 and variant bits
/// `10`, as in a random identifier, with `j` spread over the other low bits.
pub open spec fn spare_artboard_id(j: u128) -> u128 {
    (4u128 << 76u128) | (2u128 << 62u128) | (j & 0x3fff_ffff_ffff_ffffu128) | ((j >> 62u128)
        << 64u128)
}

/// Spare identifiers carry the version and variant bits, and two numbers
/// below 2^64 give two different spare identifiers.
pub proof fn lemma_spare_ids(a: u128, b: u128)
    requires
        a < 0x1_0000_0000_0000_0000u128,
        b < 0x1_0000_0000_0000_0000u128,
    ensures
        (spare_artboard_id(a) >> 76u128) & 0xfu128 == 4,
        (spare_artboard_id(a) >> 62u128) & 0x3u128 == 2,
        spare_artboard_id(a) == spare_artboard_id(b) ==> a == b,
{
    assert(((4u128 << 76u128) | (2u128 << 62u128) | (a & 0x3fff_ffff_ffff_ffffu128) | ((a >> 62u128)
        << 64u128)) >> 76u128 & 0xfu128 == 4) by (bit_vector)
        requires
            a < 0x1_0000_0000_0000_0000u128,
    ;
    assert(((4u128 << 76u128) | (2u128 << 62u128) | (a & 0x3fff_ffff_ffff_ffffu128) | ((a >> 62u128)
        << 64u128)) >> 62u128 & 0x3u128 == 2) by (bit_vector)
        requires
            a < 0x1_0000_0000_0000_0000u128,
    ;
    assert(((4u128 << 76u128) | (2u128 << 62u128) | (a & 0x3fff_ffff_ffff_ffffu128) | ((a >> 62u128)
        << 64u128)) == ((4u128 << 76u128) | (2u128 << 62u128) | (b & 0x3fff_ffff_ffff_ffffu128) | ((b
        >> 62u128) << 64u128)) ==> a == b) by (bit_vector)
        requires
            a < 0x1_0000_0000_0000_0000u128,
            b < 0x1_0000_0000_0000_0000u128,
    ;
}

/// The first spare identifier that no key of `artboards` takes; one is
/// always free, since `artboards` has fewer keys than the spare identifiers
/// tried.
fn free_artboard_id<N>(artboards: &BTreeMap<u128, RadiantGroupNode<N>>) -> (id: u128)
    ensures
        !artboards@.contains_key(id),
        (id >> 76u128) & 0xfu128 == 4,
        (id >> 62u128) & 0x3u128 == 2,
{
    let n: u128 = artboards.len() as u128;
    let mut j: u128 = 0;
    while j <= n
        invariant
            n == artboards@.len(),
            n < 0x1_0000_0000_0000_0000u128,
            j <= n + 1,
            forall|k: u128| k < j ==> artboards@.contains_key(#[trigger] spare_artboard_id(k)),
        decreases n + 1 - j,
    {
        let c: u128 = (4u128 << 76u128) | (2u128 << 62u128) | (j & 0x3fff_ffff_ffff_ffffu128) | ((j
            >> 62u128) << 64u128);
        assert(c == spare_artboard_id(j));
        if !artboards.contains_key(&c) {
            proof {
                lemma_spare_ids(j, j);
            }
            return c;
        }
        j = j + 1;
    }
    proof {
        vstd::std_specs::btree::axiom_btree_map_view_finite_dom(*artboards);
        let tried = Seq::new((n + 1) as nat, |i: int| spare_artboard_id(i as u128));
        assert forall|a: int, b: int| 0 <= a < tried.len() && 0 <= b < tried.len() && a != b
            implies tried[a] != tried[b] by {
            lemma_spare_ids(a as u128, b as u128);
        }
        assert(tried.no_duplicates());
        tried.unique_seq_to_set();
        assert forall|x: u128| tried.to_set().contains(x) implies artboards@.dom().contains(x) by {
            let i = choose|i: int| 0 <= i < tried.len() && tried[i] == x;
            assert(artboards@.contains_key(spare_artboard_id(i as u128)));
        }
        vstd::set_lib::lemma_len_subset(tried.to_set(), artboards@.dom());
        assert(false);
    }
    0
}

impl<N: RadiantNode> RadiantDocumentNode<N> {
    /// Whether the artboard under `a` holds a node under `id`.
    pub open spec fn artboard_holds(&self, a: u128, id: u128) -> bool {
        self.artboards@.contains_key(a) && self.artboards@[a].nodes@.contains_key(id)
    }

    /// Whether some artboard holds a node under `id`.
    #[verifier::opaque]
    pub open spec fn holds(&self, id: u128) -> bool {
        exists|a: u128| #[trigger] self.artboard_holds(a, id)
    }

    /// The smallest identifier of an artboard that holds a node under `id`.
    #[verifier::opaque]
    pub open spec fn first_artboard_of(&self, id: u128) -> u128 {
        choose|a: u128|
            #[trigger] self.artboard_holds(a, id) && forall|b: u128| #[trigger]
                self.artboard_holds(b, id) ==> a <= b
    }

    /// The node that a lookup of `id` finds: the one in the artboard with the
    /// smallest identifier among those that hold `id`.
    pub open spec fn spec_node(&self, id: u128) -> Option<N> {
        if self.holds(id) {
            Some(self.artboards@[self.first_artboard_of(id)].nodes@[id])
        } else {
            None
        }
    }

    /// Whether `after` is this document with `node` added to the active artboard.
    pub open spec fn spec_added(&self, after: Self, node: N) -> bool {
        let a = self.active_artboard_id;
        &&& after.active_artboard_id == self.active_artboard_id
        &&& after.selected_node_id == self.selected_node_id
        &&& if self.artboards@.contains_key(a) {
            &&& after.counter == self.counter + 1
            &&& after.artboards@ == self.artboards@.insert(a, after.artboards@[a])
            &&& after.artboards@[a].base == self.artboards@[a].base
            &&& after.artboards@[a].nodes@ == self.artboards@[a].nodes@.insert(node.spec_id(), node)
        } else {
            &&& after.counter == self.counter
            &&& after.artboards@ == self.artboards@
        }
    }

    /// Whether `after` is this document after selecting `id`.
    pub open spec fn spec_selected(&self, after: Self, id: Option<u128>) -> bool {
        let prev = self.selected_node_id;
        &&& after.counter == self.counter
        &&& after.active_artboard_id == self.active_artboard_id
        &&& after.selected_node_id == id
        &&& if id == prev {
            after.artboards@ == self.artboards@
        } else {
            &&& after.artboards@.dom() == self.artboards@.dom()
            &&& forall|a: u128| #[trigger]
                self.artboards@.contains_key(a) ==> {
                    &&& after.artboards@[a].base == self.artboards@[a].base
                    &&& after.artboards@[a].nodes@.dom() == self.artboards@[a].nodes@.dom()
                    &&& forall|k: u128| #[trigger]
                        self.artboards@[a].nodes@.contains_key(k) ==> selected_after(
                            self.artboards@[a].nodes@[k],
                            after.artboards@[a].nodes@[k],
                            k,
                            prev,
                            id,
                        )
                }
        }
    }

    /// Whether `after` is this document with the node that a lookup of `id`
    /// finds replaced by `node`; nothing changes when no artboard holds `id`.
    pub open spec fn spec_replaced(&self, after: Self, id: u128, node: N) -> bool {
        &&& after.counter == self.counter
        &&& after.active_artboard_id == self.active_artboard_id
        &&& after.selected_node_id == self.selected_node_id
        &&& if self.holds(id) {
            let a = self.first_artboard_of(id);
            &&& after.artboards@ == self.artboards@.insert(a, after.artboards@[a])
            &&& after.artboards@[a].base == self.artboards@[a].base
            &&& after.artboards@[a].nodes@ == self.artboards@[a].nodes@.insert(id, node)
        } else {
            after.artboards@ == self.artboards@
        }
    }

    /// A document with one empty artboard, which is active, under a random
    /// identifier; nothing is selected.
    pub fn new() -> (d: Self)
        ensures
            d.counter == 1,
            d.selected_node_id == None::<u128>,
            d.artboards@.dom() == set![d.active_artboard_id],
            (d.active_artboard_id >> 76u128) & 0xfu128 == 4,
            (d.active_artboard_id >> 62u128) & 0x3u128 == 2,
            is_new_artboard(d.artboards@[d.active_artboard_id], d.active_artboard_id),
    {
        let artboard_id = new_node_id();
        let mut artboards = BTreeMap::new();
        artboards.insert(artboard_id, RadiantGroupNode::new(artboard_id));
        proof {
            assert(artboards@.dom() =~= set![artboard_id]);
        }
        RadiantDocumentNode {
            counter: 1,
            artboards,
            active_artboard_id: artboard_id,
            selected_node_id: None,
        }
    }

    /// Whether `after` is this document with one more artboard: an empty one
    /// under an identifier that no artboard had, with the version and variant
    /// bits of a random identifier; every other artboard stays as it was.
    pub open spec fn spec_artboard_added(&self, after: Self) -> bool {
        &&& after.counter == self.counter + 1
        &&& after.active_artboard_id == self.active_artboard_id
        &&& after.selected_node_id == self.selected_node_id
        &&& after.artboards@.len() == self.artboards@.len() + 1
        &&& exists|id: u128|
            {
                &&& !self.artboards@.contains_key(id)
                &&& #[trigger] after.artboards@.contains_key(id)
                &&& (id >> 76u128) & 0xfu128 == 4
                &&& (id >> 62u128) & 0x3u128 == 2
                &&& is_new_artboard(after.artboards@[id], id)
                &&& after.artboards@ == self.artboards@.insert(id, after.artboards@[id])
            }
    }

    /// Adds an empty artboard under a random identifier; the active artboard
    /// stays as it was. Should the identifier drawn be taken already, the
    /// first free one among the spare identifiers is used, so that no
    /// artboard is ever replaced.
    pub fn add_artboard(&mut self)
        requires
            old(self).counter < u64::MAX,
        ensures
            old(self).spec_artboard_added(*final(self)),
    {
        let drawn = new_node_id();
        let id = if self.artboards.contains_key(&drawn) {
            free_artboard_id(&self.artboards)
        } else {
            drawn
        };
        self.artboards.insert(id, RadiantGroupNode::new(id));
        self.counter = self.counter + 1;
        proof {
            vstd::std_specs::btree::axiom_btree_map_view_finite_dom(old(self).artboards);
            assert(self.artboards@.contains_key(id));
            assert(self.artboards@.dom() =~= old(self).artboards@.dom().insert(id));
        }
    }

    /// Adds `node` to the active artboard under the node's identifier; when no
    /// artboard is active nothing changes. The result says whether it was added.
    pub fn add(&mut self, node: N) -> (added: bool)
        requires
            old(self).artboards@.contains_key(old(self).active_artboard_id) ==> old(self).counter
                < u64::MAX,
        ensures
            added == old(self).artboards@.contains_key(old(self).active_artboard_id),
            old(self).spec_added(*final(self), node),
    {
        let active = self.active_artboard_id;
        match btree_get_mut(&mut self.artboards, active) {
            Some(artboard) => {
                artboard.add(node);
                self.counter = self.counter + 1;
                true
            },
            None => false,
        }
    }

    /// Selects the node under `id`, or nothing when `id` is `None`: the node
    /// selected before is deselected and the new one selected, in every
    /// artboard, and each of them marked to be drawn again. Selecting what is
    /// already selected changes nothing.
    pub fn select(&mut self, id: Option<u128>)
        ensures
            old(self).spec_selected(*final(self), id),
    {
        let prev = self.selected_node_id;
        let same = match (prev, id) {
            (Some(p), Some(n)) => p == n,
            (None, None) => true,
            _ => false,
        };
        if same {
            return;
        }
        let keys = sorted_keys(&self.artboards);
        let ghost before = self.artboards@;
        let mut i: usize = 0;
        while i < keys.len()
            invariant
                keys@.to_set() == before.dom(),
                strictly_increasing(keys@),
                0 <= i <= keys@.len(),
                prev != id,
                before == old(self).artboards@,
                prev == old(self).selected_node_id,
                self.counter == old(self).counter,
                self.active_artboard_id == old(self).active_artboard_id,
                self.selected_node_id == old(self).selected_node_id,
                self.artboards@.dom() == before.dom(),
                forall|j: int| i <= j < keys@.len() ==> self.artboards@[#[trigger] keys@[j]]
                    == before[keys@[j]],
                forall|j: int| 0 <= j < i ==> artboard_selected_after(
                    before[#[trigger] keys@[j]],
                    self.artboards@[keys@[j]],
                    prev,
                    id,
                ),
            decreases keys@.len() - i,
        {
            let k = keys[i];
            assert(keys@.to_set().contains(k));
            match btree_get_mut(&mut self.artboards, k) {
                Some(artboard) => {
                    let ghost start = *artboard;
                    match prev {
                        Some(p) => set_selected_in(artboard, p, false),
                        None => {},
                    }
                    let ghost middle = *artboard;
                    match id {
                        Some(n) => set_selected_in(artboard, n, true),
                        None => {},
                    }
                    proof {
                        assert(artboard_selected_after(start, *artboard, prev, id)) by {
                            assert(artboard.nodes@.dom() =~= start.nodes@.dom());
                        }
                    }
                },
                None => {},
            }
            i = i + 1;
        }
        self.selected_node_id = id;
        proof {
            assert forall|a: u128| #[trigger] before.contains_key(a) implies artboard_selected_after(
                before[a],
                self.artboards@[a],
                prev,
                id,
            ) by {
                assert(keys@.to_set().contains(a));
                let j = choose|j: int| 0 <= j < keys@.len() && keys@[j] == a;
            }
        }
    }

    pub fn set_active_artboard(&mut self, id: u128)
        ensures
            final(self).active_artboard_id == id,
            final(self).counter == old(self).counter,
            final(self).artboards@ == old(self).artboards@,
            final(self).selected_node_id == old(self).selected_node_id,
    {
        self.active_artboard_id = id;
    }

    pub fn get_active_artboard(&self) -> (r: Option<&RadiantGroupNode<N>>)
        ensures
            match r {
                Some(g) => self.artboards@.contains_key(self.active_artboard_id) && *g
                    == self.artboards@[self.active_artboard_id],
                None => !self.artboards@.contains_key(self.active_artboard_id),
            },
    {
        self.artboards.get(&self.active_artboard_id)
    }

    /// The position, in `keys`, of the first artboard that holds `id`.
    fn find_artboard(&self, keys: &Vec<u128>, id: u128) -> (r: Option<usize>)
        requires
            keys@.to_set() == self.artboards@.dom(),
            strictly_increasing(keys@),
        ensures
            match r {
                Some(i) => {
                    &&& i < keys@.len()
                    &&& self.holds(id)
                    &&& self.artboard_holds(keys@[i as int], id)
                    &&& keys@[i as int] == self.first_artboard_of(id)
                },
                None => !self.holds(id),
            },
    {
        reveal(RadiantDocumentNode::holds);
        reveal(RadiantDocumentNode::first_artboard_of);
        let mut i: usize = 0;
        while i < keys.len()
            invariant
                keys@.to_set() == self.artboards@.dom(),
                strictly_increasing(keys@),
                0 <= i <= keys@.len(),
                forall|j: int| 0 <= j < i ==> !self.artboard_holds(#[trigger] keys@[j], id),
            decreases keys@.len() - i,
        {
            let k = keys[i];
            assert(keys@.to_set().contains(k));
            let artboard = self.artboards.get(&k).unwrap();
            if artboard.get_node(id).is_some() {
                proof {
                    reveal(RadiantDocumentNode::holds);
                    reveal(RadiantDocumentNode::first_artboard_of);
                    assert(self.artboard_holds(k, id));
                    assert forall|b: u128| #[trigger] self.artboard_holds(b, id) implies k <= b by {
                        assert(keys@.to_set().contains(b));
                        let j = choose|j: int| 0 <= j < keys@.len() && keys@[j] == b;
                        if j < i {
                        } else if j > i {
                        }
                    }
                    assert(self.artboard_holds(k, id) && forall|b: u128| #[trigger]
                        self.artboard_holds(b, id) ==> k <= b);
                    let a = self.first_artboard_of(id);
                    assert(self.artboard_holds(a, id) && forall|b: u128| #[trigger]
                        self.artboard_holds(b, id) ==> a <= b);
                    assert(a <= k && k <= a);
                }
                return Some(i);
            }
            i = i + 1;
        }
        proof {
            assert forall|a: u128| !#[trigger] self.artboard_holds(a, id) by {
                if self.artboard_holds(a, id) {
                    assert(keys@.to_set().contains(a));
                    let j = choose|j: int| 0 <= j < keys@.len() && keys@[j] == a;
                }
            }
        }
        None
    }

    /// The node under `id`, looked up in the artboards in the order of their
    /// identifiers.
    pub fn get_node(&self, id: u128) -> (r: Option<&N>)
        ensures
            match r {
                Some(n) => self.spec_node(id) == Some(*n),
                None => self.spec_node(id) == None::<N>,
            },
    {
        let keys = sorted_keys(&self.artboards);
        match self.find_artboard(&keys, id) {
            Some(i) => {
                let k = keys[i];
                let artboard = self.artboards.get(&k).unwrap();
                artboard.get_node(id)
            },
            None => None,
        }
    }

    /// A mutable borrow of the node that `get_node` finds; what is written
    /// through it replaces that node, and nothing else changes.
    pub fn get_node_mut(&mut self, id: u128) -> (r: Option<&mut N>)
        ensures
            match r {
                Some(n) => {
                    &&& old(self).spec_node(id) == Some(*n)
                    &&& old(self).spec_replaced(*final(self), id, *final(n))
                },
                None => {
                    &&& old(self).spec_node(id) == None::<N>
                    &&& final(self).counter == old(self).counter
                    &&& final(self).active_artboard_id == old(self).active_artboard_id
                    &&& final(self).selected_node_id == old(self).selected_node_id
                    &&& final(self).artboards@ == old(self).artboards@
                },
            },
    {
        let keys = sorted_keys(&self.artboards);
        match self.find_artboard(&keys, id) {
            Some(i) => {
                let k = keys[i];
                        match btree_get_mut(&mut self.artboards, k) {
                    Some(artboard) => artboard.get_node_mut(id),
                    None => None,
                }
            },
            None => None,
        }
    }

    /// Puts `node` in place of the node that a lookup of `id` finds; does
    /// nothing when no artboard holds `id`.
    pub fn replace_node(&mut self, id: u128, node: N)
        ensures
            old(self).spec_replaced(*final(self), id, node),
    {
        match self.get_node_mut(id) {
            Some(n) => {
                *n = node;
            },
            None => {},
        }
    }
}

/// The positions, in order, of the listeners to tell that a node was added:
/// every listener but the one whose identifier is `exclude`.
pub fn listeners_to_notify(listener_ids: &Vec<u128>, exclude: Option<u128>) -> (r: Vec<usize>)
    ensures
        forall|i: int, j: int| 0 <= i < j < r@.len() ==> r@[i] < r@[j],
        forall|i: int|
            0 <= i < r@.len() ==> #[trigger] r@[i] < listener_ids@.len() && exclude != Some(
                listener_ids@[r@[i] as int],
            ),
        forall|j: int|
            0 <= j < listener_ids@.len() && exclude != Some(#[trigger] listener_ids@[j])
                ==> r@.contains(j as usize),
{
    let mut r: Vec<usize> = Vec::new();
    let mut j: usize = 0;
    while j < listener_ids.len()
        invariant
            0 <= j <= listener_ids@.len(),
            forall|a: int, b: int| 0 <= a < b < r@.len() ==> r@[a] < r@[b],
            forall|a: int| 0 <= a < r@.len() ==> #[trigger] r@[a] < j,
            forall|a: int|
                0 <= a < r@.len() ==> exclude != Some(#[trigger] listener_ids@[r@[a] as int]),
            forall|k: int|
                0 <= k < j && exclude != Some(#[trigger] listener_ids@[k]) ==> r@.contains(
                    k as usize,
                ),
        decreases listener_ids@.len() - j,
    {
        let ghost old_r = r@;
        let keep = match exclude {
            Some(id) => listener_ids[j] != id,
            None => true,
        };
        if keep {
            r.push(j);
            assert(r@[r@.len() - 1] == j);
        }
        proof {
            assert forall|k: int|
                0 <= k < j + 1 && exclude != Some(#[trigger] listener_ids@[k]) implies r@.contains(
                k as usize,
            ) by {
                if k == j {
                    assert(r@[r@.len() - 1] == j);
                } else {
                    assert(old_r.contains(k as usize));
                    let idx = choose|idx: int| 0 <= idx < old_r.len() && old_r[idx] == k as usize;
                    assert(r@[idx] == k as usize);
                }
            }
        }
        j = j + 1;
    }
    r
}

/// The node found under `id` is the one in `artboard`, when `artboard` holds
/// `id` and no artboard with a smaller identifier does.
proof fn lemma_found_in<N: RadiantNode>(d: RadiantDocumentNode<N>, id: u128, artboard: u128)
    requires
        d.artboard_holds(artboard, id),
        forall|b: u128| #[trigger] d.artboard_holds(b, id) ==> artboard <= b,
    ensures
        d.holds(id),
        d.first_artboard_of(id) == artboard,
        d.spec_node(id) == Some(d.artboards@[artboard].nodes@[id]),
{
    reveal(RadiantDocumentNode::holds);
    reveal(RadiantDocumentNode::first_artboard_of);
    let a = d.first_artboard_of(id);
    assert(d.artboard_holds(a, id) && forall|b: u128| #[trigger] d.artboard_holds(b, id) ==> a <= b);
}

/// The artboard found for `id` holds `id`, and no artboard with a smaller
/// identifier does.
pub proof fn lemma_first_is_least<N: RadiantNode>(d: RadiantDocumentNode<N>, id: u128)
    requires
        d.holds(id),
    ensures
        d.artboard_holds(d.first_artboard_of(id), id),
        forall|b: u128| #[trigger] d.artboard_holds(b, id) ==> d.first_artboard_of(id) <= b,
{
    reveal(RadiantDocumentNode::holds);
    reveal(RadiantDocumentNode::first_artboard_of);
    let w = choose|a: u128| #[trigger] d.artboard_holds(a, id);
    lemma_least_holder_exists(d, id, w);
}

/// Among the artboards that hold `id` there is one with the smallest identifier.
proof fn lemma_least_holder_exists<N: RadiantNode>(d: RadiantDocumentNode<N>, id: u128, w: u128)
    requires
        d.artboard_holds(w, id),
    ensures
        exists|a: u128|
            #[trigger] d.artboard_holds(a, id) && forall|b: u128| #[trigger]
                d.artboard_holds(b, id) ==> a <= b,
    decreases w,
{
    if exists|b: u128| #[trigger] d.artboard_holds(b, id) && b < w {
        let b = choose|b: u128| #[trigger] d.artboard_holds(b, id) && b < w;
        lemma_least_holder_exists(d, id, b);
    } else {
        assert(d.artboard_holds(w, id) && forall|b: u128| #[trigger] d.artboard_holds(b, id) ==> w <= b);
    }
}

/// A node added to the active artboard is what a lookup of its identifier
/// finds afterwards, unless an artboard with a smaller identifier also holds
/// that identifier.
pub proof fn lemma_add_then_get<N: RadiantNode>(
    before: RadiantDocumentNode<N>,
    after: RadiantDocumentNode<N>,
    node: N,
)
    requires
        before.spec_added(after, node),
        before.artboards@.contains_key(before.active_artboard_id),
        forall|b: u128| #[trigger]
            before.artboard_holds(b, node.spec_id()) ==> before.active_artboard_id <= b,
    ensures
        after.spec_node(node.spec_id()) == Some(node),
{
    let a = before.active_artboard_id;
    assert(after.artboard_holds(a, node.spec_id()));
    assert forall|b: u128| #[trigger] after.artboard_holds(b, node.spec_id()) implies a <= b by {
        if b != a {
            assert(before.artboard_holds(b, node.spec_id()));
        }
    }
    lemma_found_in(after, node.spec_id(), a);
}

/// After a node found under `id` is replaced, the same artboard is found for
/// `id` and the lookup finds the node written there.
pub proof fn lemma_replaced_found<N: RadiantNode>(
    before: RadiantDocumentNode<N>,
    after: RadiantDocumentNode<N>,
    id: u128,
)
    requires
        before.holds(id),
        before.spec_replaced(
            after,
            id,
            after.artboards@[before.first_artboard_of(id)].nodes@[id],
        ),
    ensures
        after.holds(id),
        after.first_artboard_of(id) == before.first_artboard_of(id),
        after.spec_node(id) == Some(after.artboards@[before.first_artboard_of(id)].nodes@[id]),
{
    lemma_first_is_least(before, id);
    let a = before.first_artboard_of(id);
    assert(after.artboard_holds(a, id));
    assert forall|b: u128| #[trigger] after.artboard_holds(b, id) implies a <= b by {
        if b != a {
            assert(before.artboard_holds(b, id));
        }
    }
    lemma_found_in(after, id, a);
}

/// Writing a node in place of the one found under `id` makes a lookup of
/// `id` find the new node.
pub proof fn lemma_replace_then_get<N: RadiantNode>(
    before: RadiantDocumentNode<N>,
    after: RadiantDocumentNode<N>,
    id: u128,
    node: N,
)
    requires
        before.spec_replaced(after, id, node),
        before.holds(id),
    ensures
        after.spec_node(id) == Some(node),
{
    lemma_first_is_least(before, id);
    let a = before.first_artboard_of(id);
    assert(after.artboard_holds(a, id));
    assert forall|b: u128| #[trigger] after.artboard_holds(b, id) implies a <= b by {
        if b != a {
            assert(before.artboard_holds(b, id));
        }
    }
    lemma_found_in(after, id, a);
}

/// After selecting `id` in place of another node, the node found under `id`
/// is selected, if it has a selection component, keeps its identifier and
/// colors, and is marked to be drawn again.
pub proof fn lemma_select_then_selected<N: RadiantNode>(
    before: RadiantDocumentNode<N>,
    after: RadiantDocumentNode<N>,
    id: u128,
)
    requires
        before.spec_selected(after, Some(id)),
        before.selected_node_id != Some(id),
        before.holds(id),
        before.spec_node(id).unwrap().spec_selection() is Some,
    ensures
        after.selected_node_id == Some(id),
        after.holds(id),
        after.spec_node(id).unwrap().spec_id() == before.spec_node(id).unwrap().spec_id(),
        after.spec_node(id).unwrap().spec_selection() == Some(SelectionComponent::spec_with(true)),
        after.spec_node(id).unwrap().spec_selection().unwrap()@,
        after.spec_node(id).unwrap().spec_color() == before.spec_node(id).unwrap().spec_color(),
        after.spec_node(id).unwrap().spec_needs_tessellation(),
{
    SelectionComponent::lemma_with_view(true);
    lemma_first_is_least(before, id);
    let a = before.first_artboard_of(id);
    assert(after.artboard_holds(a, id));
    assert forall|b: u128| #[trigger] after.artboard_holds(b, id) implies a <= b by {
        assert(before.artboard_holds(b, id));
    }
    lemma_found_in(after, id, a);
}

/// After selecting something else, the node that was selected before is
/// found deselected, if it has a selection component, keeps its identifier
/// and colors, and is marked to be drawn again, so that it is shown without
/// its highlight.
pub proof fn lemma_select_deselects_previous<N: RadiantNode>(
    before: RadiantDocumentNode<N>,
    after: RadiantDocumentNode<N>,
    id: Option<u128>,
    prev: u128,
)
    requires
        before.spec_selected(after, id),
        before.selected_node_id == Some(prev),
        id != Some(prev),
        before.holds(prev),
        before.spec_node(prev).unwrap().spec_selection() is Some,
    ensures
        after.holds(prev),
        after.spec_node(prev).unwrap().spec_id() == before.spec_node(prev).unwrap().spec_id(),
        after.spec_node(prev).unwrap().spec_selection() == Some(SelectionComponent::spec_with(false)),
        !after.spec_node(prev).unwrap().spec_selection().unwrap()@,
        after.spec_node(prev).unwrap().spec_color() == before.spec_node(prev).unwrap().spec_color(),
        after.spec_node(prev).unwrap().spec_needs_tessellation(),
{
    SelectionComponent::lemma_with_view(false);
    lemma_first_is_least(before, prev);
    let a = before.first_artboard_of(prev);
    assert(after.artboard_holds(a, prev));
    assert forall|b: u128| #[trigger] after.artboard_holds(b, prev) implies a <= b by {
        assert(before.artboard_holds(b, prev));
    }
    lemma_found_in(after, prev, a);
}

/// Adding an artboard keeps every artboard that was there, unchanged, and
/// makes one more: an empty one under an identifier that was not taken.
pub proof fn lemma_add_artboard_keeps<N: RadiantNode>(
    before: RadiantDocumentNode<N>,
    after: RadiantDocumentNode<N>,
)
    requires
        before.spec_artboard_added(after),
    ensures
        forall|a: u128| #[trigger]
            before.artboards@.contains_key(a) ==> after.artboards@.contains_key(a)
                && after.artboards@[a] == before.artboards@[a],
        after.artboards@.len() == before.artboards@.len() + 1,
        exists|id: u128|
            !before.artboards@.contains_key(id) && #[trigger] after.artboards@.contains_key(id)
                && after.artboards@[id].nodes@.is_empty(),
        after.active_artboard_id == before.active_artboard_id,
        after.selected_node_id == before.selected_node_id,
        forall|x: u128| #[trigger]
            before.artboard_holds(before.active_artboard_id, x) ==> after.artboard_holds(
                after.active_artboard_id,
                x,
            ),
{
    let id = choose|id: u128|
        {
            &&& !before.artboards@.contains_key(id)
            &&& #[trigger] after.artboards@.contains_key(id)
            &&& (id >> 76u128) & 0xfu128 == 4
            &&& (id >> 62u128) & 0x3u128 == 2
            &&& is_new_artboard(after.artboards@[id], id)
            &&& after.artboards@ == before.artboards@.insert(id, after.artboards@[id])
        };
    assert(after.artboards@[id].nodes@.is_empty());
}

/// Replacing the node found under `id` leaves what a lookup of any other
/// identifier finds as it was.
pub proof fn lemma_replace_keeps_others<N: RadiantNode>(
    before: RadiantDocumentNode<N>,
    after: RadiantDocumentNode<N>,
    id: u128,
    node: N,
    k: u128,
)
    requires
        before.spec_replaced(after, id, node),
        k != id,
    ensures
        after.spec_node(k) == before.spec_node(k),
{
    reveal(RadiantDocumentNode::holds);
    if before.holds(id) {
        lemma_first_is_least(before, id);
    }
    assert forall|b: u128| #[trigger]
        after.artboard_holds(b, k) == before.artboard_holds(b, k) by {
        if before.holds(id) && b == before.first_artboard_of(id) {
            assert(after.artboards@[b].nodes@.contains_key(k) == before.artboards@[b].nodes@.contains_key(k));
        }
    }
    if before.holds(k) {
        lemma_first_is_least(before, k);
        let fb = before.first_artboard_of(k);
        assert(after.artboard_holds(fb, k));
        assert(after.holds(k));
        lemma_first_is_least(after, k);
        let fa = after.first_artboard_of(k);
        assert(before.artboard_holds(fa, k));
        assert(fa == fb);
    } else {
        assert forall|b: u128| !#[trigger] after.artboard_holds(b, k) by {
            if after.artboard_holds(b, k) {
                assert(before.artboard_holds(b, k));
            }
        }
        assert(!after.holds(k));
    }
}

/// Selecting neither adds nor removes a node: an identifier is held by the
/// same artboards before and after.
pub proof fn lemma_select_keeps_nodes<N: RadiantNode>(
    before: RadiantDocumentNode<N>,
    after: RadiantDocumentNode<N>,
    id: Option<u128>,
    k: u128,
)
    requires
        before.spec_selected(after, id),
    ensures
        forall|a: u128| #[trigger] after.artboard_holds(a, k) == before.artboard_holds(a, k),
        after.holds(k) == before.holds(k),
{
    reveal(RadiantDocumentNode::holds);
    assert forall|a: u128| #[trigger] after.artboard_holds(a, k) == before.artboard_holds(a, k) by {
        if before.artboards@.contains_key(a) && id != before.selected_node_id {
            assert(after.artboards@[a].nodes@.dom() == before.artboards@[a].nodes@.dom());
        }
    }
    if before.holds(k) {
        let a = choose|a: u128| #[trigger] before.artboard_holds(a, k);
        assert(after.artboard_holds(a, k));
    }
    if after.holds(k) {
        let a = choose|a: u128| #[trigger] after.artboard_holds(a, k);
        assert(before.artboard_holds(a, k));
    }
}

/// Selecting leaves every node under an identifier other than the one
/// selected before and the one selected now as it was.
pub proof fn lemma_select_leaves_others<N: RadiantNode>(
    before: RadiantDocumentNode<N>,
    after: RadiantDocumentNode<N>,
    id: Option<u128>,
    k: u128,
)
    requires
        before.spec_selected(after, id),
        id != Some(k),
        before.selected_node_id != Some(k),
    ensures
        after.spec_node(k) == before.spec_node(k),
{
    lemma_select_keeps_nodes(before, after, id, k);
    if before.holds(k) {
        lemma_first_is_least(before, k);
        lemma_first_is_least(after, k);
        let fb = before.first_artboard_of(k);
        let fa = after.first_artboard_of(k);
        assert(after.artboard_holds(fb, k));
        assert(before.artboard_holds(fa, k));
        assert(fa == fb);
    }
}

/// Selecting the same thing twice does no more than selecting it once.
pub proof fn lemma_select_idempotent<N: RadiantNode>(
    first: RadiantDocumentNode<N>,
    second: RadiantDocumentNode<N>,
    third: RadiantDocumentNode<N>,
    id: Option<u128>,
)
    requires
        first.spec_selected(second, id),
        second.spec_selected(third, id),
    ensures
        third.counter == second.counter,
        third.active_artboard_id == second.active_artboard_id,
        third.selected_node_id == second.selected_node_id,
        third.artboards@ == second.artboards@,
{
}

} // verus!
