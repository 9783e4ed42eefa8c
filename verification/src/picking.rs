use std::collections::HashMap;
use vstd::prelude::*;

use crate::components::Color32;

verus! {

/// Colors handed out before they start to repeat: the low 24 bits of the count.
pub const DISTINCT_COLORS: u64 = 0x100_0000;

/// The color given to the `n`-th node: the low three bytes of `n` as red,
/// green and blue, fully opaque.
pub open spec fn color_for_count(n: u64) -> Color32 {
    Color32::spec_from_rgb(
        (n & 0xff) as u8,
        ((n >> 8u64) & 0xff) as u8,
        ((n >> 16u64) & 0xff) as u8,
    )
}

/// The four bytes of a color packed into one number, red lowest.
pub open spec fn color_key(c: Color32) -> u32 {
    (c.r as u32) | ((c.g as u32) << 8u32) | ((c.b as u32) << 16u32) | ((c.a as u32) << 24u32)
}

/// Different colors have different keys.
pub proof fn lemma_color_key_injective(c: Color32, d: Color32)
    ensures
        color_key(c) == color_key(d) <==> c == d,
{
    let (cr, cg, cb, ca) = (c.r, c.g, c.b, c.a);
    let (dr, dg, db, da) = (d.r, d.g, d.b, d.a);
    assert(((cr as u32) | ((cg as u32) << 8u32) | ((cb as u32) << 16u32) | ((ca as u32) << 24u32))
        == ((dr as u32) | ((dg as u32) << 8u32) | ((db as u32) << 16u32) | ((da as u32) << 24u32))
        ==> cr == dr && cg == dg && cb == db && ca == da) by (bit_vector);
}

/// No two counts from 1 to `DISTINCT_COLORS` give the same color.
pub proof fn lemma_color_for_count_injective(n: u64, m: u64)
    requires
        1 <= n <= DISTINCT_COLORS,
        1 <= m <= DISTINCT_COLORS,
        color_for_count(n) == color_for_count(m),
    ensures
        n == m,
{
    assert((n & 0xff) as u8 == (m & 0xff) as u8 && ((n >> 8u64) & 0xff) as u8 == ((m >> 8u64)
        & 0xff) as u8 && ((n >> 16u64) & 0xff) as u8 == ((m >> 16u64) & 0xff) as u8 && 1 <= n
        <= 0x100_0000 && 1 <= m <= 0x100_0000 ==> n == m) by (bit_vector);
}

fn color_key_of(c: Color32) -> (k: u32)
    ensures
        k == color_key(c),
{
    (c.r as u32) | ((c.g as u32) << 8u32) | ((c.b as u32) << 16u32) | ((c.a as u32) << 24u32)
}

/// Gives every node a color of its own, so that a picture drawn with these
/// colors tells which node lies under a pixel, and finds the node again from
/// a color.
pub struct NodeColorRegistry {
    counter: u64,
    node_to_colors: HashMap<u128, Color32>,
    color_to_nodes: HashMap<u32, u128>,
    /// The count at which each node got its color.
    counts: Ghost<Map<u128, u64>>,
}

impl NodeColorRegistry {
    /// The two maps agree with each other and with the counts at which the
    /// colors were handed out.
    pub closed spec fn wf(&self) -> bool {
        &&& self.counts@.dom() == self.node_to_colors@.dom()
        &&& forall|id: u128| #[trigger]
            self.node_to_colors@.contains_key(id) ==> {
                &&& 1 <= self.counts@[id] <= self.counter
                &&& self.node_to_colors@[id] == color_for_count(self.counts@[id])
                &&& self.color_to_nodes@.contains_key(color_key(self.node_to_colors@[id]))
            }
        &&& forall|a: u128, b: u128|
            #![trigger self.counts@[a], self.counts@[b]]
            self.counts@.contains_key(a) && self.counts@.contains_key(b) && self.counts@[a]
                == self.counts@[b] ==> a == b
        &&& forall|k: u32| #[trigger]
            self.color_to_nodes@.contains_key(k) ==> {
                &&& self.node_to_colors@.contains_key(self.color_to_nodes@[k])
                &&& color_key(self.node_to_colors@[self.color_to_nodes@[k]]) == k
            }
    }

    /// How many colors were handed out.
    pub closed spec fn spec_counter(&self) -> u64 {
        self.counter
    }

    /// The color of each node that has one.
    pub closed spec fn spec_colors(&self) -> Map<u128, Color32> {
        self.node_to_colors@
    }

    /// The node last given each color, by the color's key.
    pub closed spec fn spec_nodes(&self) -> Map<u32, u128> {
        self.color_to_nodes@
    }

    /// The node that `color` leads back to.
    pub open spec fn spec_node_for_color(&self, color: Color32) -> Option<u128> {
        if self.spec_nodes().contains_key(color_key(color)) {
            Some(self.spec_nodes()[color_key(color)])
        } else {
            None
        }
    }

    /// While no color has been handed out twice, every node's color leads
    /// back to that node.
    pub proof fn lemma_round_trip(&self, id: u128)
        requires
            self.wf(),
            self.spec_colors().contains_key(id),
            self.spec_counter() <= DISTINCT_COLORS,
        ensures
            self.spec_node_for_color(self.spec_colors()[id]) == Some(id),
    {
        let c = self.node_to_colors@[id];
        let k = color_key(c);
        let other = self.color_to_nodes@[k];
        lemma_color_key_injective(self.node_to_colors@[other], c);
        lemma_color_for_count_injective(self.counts@[other], self.counts@[id]);
    }

    /// Every key of the reverse table comes from the color of a node that
    /// has one, and leads back to such a node.
    pub proof fn lemma_nodes_from_colors(&self)
        requires
            self.wf(),
        ensures
            forall|k: u32| #[trigger]
                self.spec_nodes().contains_key(k) ==> {
                    &&& self.spec_colors().contains_key(self.spec_nodes()[k])
                    &&& color_key(self.spec_colors()[self.spec_nodes()[k]]) == k
                },
    {
    }

    /// A color that no node has leads back to no node.
    pub proof fn lemma_unknown_color(&self, color: Color32)
        requires
            self.wf(),
            forall|id: u128| #[trigger]
                self.spec_colors().contains_key(id) ==> self.spec_colors()[id] != color,
        ensures
            self.spec_node_for_color(color) == None::<u128>,
    {
        let k = color_key(color);
        if self.color_to_nodes@.contains_key(k) {
            let id = self.color_to_nodes@[k];
            lemma_color_key_injective(self.node_to_colors@[id], color);
            assert(self.spec_colors().contains_key(id));
            assert(self.spec_colors()[id] != color);
        }
    }

    /// Every color that a node has is the color of some count from 1 to the
    /// number of colors handed out.
    pub proof fn lemma_colors_are_counts(&self, id: u128)
        requires
            self.wf(),
            self.spec_colors().contains_key(id),
        ensures
            exists|n: u64|
                1 <= n <= self.spec_counter() && #[trigger] color_for_count(n) == self.spec_colors()[id],
    {
        let n = self.counts@[id];
        assert(1 <= n <= self.spec_counter() && color_for_count(n) == self.spec_colors()[id]);
    }

    /// Black is never handed out before the count wraps, so until then it
    /// leads back to no node.
    pub proof fn lemma_black_finds_nothing(&self)
        requires
            self.wf(),
            self.spec_counter() < DISTINCT_COLORS,
        ensures
            self.spec_node_for_color(Color32::spec_from_rgb(0, 0, 0)) == None::<u128>,
    {
        let black = Color32::spec_from_rgb(0, 0, 0);
        assert forall|id: u128| #[trigger]
            self.spec_colors().contains_key(id) implies self.spec_colors()[id] != black by {
            let n = self.counts@[id];
            assert(1 <= n < 0x100_0000 ==> !((n & 0xff) as u8 == 0 && ((n >> 8u64) & 0xff) as u8 == 0
                && ((n >> 16u64) & 0xff) as u8 == 0)) by (bit_vector);
        }
        self.lemma_unknown_color(black);
    }

    /// A registry that has handed out no colors.
    pub fn new() -> (r: Self)
        ensures
            r.wf(),
            r.spec_counter() == 0,
            r.spec_colors() == Map::<u128, Color32>::empty(),
            r.spec_nodes() == Map::<u32, u128>::empty(),
    {
        NodeColorRegistry {
            counter: 0,
            node_to_colors: HashMap::new(),
            color_to_nodes: HashMap::new(),
            counts: Ghost(Map::empty()),
        }
    }

    /// The color of `node_id`: the one it got before, or else the next one,
    /// which is then recorded in both directions.
    pub fn get_color_for_node(&mut self, node_id: u128) -> (color: Color32)
        requires
            old(self).wf(),
            old(self).spec_colors().contains_key(node_id) || old(self).spec_counter() < u64::MAX,
        ensures
            final(self).wf(),
            old(self).spec_colors().contains_key(node_id) ==> {
                &&& color == old(self).spec_colors()[node_id]
                &&& final(self).spec_counter() == old(self).spec_counter()
                &&& final(self).spec_colors() == old(self).spec_colors()
                &&& final(self).spec_nodes() == old(self).spec_nodes()
            },
            !old(self).spec_colors().contains_key(node_id) ==> {
                &&& final(self).spec_counter() == old(self).spec_counter() + 1
                &&& color == color_for_count(final(self).spec_counter())
                &&& final(self).spec_colors() == old(self).spec_colors().insert(node_id, color)
                &&& final(self).spec_nodes() == old(self).spec_nodes().insert(
                    color_key(color),
                    node_id,
                )
            },
            final(self).spec_counter() <= DISTINCT_COLORS ==> final(self).spec_node_for_color(color)
                == Some(node_id),
    {
        match self.node_to_colors.get(&node_id) {
            Some(color) => {
                let color = *color;
                proof {
                    if self.counter <= DISTINCT_COLORS {
                        self.lemma_round_trip(node_id);
                    }
                }
                return color;
            },
            None => {},
        }
        let c = self.counter + 1;
        let color = Color32::from_rgb(
            (c & 0xff) as u8,
            ((c >> 8u64) & 0xff) as u8,
            ((c >> 16u64) & 0xff) as u8,
        );
        let key = color_key_of(color);
        let ghost old_counts = self.counts@;
        let ghost old_colors = self.node_to_colors@;
        let ghost old_nodes = self.color_to_nodes@;
        proof {
            assert forall|id: u128| #[trigger] old_colors.contains_key(id) implies old_nodes.insert(
                key,
                node_id,
            ).contains_key(color_key(old_colors.insert(node_id, color)[id])) by {}
            assert forall|k: u32| #[trigger] old_nodes.insert(key, node_id).contains_key(k) implies {
                &&& old_colors.insert(node_id, color).contains_key(old_nodes.insert(key, node_id)[k])
                &&& color_key(old_colors.insert(node_id, color)[old_nodes.insert(key, node_id)[k]])
                    == k
            } by {}
        }
        self.counter = c;
        self.node_to_colors.insert(node_id, color);
        self.color_to_nodes.insert(key, node_id);
        self.counts = Ghost(self.counts@.insert(node_id, c));
        proof {
            assert(self.counts@.dom() =~= self.node_to_colors@.dom());
        }
        proof {
            if c <= DISTINCT_COLORS {
                self.lemma_round_trip(node_id);
            }
        }
        color
    }

    /// How many colors were handed out.
    pub fn counter(&self) -> (n: u64)
        ensures
            n == self.spec_counter(),
    {
        self.counter
    }

    /// The color that `node_id` got, if it got one.
    pub fn color_of(&self, node_id: u128) -> (c: Option<Color32>)
        ensures
            c == (if self.spec_colors().contains_key(node_id) {
                Some(self.spec_colors()[node_id])
            } else {
                None
            }),
    {
        match self.node_to_colors.get(&node_id) {
            Some(c) => Some(*c),
            None => None,
        }
    }

    /// The node that `color` was last given to, if any.
    pub fn get_node_for_color(&self, color: Color32) -> (id: Option<u128>)
        requires
            self.wf(),
        ensures
            id == self.spec_node_for_color(color),
    {
        let key = color_key_of(color);
        match self.color_to_nodes.get(&key) {
            Some(id) => Some(*id),
            None => None,
        }
    }
}

} // verus!
