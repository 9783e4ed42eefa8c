use vstd::prelude::*;

use crate::components::{ColorComponent, SelectionComponent};

verus! {

/// A fresh random node identifier: `uuid::Uuid::new_v4()` taken as its
/// 128-bit value. The value is random; what holds of every outcome is that the
/// version nibble is 4 and the variant bits are `10`, as the uuid source sets them.
#[verifier::external_body]
pub(crate) fn new_node_id() -> (id: u128)
    ensures
        (id >> 76u128) & 0xfu128 == 4,
        (id >> 62u128) & 0x3u128 == 2,
{
    uuid::Uuid::new_v4().as_u128()
}

/// The keys that a node can be asked to handle.
#[derive(Debug)]
pub enum KeyCode {
    Backspace,
    Delete,
    Enter,
    Escape,
    Space,
    Tab,
    ArrowDown,
    ArrowLeft,
    ArrowRight,
    ArrowUp,
    Char(String),
}

impl Clone for KeyCode {
    fn clone(&self) -> (k: Self)
        ensures
            k == *self,
    {
        match self {
            KeyCode::Backspace => KeyCode::Backspace,
            KeyCode::Delete => KeyCode::Delete,
            KeyCode::Enter => KeyCode::Enter,
            KeyCode::Escape => KeyCode::Escape,
            KeyCode::Space => KeyCode::Space,
            KeyCode::Tab => KeyCode::Tab,
            KeyCode::ArrowDown => KeyCode::ArrowDown,
            KeyCode::ArrowLeft => KeyCode::ArrowLeft,
            KeyCode::ArrowRight => KeyCode::ArrowRight,
            KeyCode::ArrowUp => KeyCode::ArrowUp,
            KeyCode::Char(s) => KeyCode::Char(s.clone()),
        }
    }
}

/// A node of a document, as the document's logic sees it: an identifier,
/// possibly a selection and a color component, a mark that it must be drawn
/// again, and a reaction to keys.
pub trait RadiantNode: Sized {
    /// The node's identifier.
    spec fn spec_id(&self) -> u128;

    /// The node's selection component, if it has one.
    spec fn spec_selection(&self) -> Option<SelectionComponent>;

    /// The node's color component, if it has one.
    spec fn spec_color(&self) -> Option<ColorComponent>;

    /// Whether the node is marked to be drawn again.
    spec fn spec_needs_tessellation(&self) -> bool;

    /// Whether the node, in this state, reacts to `key`.
    spec fn spec_handles_key(&self, key: KeyCode) -> bool;

    fn get_id(&self) -> (id: u128)
        ensures
            id == self.spec_id(),
    ;

    fn set_id(&mut self, id: u128)
        ensures
            final(self).spec_id() == id,
            final(self).spec_selection() == old(self).spec_selection(),
            final(self).spec_color() == old(self).spec_color(),
    ;

    fn get_selection(&self) -> (c: Option<SelectionComponent>)
        ensures
            c == self.spec_selection(),
    ;

    /// Replaces the selection component, if the node has one.
    fn set_selection(&mut self, c: SelectionComponent)
        ensures
            final(self).spec_id() == old(self).spec_id(),
            final(self).spec_selection() == (if old(self).spec_selection() is Some {
                Some(c)
            } else {
                None
            }),
            final(self).spec_color() == old(self).spec_color(),
    ;

    fn get_color(&self) -> (c: Option<ColorComponent>)
        ensures
            c == self.spec_color(),
    ;

    /// Replaces the color component, if the node has one.
    fn set_color(&mut self, c: ColorComponent)
        ensures
            final(self).spec_id() == old(self).spec_id(),
            final(self).spec_selection() == old(self).spec_selection(),
            final(self).spec_color() == (if old(self).spec_color() is Some {
                Some(c)
            } else {
                None
            }),
    ;

    /// Marks the node to be drawn again; `notify` asks it to tell its observers.
    fn set_needs_tessellation(&mut self, notify: bool)
        ensures
            final(self).spec_id() == old(self).spec_id(),
            final(self).spec_selection() == old(self).spec_selection(),
            final(self).spec_color() == old(self).spec_color(),
            final(self).spec_needs_tessellation(),
    ;

    /// Lets the node react to `key`; the result says whether it did. A node
    /// that does not react keeps its colors and its mark for drawing.
    fn handle_key_down(&mut self, key: KeyCode) -> (handled: bool)
        ensures
            handled == old(self).spec_handles_key(key),
            final(self).spec_id() == old(self).spec_id(),
            final(self).spec_selection() == old(self).spec_selection(),
            !handled ==> final(self).spec_color() == old(self).spec_color()
                && final(self).spec_needs_tessellation() == old(self).spec_needs_tessellation(),
    ;
}

/// The state that every node carries: its identifier, its selection and
/// color components, and whether it must be drawn again.
#[derive(Debug, Clone, Copy, PartialEq, Eq, Structural)]
pub struct BaseNode {
    pub id: u128,
    pub selection: SelectionComponent,
    pub color: ColorComponent,
    pub needs_tessellation: bool,
}

impl BaseNode {
    /// The base of a node created under `id`.
    pub open spec fn spec_new(id: u128) -> BaseNode {
        BaseNode {
            id,
            selection: SelectionComponent::spec_new(),
            color: ColorComponent::spec_new(),
            needs_tessellation: true,
        }
    }

    /// An unselected node with the default colors, waiting to be drawn.
    pub fn new(id: u128) -> (b: BaseNode)
        ensures
            b == BaseNode::spec_new(id),
    {
        BaseNode {
            id,
            selection: SelectionComponent::new(),
            color: ColorComponent::new(),
            needs_tessellation: true,
        }
    }

    pub fn set_needs_tessellation(&mut self)
        ensures
            *final(self) == (BaseNode { needs_tessellation: true, ..*old(self) }),
    {
        self.needs_tessellation = true;
    }
}

impl RadiantNode for BaseNode {
    open spec fn spec_id(&self) -> u128 {
        self.id
    }

    open spec fn spec_selection(&self) -> Option<SelectionComponent> {
        Some(self.selection)
    }

    open spec fn spec_color(&self) -> Option<ColorComponent> {
        Some(self.color)
    }

    open spec fn spec_needs_tessellation(&self) -> bool {
        self.needs_tessellation
    }

    open spec fn spec_handles_key(&self, key: KeyCode) -> bool {
        false
    }

    fn get_id(&self) -> (id: u128) {
        self.id
    }

    fn set_id(&mut self, id: u128)
        ensures
            *final(self) == (BaseNode { id, ..*old(self) }),
    {
        self.id = id;
    }

    fn get_selection(&self) -> (c: Option<SelectionComponent>) {
        Some(self.selection)
    }

    fn set_selection(&mut self, c: SelectionComponent)
        ensures
            *final(self) == (BaseNode { selection: c, ..*old(self) }),
    {
        self.selection = c;
    }

    fn get_color(&self) -> (c: Option<ColorComponent>) {
        Some(self.color)
    }

    fn set_color(&mut self, c: ColorComponent)
        ensures
            *final(self) == (BaseNode { color: c, ..*old(self) }),
    {
        self.color = c;
    }

    fn set_needs_tessellation(&mut self, notify: bool)
        ensures
            *final(self) == (BaseNode { needs_tessellation: true, ..*old(self) }),
    {
        self.needs_tessellation = true;
    }

    fn handle_key_down(&mut self, key: KeyCode) -> (handled: bool)
        ensures
            *final(self) == *old(self),
    {
        false
    }
}

} // verus!
