use vstd::prelude::*;

verus! {

/// Marker for the parts that a node is made of.
pub trait RadiantComponent {}

/// A component that can be switched between selected and unselected.
pub trait RadiantSelectable: RadiantComponent {
    fn set_selected(&mut self, selected: bool);
}

/// Something that hands out its components by their type.
pub trait RadiantComponentProvider {
    fn get_component<T: RadiantComponent + 'static>(&self) -> Option<&T>;

    fn get_component_mut<T: RadiantComponent + 'static>(&mut self) -> Option<&mut T>;
}

/// Something that reacts to messages of type `M`.
pub trait RadiantMessageHandler<M> {
    fn handle_message(&mut self, message: M);
}

/// Whether a node is currently selected in the editor.
#[derive(Debug, Clone, Copy, PartialEq, Eq, Structural)]
pub struct SelectionComponent {
    selected: bool,
}

impl View for SelectionComponent {
    type V = bool;

    open spec fn view(&self) -> bool {
        self.spec_selected()
    }
}

impl SelectionComponent {
    pub closed spec fn spec_selected(&self) -> bool {
        self.selected
    }

    /// The component of a node that is not selected.
    pub open spec fn spec_new() -> SelectionComponent {
        SelectionComponent::spec_with(false)
    }

    /// The component whose state is `selected`.
    pub closed spec fn spec_with(selected: bool) -> SelectionComponent {
        SelectionComponent { selected }
    }

    /// The component made with `selected` reads `selected`.
    pub broadcast proof fn lemma_with_view(selected: bool)
        ensures
            (#[trigger] SelectionComponent::spec_with(selected))@ == selected,
    {
    }

    /// A fresh component starts out unselected.
    pub fn new() -> (c: Self)
        ensures
            c == SelectionComponent::spec_new(),
            !c@,
    {
        Self { selected: false }
    }

    pub fn is_selected(&self) -> (b: bool)
        ensures
            b == self@,
    {
        self.selected
    }

    pub fn set_selected(&mut self, selected: bool)
        ensures
            final(self)@ == selected,
            *final(self) == SelectionComponent::spec_with(selected),
    {
        self.selected = selected;
    }
}

impl RadiantSelectable for SelectionComponent {
    fn set_selected(&mut self, selected: bool)
        ensures
            final(self)@ == selected,
            *final(self) == SelectionComponent::spec_with(selected),
    {
        SelectionComponent::set_selected(self, selected);
    }
}

impl RadiantComponent for SelectionComponent {}

/// Messages that a selection component understands.
#[derive(Debug, Clone, Copy, PartialEq, Eq, Structural)]
pub enum SelectionMessage {
    SetSelected(bool),
}

impl RadiantMessageHandler<SelectionMessage> for SelectionComponent {
    fn handle_message(&mut self, message: SelectionMessage)
        ensures
            match message {
                SelectionMessage::SetSelected(selected) => final(self)@ == selected,
            },
    {
        match message {
            SelectionMessage::SetSelected(selected) => self.set_selected(selected),
        }
    }
}

/// A color as four bytes: red, green, blue and alpha.
#[derive(Debug, Clone, Copy, PartialEq, Eq, Structural)]
pub struct Color32 {
    pub r: u8,
    pub g: u8,
    pub b: u8,
    pub a: u8,
}

impl Color32 {
    /// An opaque color.
    pub open spec fn spec_from_rgb(r: u8, g: u8, b: u8) -> Color32 {
        Color32 { r, g, b, a: 255 }
    }

    pub fn from_rgb(r: u8, g: u8, b: u8) -> (c: Color32)
        ensures
            c == Color32::spec_from_rgb(r, g, b),
    {
        Color32 { r, g, b, a: 255 }
    }

    /// The color that shows nothing: all four bytes zero.
    pub fn transparent() -> (c: Color32)
        ensures
            c == (Color32 { r: 0, g: 0, b: 0, a: 0 }),
    {
        Color32 { r: 0, g: 0, b: 0, a: 0 }
    }

    pub fn light_red() -> (c: Color32)
        ensures
            c == Color32::spec_from_rgb(255, 128, 128),
    {
        Color32::from_rgb(255, 128, 128)
    }

    pub fn blue() -> (c: Color32)
        ensures
            c == Color32::spec_from_rgb(0, 0, 255),
    {
        Color32::from_rgb(0, 0, 255)
    }

    pub fn white() -> (c: Color32)
        ensures
            c == Color32::spec_from_rgb(255, 255, 255),
    {
        Color32::from_rgb(255, 255, 255)
    }

    /// The four bytes in the order red, green, blue, alpha.
    pub fn to_array(&self) -> (bytes: [u8; 4])
        ensures
            bytes@ == seq![self.r, self.g, self.b, self.a],
    {
        [self.r, self.g, self.b, self.a]
    }
}

/// The fill and stroke colors of a node.
#[derive(Debug, Clone, Copy, PartialEq, Eq, Structural)]
pub struct ColorComponent {
    fill_color: Color32,
    stroke_color: Color32,
}

impl ColorComponent {
    pub closed spec fn spec_fill(&self) -> Color32 {
        self.fill_color
    }

    pub closed spec fn spec_stroke(&self) -> Color32 {
        self.stroke_color
    }

    /// The component with the given fill and stroke.
    pub closed spec fn spec_with(fill: Color32, stroke: Color32) -> ColorComponent {
        ColorComponent { fill_color: fill, stroke_color: stroke }
    }

    pub broadcast proof fn lemma_with(fill: Color32, stroke: Color32)
        ensures
            #![trigger ColorComponent::spec_with(fill, stroke)]
            ColorComponent::spec_with(fill, stroke).spec_fill() == fill,
            ColorComponent::spec_with(fill, stroke).spec_stroke() == stroke,
    {
    }

    /// Light red fill, transparent stroke.
    pub open spec fn spec_new() -> ColorComponent {
        ColorComponent::spec_with(
            Color32::spec_from_rgb(255, 128, 128),
            Color32 { r: 0, g: 0, b: 0, a: 0 },
        )
    }

    /// A light red fill with no stroke.
    pub fn new() -> (c: Self)
        ensures
            c == ColorComponent::spec_new(),
            c.spec_fill() == Color32::spec_from_rgb(255, 128, 128),
            c.spec_stroke() == (Color32 { r: 0, g: 0, b: 0, a: 0 }),
    {
        Self { fill_color: Color32::light_red(), stroke_color: Color32::transparent() }
    }

    pub fn fill_color(&self) -> (c: Color32)
        ensures
            c == self.spec_fill(),
    {
        self.fill_color
    }

    pub fn stroke_color(&self) -> (c: Color32)
        ensures
            c == self.spec_stroke(),
    {
        self.stroke_color
    }

    pub fn set_fill_color(&mut self, color: Color32)
        ensures
            final(self).spec_fill() == color,
            final(self).spec_stroke() == old(self).spec_stroke(),
            *final(self) == ColorComponent::spec_with(color, old(self).spec_stroke()),
    {
        self.fill_color = color;
    }

    pub fn set_stroke_color(&mut self, color: Color32)
        ensures
            final(self).spec_stroke() == color,
            final(self).spec_fill() == old(self).spec_fill(),
            *final(self) == ColorComponent::spec_with(old(self).spec_fill(), color),
    {
        self.stroke_color = color;
    }
}

impl Default for ColorComponent {
    /// Both colors transparent.
    fn default() -> (c: Self)
        ensures
            c.spec_fill() == (Color32 { r: 0, g: 0, b: 0, a: 0 }),
            c.spec_stroke() == (Color32 { r: 0, g: 0, b: 0, a: 0 }),
    {
        Self { fill_color: Color32::transparent(), stroke_color: Color32::transparent() }
    }
}

impl RadiantComponent for ColorComponent {}

} // verus!
