use vstd::prelude::*;

use crate::components::{Color32, ColorComponent};
use crate::document::RadiantDocumentNode;
use crate::node::{KeyCode, RadiantNode};
use crate::tools::RadiantToolManager;

verus! {

/// The messages of a scene that change the document or the tools without
/// moving or resizing anything.
#[derive(Debug)]
pub enum SceneCommand {
    AddArtboard,
    SelectArtboard { id: u128 },
    SelectNode { id: Option<u128> },
    SetFillColor { id: u128, fill_color: Color32 },
    SetStrokeColor { id: u128, stroke_color: Color32 },
    SelectTool { id: u32 },
    HandleKey { id: Option<u128>, key: KeyCode },
}

/// What the drawing side must do with its bounding-box interaction after a
/// command: nothing, show it around a node (the node was just selected and is
/// to be drawn and reported), hide it, or fit it again to a node.
#[derive(Debug, Clone, Copy, PartialEq, Eq, Structural)]
pub enum InteractionUpdate {
    Keep,
    Enable { id: u128 },
    Disable,
    Update { id: u128 },
}

/// The node that a key goes to: the one named, or else the selected one.
pub open spec fn key_target(named: Option<u128>, selected: Option<u128>) -> Option<u128> {
    match named {
        Some(id) => Some(id),
        None => selected,
    }
}

/// What the interaction must do after selecting `id`, given the handles of
/// the interaction and the document after the selection.
pub open spec fn update_after_select<N: RadiantNode>(
    id: Option<u128>,
    interaction_ids: Seq<u128>,
    after: RadiantDocumentNode<N>,
) -> InteractionUpdate {
    match id {
        None => InteractionUpdate::Disable,
        Some(i) => if interaction_ids.contains(i) {
            InteractionUpdate::Keep
        } else if after.holds(i) {
            InteractionUpdate::Enable { id: i }
        } else {
            InteractionUpdate::Disable
        },
    }
}

/// Whether `after` is `before` with the color component of the node found
/// under `id` turned from `c` into `recolor(c)`, that node marked to be
/// drawn again; a node without a color component stays as it was, and
/// nothing changes when no artboard holds `id`.
pub open spec fn recolored<N: RadiantNode>(
    before: RadiantDocumentNode<N>,
    after: RadiantDocumentNode<N>,
    id: u128,
    recolor: spec_fn(ColorComponent) -> ColorComponent,
) -> bool {
    if before.holds(id) {
        let n = before.spec_node(id).unwrap();
        let m = after.spec_node(id).unwrap();
        &&& before.spec_replaced(after, id, after.artboards@[before.first_artboard_of(id)].nodes@[id])
        &&& after.holds(id)
        &&& if n.spec_color() is Some {
            &&& m.spec_id() == n.spec_id()
            &&& m.spec_selection() == n.spec_selection()
            &&& m.spec_color() == Some(recolor(n.spec_color().unwrap()))
            &&& m.spec_needs_tessellation()
        } else {
            m == n
        }
    } else {
        &&& after.counter == before.counter
        &&& after.active_artboard_id == before.active_artboard_id
        &&& after.selected_node_id == before.selected_node_id
        &&& after.artboards@ == before.artboards@
    }
}

/// After the fill color of a node is set, the node found under its
/// identifier has that fill, the stroke, identifier and selection it had
/// before, and is marked to be drawn again; every other identifier finds
/// the node it found before.
pub proof fn lemma_fill_then_read<N: RadiantNode>(
    before: RadiantDocumentNode<N>,
    after: RadiantDocumentNode<N>,
    id: u128,
    fill_color: Color32,
)
    requires
        recolored(
            before,
            after,
            id,
            |c: ColorComponent| ColorComponent::spec_with(fill_color, c.spec_stroke()),
        ),
        before.holds(id),
        before.spec_node(id).unwrap().spec_color() is Some,
    ensures
        after.spec_node(id).unwrap().spec_color().unwrap().spec_fill() == fill_color,
        after.spec_node(id).unwrap().spec_color().unwrap().spec_stroke() == before.spec_node(
            id,
        ).unwrap().spec_color().unwrap().spec_stroke(),
        after.spec_node(id).unwrap().spec_id() == before.spec_node(id).unwrap().spec_id(),
        after.spec_node(id).unwrap().spec_selection() == before.spec_node(
            id,
        ).unwrap().spec_selection(),
        after.spec_node(id).unwrap().spec_needs_tessellation(),
        forall|k: u128| k != id ==> #[trigger] after.spec_node(k) == before.spec_node(k),
{
    let c = before.spec_node(id).unwrap().spec_color().unwrap();
    ColorComponent::lemma_with(fill_color, c.spec_stroke());
    assert forall|k: u128| k != id implies #[trigger] after.spec_node(k) == before.spec_node(k) by {
        crate::document::lemma_replace_keeps_others(
            before,
            after,
            id,
            after.artboards@[before.first_artboard_of(id)].nodes@[id],
            k,
        );
    }
}

/// After the stroke color of a node is set, the node found under its
/// identifier has that stroke, the fill, identifier and selection it had
/// before, and is marked to be drawn again; every other identifier finds
/// the node it found before.
pub proof fn lemma_stroke_then_read<N: RadiantNode>(
    before: RadiantDocumentNode<N>,
    after: RadiantDocumentNode<N>,
    id: u128,
    stroke_color: Color32,
)
    requires
        recolored(
            before,
            after,
            id,
            |c: ColorComponent| ColorComponent::spec_with(c.spec_fill(), stroke_color),
        ),
        before.holds(id),
        before.spec_node(id).unwrap().spec_color() is Some,
    ensures
        after.spec_node(id).unwrap().spec_color().unwrap().spec_stroke() == stroke_color,
        after.spec_node(id).unwrap().spec_color().unwrap().spec_fill() == before.spec_node(
            id,
        ).unwrap().spec_color().unwrap().spec_fill(),
        after.spec_node(id).unwrap().spec_id() == before.spec_node(id).unwrap().spec_id(),
        after.spec_node(id).unwrap().spec_selection() == before.spec_node(
            id,
        ).unwrap().spec_selection(),
        after.spec_node(id).unwrap().spec_needs_tessellation(),
        forall|k: u128| k != id ==> #[trigger] after.spec_node(k) == before.spec_node(k),
{
    let c = before.spec_node(id).unwrap().spec_color().unwrap();
    ColorComponent::lemma_with(c.spec_fill(), stroke_color);
    assert forall|k: u128| k != id implies #[trigger] after.spec_node(k) == before.spec_node(k) by {
        crate::document::lemma_replace_keeps_others(
            before,
            after,
            id,
            after.artboards@[before.first_artboard_of(id)].nodes@[id],
            k,
        );
    }
}

fn contains_id(ids: &Vec<u128>, id: u128) -> (r: bool)
    ensures
        r == ids@.contains(id),
{
    let mut i: usize = 0;
    while i < ids.len()
        invariant
            0 <= i <= ids@.len(),
            forall|j: int| 0 <= j < i ==> ids@[j] != id,
        decreases ids@.len() - i,
    {
        if ids[i] == id {
            return true;
        }
        i = i + 1;
    }
    false
}

/// Sets, through `recolor`, the color component of the node found under `id`
/// and marks the node to be drawn again.
fn recolor_node<N: RadiantNode>(
    document: &mut RadiantDocumentNode<N>,
    id: u128,
    color: Color32,
    fill: bool,
)
    ensures
        recolored(
            *old(document),
            *final(document),
            id,
            |c: ColorComponent|
                if fill {
                    ColorComponent::spec_with(color, c.spec_stroke())
                } else {
                    ColorComponent::spec_with(c.spec_fill(), color)
                },
        ),
{
    let ghost before = *document;
    proof {
        if before.holds(id) {
            crate::document::lemma_first_is_least(before, id);
        }
    }
    match document.get_node_mut(id) {
        Some(node) => {
            match node.get_color() {
                Some(c) => {
                    let mut c = c;
                    if fill {
                        c.set_fill_color(color);
                    } else {
                        c.set_stroke_color(color);
                    }
                    node.set_color(c);
                    node.set_needs_tessellation(true);
                },
                None => {},
            }
        },
        None => {},
    }
    proof {
        if before.holds(id) {
            crate::document::lemma_replaced_found(before, *document, id);
        }
    }
}

/// Whether handling `command` took the document from `before` to `after`
/// and the tools from `tools_before` to `tools_after`, with `update` for
/// the interaction whose handles have the identifiers `interaction_ids`.
pub open spec fn command_done<N: RadiantNode, T>(
    before: RadiantDocumentNode<N>,
    after: RadiantDocumentNode<N>,
    tools_before: RadiantToolManager<T>,
    tools_after: RadiantToolManager<T>,
    interaction_ids: Seq<u128>,
    command: SceneCommand,
    update: InteractionUpdate,
) -> bool {
    match command {
        SceneCommand::AddArtboard => {
            &&& update == InteractionUpdate::Keep
            &&& tools_after == tools_before
            &&& before.spec_artboard_added(after)
        },
        SceneCommand::SelectArtboard { id } => {
            &&& update == InteractionUpdate::Keep
            &&& tools_after == tools_before
            &&& after.active_artboard_id == id
            &&& after.counter == before.counter
            &&& after.selected_node_id == before.selected_node_id
            &&& after.artboards@ == before.artboards@
        },
        SceneCommand::SelectNode { id } => {
            &&& tools_after == tools_before
            &&& before.spec_selected(after, id)
            &&& update == update_after_select(id, interaction_ids, after)
        },
        SceneCommand::SetFillColor { id, fill_color } => {
            &&& update == InteractionUpdate::Keep
            &&& tools_after == tools_before
            &&& recolored(
                before,
                after,
                id,
                |c: ColorComponent| ColorComponent::spec_with(fill_color, c.spec_stroke()),
            )
        },
        SceneCommand::SetStrokeColor { id, stroke_color } => {
            &&& update == InteractionUpdate::Keep
            &&& tools_after == tools_before
            &&& recolored(
                before,
                after,
                id,
                |c: ColorComponent| ColorComponent::spec_with(c.spec_fill(), stroke_color),
            )
        },
        SceneCommand::SelectTool { id } => {
            &&& update == InteractionUpdate::Keep
            &&& after == before
            &&& tools_after.tools@ == tools_before.tools@
            &&& tools_after.active_tool_id == (if id < tools_before.tools@.len() {
                id
            } else {
                tools_before.active_tool_id
            })
        },
        SceneCommand::HandleKey { id, key } => {
            let target = key_target(id, before.selected_node_id);
            &&& tools_after == tools_before
            &&& after.counter == before.counter
            &&& after.active_artboard_id == before.active_artboard_id
            &&& after.selected_node_id == before.selected_node_id
            &&& if target is Some && before.holds(target->0) {
                let n = before.spec_node(target->0).unwrap();
                let m = after.spec_node(target->0).unwrap();
                &&& before.spec_replaced(
                    after,
                    target->0,
                    after.artboards@[before.first_artboard_of(
                        target->0,
                    )].nodes@[target->0],
                )
                &&& after.holds(target->0)
                &&& m.spec_id() == n.spec_id()
                &&& m.spec_selection() == n.spec_selection()
                &&& !n.spec_handles_key(key) ==> m.spec_color() == n.spec_color()
                    && m.spec_needs_tessellation() == n.spec_needs_tessellation()
                &&& update == (if n.spec_handles_key(key) {
                    InteractionUpdate::Update { id: target->0 }
                } else {
                    InteractionUpdate::Keep
                })
            } else {
                &&& after.artboards@ == before.artboards@
                &&& update == InteractionUpdate::Keep
            }
        },
    }
}

/// Handles a command on the document and the tools, and says what the
/// interaction has to do.
pub fn handle_scene_command<N: RadiantNode, T>(
    document: &mut RadiantDocumentNode<N>,
    tool_manager: &mut RadiantToolManager<T>,
    interaction_ids: &Vec<u128>,
    command: SceneCommand,
) -> (update: InteractionUpdate)
    requires
        command is AddArtboard ==> old(document).counter < u64::MAX,
    ensures
        command_done(
            *old(document),
            *final(document),
            *old(tool_manager),
            *final(tool_manager),
            interaction_ids@,
            command,
            update,
        ),
{
    match command {
        SceneCommand::AddArtboard => {
            document.add_artboard();
            InteractionUpdate::Keep
        },
        SceneCommand::SelectArtboard { id } => {
            document.set_active_artboard(id);
            InteractionUpdate::Keep
        },
        SceneCommand::SelectNode { id } => {
            document.select(id);
            match id {
                Some(i) => {
                    if contains_id(interaction_ids, i) {
                        InteractionUpdate::Keep
                    } else {
                        match document.get_node(i) {
                            Some(_) => InteractionUpdate::Enable { id: i },
                            None => InteractionUpdate::Disable,
                        }
                    }
                },
                None => InteractionUpdate::Disable,
            }
        },
        SceneCommand::SetFillColor { id, fill_color } => {
            recolor_node(document, id, fill_color, true);
            InteractionUpdate::Keep
        },
        SceneCommand::SetStrokeColor { id, stroke_color } => {
            recolor_node(document, id, stroke_color, false);
            InteractionUpdate::Keep
        },
        SceneCommand::SelectTool { id } => {
            tool_manager.activate_tool(id);
            InteractionUpdate::Keep
        },
        SceneCommand::HandleKey { id, key } => {
            let target = match id {
                Some(i) => Some(i),
                None => document.selected_node_id,
            };
            match target {
                Some(i) => {
                    let ghost before = *document;
                    proof {
                        if before.holds(i) {
                            crate::document::lemma_first_is_least(before, i);
                        }
                    }
                    let handled = match document.get_node_mut(i) {
                        Some(node) => node.handle_key_down(key),
                        None => false,
                    };
                    proof {
                        if before.holds(i) {
                            crate::document::lemma_replaced_found(before, *document, i);
                        }
                    }
                    if handled {
                        InteractionUpdate::Update { id: i }
                    } else {
                        InteractionUpdate::Keep
                    }
                },
                None => InteractionUpdate::Keep,
            }
        },
    }
}

/// After `SelectNode`, the node named is the selected one. Naming nothing
/// hides the bounding box, and naming one of its own handles leaves it as it
/// is. Naming any other identifier shows the box around that node exactly
/// when some artboard of the document, the active one or another, holds a
/// node under it, and hides the box otherwise.
pub proof fn lemma_select_node_update<N: RadiantNode, T>(
    before: RadiantDocumentNode<N>,
    after: RadiantDocumentNode<N>,
    tools_before: RadiantToolManager<T>,
    tools_after: RadiantToolManager<T>,
    interaction_ids: Seq<u128>,
    id: Option<u128>,
    update: InteractionUpdate,
)
    requires
        command_done(
            before,
            after,
            tools_before,
            tools_after,
            interaction_ids,
            SceneCommand::SelectNode { id },
            update,
        ),
    ensures
        after.selected_node_id == id,
        match id {
            None => update == InteractionUpdate::Disable,
            Some(i) => if interaction_ids.contains(i) {
                update == InteractionUpdate::Keep
            } else {
                &&& (update == InteractionUpdate::Enable { id: i }) == exists|a: u128| #[trigger]
                    before.artboard_holds(a, i)
                &&& update == InteractionUpdate::Enable { id: i } || update
                    == InteractionUpdate::Disable
            },
        },
{
    reveal(RadiantDocumentNode::holds);
    match id {
        Some(i) => {
            crate::document::lemma_select_keeps_nodes(before, after, id, i);
        },
        None => {},
    }
}

/// A key goes to the node named in `HandleKey` or, when none is named, to
/// the selected node, whichever node is selected otherwise. That node is
/// passed through its own key handler alone: it keeps its identifier and
/// selection, and one that does not react keeps its colors and its mark for
/// drawing. The interaction is fitted again to it exactly when it reacts.
/// Every other identifier finds the node it found before, and when no node
/// is found under the target nothing changes.
pub proof fn lemma_key_goes_to_target<N: RadiantNode, T>(
    before: RadiantDocumentNode<N>,
    after: RadiantDocumentNode<N>,
    tools_before: RadiantToolManager<T>,
    tools_after: RadiantToolManager<T>,
    interaction_ids: Seq<u128>,
    id: Option<u128>,
    key: KeyCode,
    x: u128,
    update: InteractionUpdate,
)
    requires
        command_done(
            before,
            after,
            tools_before,
            tools_after,
            interaction_ids,
            SceneCommand::HandleKey { id, key },
            update,
        ),
        id == Some(x) || (id is None && before.selected_node_id == Some(x)),
    ensures
        after.selected_node_id == before.selected_node_id,
        forall|k: u128| k != x ==> #[trigger] after.spec_node(k) == before.spec_node(k),
        match before.spec_node(x) {
            None => update == InteractionUpdate::Keep && after.artboards@ == before.artboards@,
            Some(n) => {
                &&& after.spec_node(x) is Some
                &&& after.spec_node(x).unwrap().spec_id() == n.spec_id()
                &&& after.spec_node(x).unwrap().spec_selection() == n.spec_selection()
                &&& !n.spec_handles_key(key) ==> after.spec_node(x).unwrap().spec_color()
                    == n.spec_color() && after.spec_node(x).unwrap().spec_needs_tessellation()
                    == n.spec_needs_tessellation()
                &&& update == (if n.spec_handles_key(key) {
                    InteractionUpdate::Update { id: x }
                } else {
                    InteractionUpdate::Keep
                })
            },
        },
{
    let node = if before.holds(x) {
        after.artboards@[before.first_artboard_of(x)].nodes@[x]
    } else {
        arbitrary()
    };
    assert(before.spec_replaced(after, x, node));
    assert forall|k: u128| k != x implies #[trigger] after.spec_node(k) == before.spec_node(k) by {
        crate::document::lemma_replace_keeps_others(before, after, x, node, k);
    }
}

/// A key with no node named and nothing selected changes nothing.
pub proof fn lemma_key_without_target<N: RadiantNode, T>(
    before: RadiantDocumentNode<N>,
    after: RadiantDocumentNode<N>,
    tools_before: RadiantToolManager<T>,
    tools_after: RadiantToolManager<T>,
    interaction_ids: Seq<u128>,
    key: KeyCode,
    update: InteractionUpdate,
)
    requires
        command_done(
            before,
            after,
            tools_before,
            tools_after,
            interaction_ids,
            SceneCommand::HandleKey { id: None, key },
            update,
        ),
        before.selected_node_id is None,
    ensures
        update == InteractionUpdate::Keep,
        after.artboards@ == before.artboards@,
        after.selected_node_id == before.selected_node_id,
{
}

} // verus!
