use std::collections::BTreeMap;
use vstd::prelude::*;

use crate::maps::btree_get_mut;

verus! {

pub type ToolId = u32;

/// The tools of an editor under their identifiers, one of which is active.
pub struct RadiantToolManager<T> {
    pub tools: BTreeMap<ToolId, T>,
    pub active_tool_id: ToolId,
}

impl<T> RadiantToolManager<T> {
    /// A manager with the one tool `tool` under `id`, active.
    pub fn new(id: ToolId, tool: T) -> (m: Self)
        ensures
            m.tools@ == map![id => tool],
            m.active_tool_id == id,
    {
        let mut tools = BTreeMap::new();
        tools.insert(id, tool);
        proof {
            assert(tools@ =~= map![id => tool]);
        }
        RadiantToolManager { tools, active_tool_id: id }
    }

    /// Puts `tool` under `tool_id`, replacing what was there.
    pub fn register_tool(&mut self, tool_id: ToolId, tool: T)
        ensures
            final(self).tools@ == old(self).tools@.insert(tool_id, tool),
            final(self).active_tool_id == old(self).active_tool_id,
    {
        self.tools.insert(tool_id, tool);
    }

    /// The active tool, which the manager must hold.
    pub fn active_tool(&mut self) -> (t: &mut T)
        requires
            old(self).tools@.contains_key(old(self).active_tool_id),
        ensures
            *t == old(self).tools@[old(self).active_tool_id],
            final(self).tools@ == old(self).tools@.insert(old(self).active_tool_id, *final(t)),
            final(self).active_tool_id == old(self).active_tool_id,
    {
        let id = self.active_tool_id;
        btree_get_mut(&mut self.tools, id).unwrap()
    }

    /// Makes `id` active when it is smaller than the number of tools held;
    /// otherwise the active tool stays.
    pub fn activate_tool(&mut self, id: u32)
        ensures
            final(self).tools@ == old(self).tools@,
            final(self).active_tool_id == (if id < old(self).tools@.len() {
                id
            } else {
                old(self).active_tool_id
            }),
    {
        if self.tools.len() > id as usize {
            self.active_tool_id = id;
        }
    }
}

} // verus!
