//! The document model of a graphics editor: documents of artboards holding
//! nodes, selection, node colors for picking, tools, and the handling of the
//! scene messages that move nothing.

pub mod components;
pub mod document;
pub mod group;
pub mod interaction;
pub mod maps;
pub mod messages;
pub mod node;
pub mod picking;
pub mod scene;
pub mod tools;
