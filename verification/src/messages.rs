use vstd::prelude::*;

verus! {

/// Messages about images in a document.
#[derive(Debug, Clone)]
pub enum RadiantImageMessage {
    AddImage { name: String, path: String },
}

} // verus!
