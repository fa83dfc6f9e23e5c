//! Custom emoji records.
use vstd::prelude::*;

verus! {

#[derive(Clone, Debug)]
pub struct Emoji {
    pub id: String,
    pub name: String,
    pub file_id: String,
}

} // verus!
