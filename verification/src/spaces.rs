//! Space records.
use vstd::prelude::*;

verus! {

/// A space: a named community with channels, members, roles and one owner.
#[derive(Clone, Debug)]
pub struct Space {
    pub id: String,
    /// The display name, as bytes of its text.
    pub name: Vec<u8>,
    pub description: Vec<u8>,
    pub channels: Vec<String>,
    pub members: Vec<String>,
    pub roles: Vec<String>,
    pub owner: String,
    pub scope_id: String,
    /// The permission flags every member holds before roles apply.
    pub base_permissions: i64,
}

} // verus!
