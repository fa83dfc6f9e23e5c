//! Scope records: the partitions a deployment can be divided into.
use vstd::prelude::*;

verus! {

/// One scope: a named partition with its own channels and users.
#[derive(Clone, Debug)]
pub struct Scope {
    pub id: String,
    pub name: String,
    pub disabled: bool,
    pub nexuses: Vec<String>,
    pub channels: Vec<String>,
    pub users: Vec<String>,
}

} // verus!
