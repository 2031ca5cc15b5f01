use vstd::prelude::*;

pub mod text;
pub mod policy;
pub mod overlay;
pub mod dynamic;
pub mod handle;
pub mod perms;
pub mod unary;
pub mod child;
pub mod permissions;
pub mod attribution;
pub mod descriptors;
pub mod paths;
pub mod network;
pub mod capsec;
pub mod policy_file;
pub mod posture;
pub mod resource;
pub mod readiness;

verus! {

/// Which way a three-way comparison between two descriptors went.
#[derive(Clone, Copy, Debug, PartialEq, Eq, Structural)]
pub enum Cmp {
    Less,
    Equal,
    Greater,
}

} // verus!
