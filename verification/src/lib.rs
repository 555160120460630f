//! The core of degu: what may be removed, under whose authority, and how a tree
//! is proved to be what it was before it is.

pub mod activation;
pub mod activation_anchor_provisioning;
pub mod admission;
pub mod anchor_layout;
pub mod authority;
pub mod backend;
pub mod bytes;
pub mod config;
pub mod digest;
pub mod disposition;
pub mod ecosystem;
pub mod finding;
pub mod order;
pub mod paths;
pub mod random;
pub mod sorting;
pub mod text;
