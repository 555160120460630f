//! Bounded inventory, manifest and rewalk of a held directory tree.
//!
//! Everything here is decided on plain observations; opening, reading and
//! removing entries is the caller's.

pub mod child;
pub mod content;
pub mod decoder;
pub mod directories;
pub mod error;
pub mod forward;
pub mod inspect;
pub mod inventory;
pub mod limits;
pub mod manifest;
pub mod model;
pub mod modes;
pub mod policy;
pub mod purge;
pub mod reobserve;
pub mod rewalk;
pub mod scratch;
pub mod sealing;
pub mod stream;
pub mod topology;
pub mod topology_fold;
pub mod topology_laws;
pub mod walk;
pub mod xattr;
