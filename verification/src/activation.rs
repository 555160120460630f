//! The activation of a store.
//!
//! A store is activated under one of two authorities: the anchor that the
//! administrator provides for an account, or the account's own. Which one holds
//! follows from what is found in both; where that is in doubt, nothing is
//! activated.

pub mod anchor;
pub mod discovery;
pub mod error;
pub mod publication;
pub mod record;
pub mod resume;
pub mod selection;
