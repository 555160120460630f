//! Making the anchor of an account.
//!
//! The administrator names an account, and nothing else; where its anchor lies
//! is fixed. What is there already is only looked at, and never repaired or
//! replaced.

pub mod checks;
pub mod error;
pub mod plan;
pub mod publish;
pub mod runs;
pub mod walk;

pub use crate::activation_anchor_provisioning::error::ActivationAnchorProvisioningError;
pub use crate::activation_anchor_provisioning::plan::ActivationAnchorProvisioningOutcome;
pub use crate::activation_anchor_provisioning::plan::ActivationAnchorProvisioningStatus;
