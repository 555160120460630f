//! Evidence on local file systems, and the inventory of held trees.

pub mod assessment;
pub mod certify;
pub mod evidence;
pub mod held;
