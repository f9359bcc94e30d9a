//! Trait imports, renamed so a glob of this module does not collide with
//! names of the using crate.  To use a trait by its own name, import it
//! from its module instead.

pub use crate::isbar::IsBar as __stati_IsBar;
pub use crate::subsets::IteratorProgress as __stati_IteratorProgress;
pub use crate::wrapper::IsBarWrapper as __stati_IsBarWrapper;
