//! Built-in indicator renderers.  Use these or implement your own through the
//! renderer contract.

pub mod common;
pub mod custom;
pub mod simple;
pub mod spinny;

pub use custom::CustomBar;
pub use simple::SimpleBar;
pub use spinny::SpinniBuilder;
