//! Terminal progress indicators that can be redrawn in place while ordinary
//! text is printed through the same engine.
//!
//! A manager owns a registry of live indicators, a queue of pending text, and
//! the line count of the previous redraw.  Each call to `render` composes one
//! output string that erases the previous frame and repaints every tracked
//! indicator.

pub mod bars;
pub mod cells;
pub mod isbar;
pub mod iterator;
pub mod manager;
pub mod prelude;
pub mod subsets;
pub mod utils;
pub mod wrapper;

pub use isbar::BarCloseMethod;
pub use isbar::BarDisplayError;
pub use isbar::IsBar;
pub use manager::BarManager;
pub use wrapper::BarWrapper;
pub use wrapper::IsBarWrapper;
pub use wrapper::ThreadedBarWrapper;
