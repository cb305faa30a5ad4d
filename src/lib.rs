//! Progress bars for command-line programs: a registry that gives every live
//! bar its own terminal row, a rate limiter for redraws, and the formatter that
//! turns a bar's state into one line of text.
//!
//! Everything here is a pure state machine. The terminal itself is reached
//! through [`TermOp`] lists that a caller plays back on the real device.

pub mod bar;
pub mod format;
pub mod progress;
pub mod registry;
pub mod render;
pub mod style;
pub mod term;

pub use bar::{AvanceBar, Env};
pub use format::{format_sizeof, format_time};
pub use progress::{Progress, INTERVAL};
pub use registry::{set_max_progress_bars, Registry, Slot};
pub use render::Config;
pub use style::Style;
pub use term::TermOp;
