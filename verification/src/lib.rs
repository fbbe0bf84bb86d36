//! Declarative symbolic-link engine.
//!
//! The engine parses a manifest of `SOURCE -> TARGET` lines, normalizes the
//! path shorthand on each side (`~` for the home directory, a leading `./`
//! for the current directory), and decides, pair by pair, how the link on
//! the filesystem is to be created or removed.  Every decision the engine
//! makes is a pure function with a proved contract; the filesystem calls
//! themselves are performed by the surrounding binary, which feeds their
//! results back into the engine.

pub mod batch;
pub mod link;
pub mod manifest;
pub mod paths;
pub mod render;

pub use batch::make_symlinks;
pub use link::break_outcome;
pub use link::link_outcome;
pub use link::plan_break;
pub use link::plan_link;
pub use link::BreakAttempt;
pub use link::BreakStep;
pub use link::LinkAttempt;
pub use link::LinkStep;
pub use link::Outcome;
pub use manifest::parse_links;
pub use manifest::run;
pub use manifest::ParseError;
pub use manifest::SymPair;

pub use paths::normalize_component;
pub use paths::parent_of;
pub use paths::PathError;
