//! Timed, sequential application of set-membership operations to a target.
//!
//! A timeline is an ordered list of `(offset, operation)` entries; a run walks
//! it in order, waiting out the gap to each entry's offset and then applying
//! the operation to the target's membership state.

pub mod classes;
pub mod ops;
pub mod runner;
pub mod tokens;

pub use classes::ClassSet;
pub use ops::Operation;
pub use ops::apply;
pub use runner::Run;
pub use runner::UseAnimate;
pub use runner::_use_animate;
pub use tokens::split_tokens;
