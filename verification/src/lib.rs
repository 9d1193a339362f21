//! An interactive command-line wizard helper: a `Journey` is an ordered
//! sequence of `Step`s, each a titled menu of `StepItem`s. Input lines are
//! interpreted as selections, quit requests, or recoverable errors; each
//! valid selection yields a `Selection` and advances the journey by one step.
//!
//! The input interpretation, screen rendering, and journey state machine are
//! verified. Reading lines and printing screens is left to the embedding
//! application, which drives the state machine one line at a time.

pub mod error;
pub mod input;
pub mod journey;
pub mod step;
pub mod text;

pub use error::Error;
pub use input::{interpret_input, UserAction};
pub use journey::{Advance, Journey};
pub use step::{Selection, Step, StepItem};
