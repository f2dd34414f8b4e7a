//! Frame-based input tracking for game loops.
//!
//! A host engine reports raw *inputs* (key codes, buttons); a game thinks in
//! *controls* ("move up", "pause"). A handler owns a many-to-one binding from
//! inputs to controls and, once per frame, records for every bound control how
//! many consecutive frames it has been held.
//!
//! Three handlers share that bookkeeping and differ only in how they learn
//! which inputs are active in a frame:
//!
//! - [`EventInputHandler`] is told about presses and releases as they happen;
//! - [`PollingInputHandler`] is handed the list of inputs that are down;
//! - [`QueryInputHandler`] asks a predicate about every bound input.
//!
//! Inputs and controls are identified by 32-bit numbers. The rule that all
//! three follow is written down once, as mathematics, in [`rules`]; what it
//! implies over many frames is proved in [`frames`].

pub mod event;
pub mod frames;
pub mod polling;
pub mod query;
pub mod rules;
pub mod store;
mod table;

pub use event::EventInputHandler;
pub use polling::PollingInputHandler;
pub use query::QueryInputHandler;
pub use rules::{Control, Input};
