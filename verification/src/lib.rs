//! Event-sourced command/undo core for an interactive editor backend.
//!
//! The crate models addressed, optionally payload-bearing events
//! ([`events::Event`]), the tagged outcome of applying one mutation
//! ([`consumed::Consumed`]), the capability every state component implements
//! ([`consumed::SessionState`]), and a bounded dual-limit ledger that records
//! reversible history for undo/redo ([`undo_stack::UndoStack`]).
//!
//! Two components drive the protocol: the model editor ([`model::ModelState`])
//! and the regulations editor ([`regulations_state::RegulationsState`]). Each
//! consumed action is pinned by a spec transition, and [`model_laws`] proves
//! the protocol's central guarantee: applying the synthesized reverse action
//! restores the state exactly.

pub mod analysis_results;
pub mod binary_op;
pub mod codec;
pub mod consumed;
pub mod data_structs;
pub mod entities;
pub mod event_utils;
pub mod events;
pub mod ids;
pub mod inference_type;
pub mod model;
pub mod model_laws;
pub mod model_refresh;
pub mod model_session;
pub mod observations;
pub mod regulations_state;
pub mod table;
pub mod text;
pub mod undo_stack;

pub use consumed::{Consumed, SessionState};
pub use events::Event;
pub use model::ModelState;
pub use regulations_state::RegulationsState;
pub use undo_stack::{UndoStack, UndoStackEntry};
