//! An in-memory task registry: users are registered under caller-chosen ids,
//! tasks are created for registered owners under ids that the registry hands
//! out in increasing order, and tasks can be handed over, completed and listed.
//!
//! Every operation is specified against a mathematical model of the registry
//! (see [`model`]) and proved to carry out the model's operation; [`laws`]
//! holds what is proved of the model itself.

pub mod error;
pub mod laws;
pub mod model;
pub mod registry;

pub use crate::error::ErrorKind;
pub use crate::registry::{Task, TaskManager, TaskRecord, Transfer, User};
