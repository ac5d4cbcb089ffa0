//! Core of a batched inference server for a recurrent transformer model.
//!
//! The crate models the scheduler at the heart of the server: a named-state
//! registry, a fixed-width batching pool with semaphore-gated admission, the
//! sample pipeline that turns logits into tokens, and the generation loop that
//! drives them. GPU kernels, component implementations and the wire transport
//! are collaborators: they live outside and talk to this core in plain values.

pub mod api;
pub mod command;
pub mod error;
pub mod generation;
pub mod handle;
pub mod model;
pub mod pipeline;
pub mod pool;
pub mod reset;
pub mod registry;
pub mod table;
pub mod text;
pub mod validate;
