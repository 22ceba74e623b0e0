//! One decoding step of a GPT-J transformer: the model header, the graph of tensor
//! operations that a step computes, the key/value cache it writes, and the session state
//! that advances from step to step. Executing the graph is left to a tensor engine.

pub mod hyperparameters;
pub mod kv_cache;
pub mod graph;
pub mod session;
pub mod mask;
pub mod weights;
pub mod model;
