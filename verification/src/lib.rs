//! Read-only views over annotated sentences, and the order-preserving,
//! length-batched run that produces them.

pub mod annotator;
pub mod batching;
pub mod conll;
pub mod loading;
pub mod sentence;
pub mod store;
