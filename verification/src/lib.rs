//! Parametric shape-graph service core: canonical hashing, dependency
//! collection, content-addressed caching, graph evaluation, the axis-aligned
//! stretch planner, and the upload-conversion state machine.
//!
//! Every expensive operation is keyed by a deterministic hash of its inputs,
//! computed once and reused: a graph is canonicalized and hashed to its
//! content key, artifacts live in the store under that key, and an uploaded
//! source file is published under the hash of its bytes.

pub mod canon;
pub mod convert;
pub mod errors;
pub mod eval;
pub mod glb;
pub mod graph;
pub mod hashing;
pub mod origin;
pub mod server;
pub mod store;
pub mod stretch;
