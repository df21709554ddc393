//! A replication core for collaborative text editing.
//!
//! The engine owns a set of documents keyed by id. Local edits advance a
//! per-engine logical clock, are recorded in the target document's
//! append-only operation log, and are returned to the host for broadcast.
//! Remote operations are applied strictly in arrival order: no causal
//! reordering or transformation is performed, so replicas that receive the
//! same operations in different orders may diverge. Positions and lengths
//! are counted in decoded characters and are clamped, never rejected.

pub mod assoc;
pub mod ops;
pub mod document;
pub mod engine;

pub use ops::OpType;
pub use ops::Operation;
pub use document::Document;
pub use engine::CrdtEngine;
pub use engine::Cursor;
