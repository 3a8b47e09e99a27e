//! Watch-stream aggregation and event normalization.
//!
//! The library merges change streams for a configurable set of cluster
//! resource types into one consumption point, normalizes each observed
//! object (strips configured field paths, stamps a canonical type
//! identity), and dispatches timestamped lifecycle events to a trace
//! recorder, exactly once per change.

pub mod clock;
pub mod config;
pub mod event;
pub mod laws;
pub mod normalize;
pub mod obj;
pub mod stream;
pub mod tracer;
pub mod watch;
