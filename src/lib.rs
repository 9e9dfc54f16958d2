//! A small scene of named nodes and the per-tick clock that runs over it.
//!
//! `time` holds an exact, overflow-checked span of time; `scene` holds the
//! node records, the store they live in, the seeding of the initial scene and
//! the per-tick accumulation; `laws` states what holds across several calls.

pub mod laws;
pub mod scene;
pub mod time;

pub use scene::{setup, update_time, ExistenceTime, Marker, Node, Position, Shape, World};
pub use time::{TimeSpan, NANOS_PER_SEC};
