//! Scene-graph kernel for a spatial compositor server: addressable nodes with
//! dynamic dispatch tables, capability-scoped alias proxies, signed-distance
//! fields, and the zone capture algorithm built on them.

pub mod alias;
pub mod dispatch;
pub mod eye_pointer;
pub mod field;
pub mod ident;
pub mod keymap;
pub mod laws;
pub mod math;
pub mod mouse_pointer;
pub mod node;
pub mod registry;
pub mod spatial;
pub mod table;
pub mod wire;
pub mod zone;
