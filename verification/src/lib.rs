//! Device lifecycle and polling logic of a gateway for short-range wireless
//! environmental sensors.
//!
//! The crate holds the decisions of the gateway as verified functions on plain
//! values: the wire protocol of the sensors, the registry of discovered and
//! active devices, the polling schedule, and the rules by which readings reach
//! storage. Radio traffic, the database engine and the HTTP server are driven
//! by the embedding program, which performs the actions this crate asks for
//! and reports back what happened.

pub mod alpha_sensor;
pub mod api;
pub mod consistency;
pub mod database;
pub mod master;
pub mod memory_database;
pub mod peripheral;
pub mod registry;
pub mod scheduler;
pub mod schema;
pub mod sensor;
pub mod sqlite_database;
pub mod state;
pub mod text;
