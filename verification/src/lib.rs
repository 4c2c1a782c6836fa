//! Connection pooling for PostgreSQL: pools of backend connections, the
//! sessions that run on them and the rules by which they are shared.
pub mod config;
pub mod digest;
pub mod errors;
pub mod messages;
pub mod pool;
pub mod server;
pub mod startup_parameters;
pub mod string_map;
pub mod text;
pub mod web;
pub mod wire;
