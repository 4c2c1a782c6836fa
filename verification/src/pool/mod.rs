//! Pools of backend connections.
pub mod cancel;
pub mod pool_coordinator;
pub mod types;
pub mod inner;
pub mod grow;
pub mod checkout;
pub mod startup_resolver;
pub mod fallback;
pub mod server_pool;
pub mod id_map;
pub mod connection_pool;
pub mod registry;
pub mod reload;
pub mod dynamic;
pub mod gc;
pub mod retain;
