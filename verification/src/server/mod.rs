//! What a pooler knows of one backend connection.
pub mod parameters;
pub mod prepared_statements;
pub mod cleanup;
pub mod protocol_io;
pub mod server_backend;
pub mod checkin;
pub mod sync;
pub mod statements;
pub mod startup;
