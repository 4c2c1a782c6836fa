//! The errors of the pooler.
use vstd::prelude::*;
use crate::text::concat;
#[allow(unused_imports)]
use crate::text;

verus! {

/// Which backend login an error belongs to.
#[derive(Debug)]
pub struct ServerIdentifier {
    pub username: String,
    pub database: String,
    pub pool_name: String,
}

impl ServerIdentifier {
    /// The login of `username` in `database` through the pool `pool_name`.
    pub fn new(username: String, database: &str, pool_name: &str) -> (r: ServerIdentifier)
        ensures
            r.username@ == username@,
            r.database@ == database@,
            r.pool_name@ == pool_name@,
    {
        ServerIdentifier {
            username,
            database: database.to_owned(),
            pool_name: pool_name.to_owned(),
        }
    }
}

impl Clone for ServerIdentifier {
    fn clone(&self) -> (r: Self)
        ensures
            r == *self,
    {
        ServerIdentifier {
            username: self.username.clone(),
            database: self.database.clone(),
            pool_name: self.pool_name.clone(),
        }
    }
}

/// What can go wrong between clients, pools and backends.
#[derive(Debug)]
pub enum Error {
    /// A client may not log in.
    AuthError(String),
    /// A configuration value cannot be used.
    BadConfig(String),
    /// No connection to a backend could be made.
    ConnectError(String),
    /// The pooler itself has no file descriptor left for a connection.
    ConnectResourceExhausted(String),
    /// A backend did not take data in time.
    FlushTimeout,
    /// A message is larger than the protocol allows.
    MaxMessageSize,
    /// The backend did not accept a prepared statement.
    PreparedStatementError,
    /// Messages arrive that do not fit the state of the session.
    ProtocolSyncError(String),
    /// A query of the pooler itself failed.
    QueryError(String),
    /// The backend refused the startup.
    ServerStartupError(String, ServerIdentifier),
    /// The backend refused a startup parameter that the operator configured.
    ServerStartupParameterRejection {
        sqlstate: String,
        message: String,
        server_identifier: ServerIdentifier,
    },
    /// The parameters that a backend reports at startup could not be had.
    ServerStartupReadParameters(String),
    /// The backend is starting up or shutting down.
    ServerUnavailableError(String, ServerIdentifier),
}

impl Clone for Error {
    fn clone(&self) -> (r: Self)
        ensures
            r == *self,
    {
        match self {
            Error::AuthError(m) => Error::AuthError(m.clone()),
            Error::BadConfig(m) => Error::BadConfig(m.clone()),
            Error::ConnectError(m) => Error::ConnectError(m.clone()),
            Error::ConnectResourceExhausted(m) => Error::ConnectResourceExhausted(m.clone()),
            Error::FlushTimeout => Error::FlushTimeout,
            Error::MaxMessageSize => Error::MaxMessageSize,
            Error::PreparedStatementError => Error::PreparedStatementError,
            Error::ProtocolSyncError(m) => Error::ProtocolSyncError(m.clone()),
            Error::QueryError(m) => Error::QueryError(m.clone()),
            Error::ServerStartupError(m, id) => Error::ServerStartupError(m.clone(), id.clone()),
            Error::ServerStartupParameterRejection { sqlstate, message, server_identifier } => {
                Error::ServerStartupParameterRejection {
                    sqlstate: sqlstate.clone(),
                    message: message.clone(),
                    server_identifier: server_identifier.clone(),
                }
            },
            Error::ServerStartupReadParameters(m) => Error::ServerStartupReadParameters(m.clone()),
            Error::ServerUnavailableError(m, id) => Error::ServerUnavailableError(
                m.clone(),
                id.clone(),
            ),
        }
    }
}

/// The text by which an error is reported.
pub open spec fn error_text(e: Error) -> Seq<char> {
    match e {
        Error::AuthError(m) => m@,
        Error::BadConfig(m) => m@,
        Error::ConnectError(m) => m@,
        Error::ConnectResourceExhausted(m) => m@,
        Error::FlushTimeout => "flush timeout"@,
        Error::MaxMessageSize => "message size limit exceeded"@,
        Error::PreparedStatementError => "prepared statement error"@,
        Error::ProtocolSyncError(m) => m@,
        Error::QueryError(m) => m@,
        Error::ServerStartupError(m, _) => m@,
        Error::ServerStartupParameterRejection { sqlstate, message, .. } => text::join(
            seq![sqlstate@, ": "@, message@],
        ),
        Error::ServerStartupReadParameters(m) => m@,
        Error::ServerUnavailableError(m, _) => m@,
    }
}

impl Error {
    /// The text by which the error is reported.
    pub fn text(&self) -> (r: String)
        ensures
            r@ == error_text(*self),
    {
        match self {
            Error::AuthError(m) => m.clone(),
            Error::BadConfig(m) => m.clone(),
            Error::ConnectError(m) => m.clone(),
            Error::ConnectResourceExhausted(m) => m.clone(),
            Error::FlushTimeout => "flush timeout".to_owned(),
            Error::MaxMessageSize => "message size limit exceeded".to_owned(),
            Error::PreparedStatementError => "prepared statement error".to_owned(),
            Error::ProtocolSyncError(m) => m.clone(),
            Error::QueryError(m) => m.clone(),
            Error::ServerStartupError(m, _id) => m.clone(),
            Error::ServerStartupParameterRejection { sqlstate, message, .. } => {
                let parts = [sqlstate.as_str(), ": ", message.as_str()];
                assert(text::views(parts@) =~= seq![sqlstate@, ": "@, message@]);
                concat(&parts)
            },
            Error::ServerStartupReadParameters(m) => m.clone(),
            Error::ServerUnavailableError(m, _id) => m.clone(),
        }
    }
}

} // verus!
