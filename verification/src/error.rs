//! Errors of the connection-side logic.
use vstd::prelude::*;

verus! {

/// Errors of the connection-side logic, each with a message.
#[derive(Debug)]
pub enum DriverError {
    /// Text (a DSN, a URL, a server reply) could not be parsed or is not supported.
    Parsing(String),
    /// An argument given by the caller is not usable.
    BadArgument(String),
    /// Reading or writing data failed.
    IO(String),
    /// The server's reply is not what the protocol expects.
    InvalidResponse(String),
}

} // verus!
