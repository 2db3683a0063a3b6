use vstd::prelude::*;

verus! {

/// Errors that can arise while configuring the server from its
/// command-line arguments, before any connection is accepted.
#[derive(Debug, PartialEq, Eq, Structural, Clone, Copy)]
pub enum ServerError {
    /// An argument had a shape or a flag name the server does not know.
    InvalidArgs,
    /// The port value was not a decimal number.
    PortParse,
    /// The port value was a number outside 0..=65535.
    PortRange,
    /// The help flag was passed; not a fault, but construction stops.
    HelpRequest,
}

/// The operator-facing description of each configuration error.
pub open spec fn server_error_message(e: ServerError) -> Seq<char> {
    match e {
        ServerError::InvalidArgs => "Invalid arguments"@,
        ServerError::PortParse => "Failed to parse port"@,
        ServerError::PortRange => "Port outside of valid range"@,
        ServerError::HelpRequest => "Help flag passed this is not an error, this case should be handled explicitly"@,
    }
}

impl ServerError {
    /// A textual description of the error, for reporting to the operator.
    pub fn message(&self) -> (r: &'static str)
        ensures
            r@ == server_error_message(*self),
    {
        match self {
            ServerError::InvalidArgs => "Invalid arguments",
            ServerError::PortParse => "Failed to parse port",
            ServerError::PortRange => "Port outside of valid range",
            ServerError::HelpRequest => "Help flag passed this is not an error, this case should be handled explicitly",
        }
    }
}

} // verus!
