//! The error taxonomy of the client.
//!
//! Four disjoint kinds: configuration errors (required environment missing),
//! connection errors (the endpoint could not be opened), protocol errors
//! (framing or JSON-RPC malformed, or the connection unusable), and
//! capability errors (the server answered with an error envelope).

use vstd::prelude::*;

verus! {

/// An error answered by a capability: the contents of the `$error` envelope.
#[derive(Debug)]
pub struct CapabilityError {
    pub code: Vec<u8>,
    pub message: Vec<u8>,
    pub capability: Option<Vec<u8>>,
}

/// The mathematical value of a [`CapabilityError`].
pub struct CapabilityErrorV {
    pub code: Seq<u8>,
    pub message: Seq<u8>,
    pub capability: Option<Seq<u8>>,
}

impl View for CapabilityError {
    type V = CapabilityErrorV;

    open spec fn view(&self) -> CapabilityErrorV {
        CapabilityErrorV {
            code: self.code@,
            message: self.message@,
            capability: match self.capability {
                Some(ref c) => Some(c@),
                None => None,
            },
        }
    }
}

/// An error surfaced by the client.
#[derive(Debug)]
pub enum AtsError {
    /// Required configuration is missing or malformed; the message names it.
    Config { message: Vec<u8> },
    /// The endpoint could not be opened; the message carries the OS error.
    Connect { message: Vec<u8> },
    /// The stream, the framing or the JSON-RPC exchange is malformed, or the
    /// connection is closed.
    Protocol { message: Vec<u8> },
    /// The capability answered with an `$error` envelope.
    Capability(CapabilityError),
}

/// The mathematical value of an [`AtsError`].
pub enum AtsErrorV {
    Config { message: Seq<u8> },
    Connect { message: Seq<u8> },
    Protocol { message: Seq<u8> },
    Capability(CapabilityErrorV),
}

impl View for AtsError {
    type V = AtsErrorV;

    open spec fn view(&self) -> AtsErrorV {
        match self {
            AtsError::Config { message } => AtsErrorV::Config { message: message@ },
            AtsError::Connect { message } => AtsErrorV::Connect { message: message@ },
            AtsError::Protocol { message } => AtsErrorV::Protocol { message: message@ },
            AtsError::Capability(e) => AtsErrorV::Capability(e@),
        }
    }
}

impl AtsError {
    /// The human-readable message of this error.
    pub fn message_bytes(&self) -> (m: &Vec<u8>)
        ensures
            m@ == self.spec_message(),
    {
        match self {
            AtsError::Config { message } => message,
            AtsError::Connect { message } => message,
            AtsError::Protocol { message } => message,
            AtsError::Capability(e) => &e.message,
        }
    }

    /// The message carried by this error.
    pub open spec fn spec_message(&self) -> Seq<u8> {
        match self@ {
            AtsErrorV::Config { message } => message,
            AtsErrorV::Connect { message } => message,
            AtsErrorV::Protocol { message } => message,
            AtsErrorV::Capability(e) => e.message,
        }
    }
}

} // verus!
