//! Errors that may occur while registering an interrupt handler.
//!
//! The interrupt controller itself (masking, critical sections, handler
//! dispatch) is platform code that lives outside this library; only the
//! error values it hands back are plain data, and live here.

use vstd::prelude::*;

verus! {

#[derive(Debug, Clone, PartialEq, Eq)]
enum RegistrationErrorKind {
    Nonexistant,
    AlreadyRegistered,
    Other(&'static str),
}

/// Errors that may occur while registering an interrupt handler.
#[derive(Debug, Clone, PartialEq, Eq)]
pub struct RegistrationError {
    kind: RegistrationErrorKind,
}

impl RegistrationError {
    /// The error says the registered interrupt vector does not exist.
    pub closed spec fn spec_is_nonexistant(&self) -> bool {
        self.kind is Nonexistant
    }

    /// The error says the vector was already registered.
    pub closed spec fn spec_is_already_registered(&self) -> bool {
        self.kind is AlreadyRegistered
    }

    /// The platform-specific message, for an error that carries one.
    pub closed spec fn spec_message(&self) -> Option<&'static str> {
        match self.kind {
            RegistrationErrorKind::Other(m) => Some(m),
            _ => None,
        }
    }

    /// Returns a new error indicating that the registered interrupt vector
    /// does not exist.
    pub fn nonexistant() -> (r: Self)
        ensures
            r.spec_is_nonexistant(),
            !r.spec_is_already_registered(),
            r.spec_message() is None,
    {
        Self { kind: RegistrationErrorKind::Nonexistant }
    }

    /// Returns a new error indicating that the registered interrupt vector
    /// has already been registered and cannot be registered again.
    pub fn already_registered() -> (r: Self)
        ensures
            !r.spec_is_nonexistant(),
            r.spec_is_already_registered(),
            r.spec_message() is None,
    {
        Self { kind: RegistrationErrorKind::AlreadyRegistered }
    }

    /// Returns a new platform-specific error with the provided message.
    pub fn other(message: &'static str) -> (r: Self)
        ensures
            !r.spec_is_nonexistant(),
            !r.spec_is_already_registered(),
            r.spec_message() == Some(message),
    {
        Self { kind: RegistrationErrorKind::Other(message) }
    }

    pub fn is_nonexistant(&self) -> (r: bool)
        ensures
            r == self.spec_is_nonexistant(),
    {
        matches!(self.kind, RegistrationErrorKind::Nonexistant)
    }

    pub fn is_already_registered(&self) -> (r: bool)
        ensures
            r == self.spec_is_already_registered(),
    {
        matches!(self.kind, RegistrationErrorKind::AlreadyRegistered)
    }
}

} // verus!
