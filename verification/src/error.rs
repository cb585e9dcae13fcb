//! Errors reported while a provider is being built.

use vstd::prelude::*;

verus! {

/// The two families into which build failures fall.
#[derive(Clone, Copy, Debug, PartialEq, Eq, Structural)]
pub enum BuildErrorKind {
    /// A required input is missing or malformed.
    Configuration,
    /// The device accepts none of the ciphers the session could use.
    Capability,
}

/// Reasons for which building a provider fails.
#[derive(Clone, Copy, Debug, PartialEq, Eq, Structural)]
pub enum BuildError {
    /// No hierarchy secret was supplied where one is required.
    MissingHierarchyAuth,
    /// The text after the `hex:` prefix is not a hexadecimal string.
    InvalidHexHierarchyAuth,
    /// No transport locator was supplied.
    MissingTcti,
    /// The transport locator is not understood by the transport layer.
    InvalidTcti,
    /// The device could not be reached with the given transport locator.
    ContextInitialization,
    /// The device accepts none of the preferred ciphers.
    CiphersNotSupported,
    /// No provider name was supplied.
    MissingProviderName,
    /// No key info store was supplied.
    MissingKeyInfoStore,
}

/// Reasons for which an operation of the provider fails.
#[derive(Clone, Copy, Debug, PartialEq, Eq, Structural)]
pub enum OperationError {
    /// The hardware session reported a failure while it carried out the
    /// operation.
    Device,
    /// The caller has no key of the name given.
    NotFound,
    /// The caller already has a key of the name given.
    Conflict,
    /// The input is malformed, or does not fit the key or the algorithm.
    Validation,
}

/// The failures that a hardware session reports.
#[derive(Clone, Copy, Debug, PartialEq, Eq, Structural)]
pub enum SessionFailure {
    /// The session refused the input: its format, its size or its padding is
    /// not what the algorithm asks for.
    InvalidInput,
    /// Any other failure: I/O, protocol, a fault inside the device.
    Device,
}

impl SessionFailure {
    /// The error that an operation reports for this failure.
    pub open spec fn spec_to_error(self) -> OperationError {
        match self {
            SessionFailure::InvalidInput => OperationError::Validation,
            SessionFailure::Device => OperationError::Device,
        }
    }

    /// The error that an operation reports for this failure: refused input is
    /// a validation error, anything else a device error.
    #[verifier::when_used_as_spec(spec_to_error)]
    pub fn to_error(self) -> (e: OperationError)
        ensures
            e == self.spec_to_error(),
    {
        match self {
            SessionFailure::InvalidInput => OperationError::Validation,
            SessionFailure::Device => OperationError::Device,
        }
    }
}

impl BuildError {
    /// The family of this error.
    pub open spec fn spec_kind(self) -> BuildErrorKind {
        match self {
            BuildError::CiphersNotSupported => BuildErrorKind::Capability,
            _ => BuildErrorKind::Configuration,
        }
    }

    /// The family of this error: only the lack of a usable cipher is a
    /// capability error, every other failure is a configuration error.
    #[verifier::when_used_as_spec(spec_kind)]
    pub fn kind(self) -> (k: BuildErrorKind)
        ensures
            k == self.spec_kind(),
    {
        match self {
            BuildError::CiphersNotSupported => BuildErrorKind::Capability,
            _ => BuildErrorKind::Configuration,
        }
    }

    /// The text of this error. It never holds secret material.
    pub open spec fn spec_message(self) -> Seq<char> {
        match self {
            BuildError::MissingHierarchyAuth => "missing owner hierarchy auth"@,
            BuildError::InvalidHexHierarchyAuth => "invalid hex owner hierarchy auth"@,
            BuildError::MissingTcti => "TCTI configuration missing"@,
            BuildError::InvalidTcti => "Invalid TCTI configuration string"@,
            BuildError::ContextInitialization => "failed initializing TSS context"@,
            BuildError::CiphersNotSupported => "desired ciphers not supported"@,
            BuildError::MissingProviderName => "missing provider name"@,
            BuildError::MissingKeyInfoStore => "missing key info store"@,
        }
    }

    /// A short description of this error, fit for logs and for callers.
    pub fn message(self) -> (m: &'static str)
        ensures
            m@ == self.spec_message(),
    {
        match self {
            BuildError::MissingHierarchyAuth => "missing owner hierarchy auth",
            BuildError::InvalidHexHierarchyAuth => "invalid hex owner hierarchy auth",
            BuildError::MissingTcti => "TCTI configuration missing",
            BuildError::InvalidTcti => "Invalid TCTI configuration string",
            BuildError::ContextInitialization => "failed initializing TSS context",
            BuildError::CiphersNotSupported => "desired ciphers not supported",
            BuildError::MissingProviderName => "missing provider name",
            BuildError::MissingKeyInfoStore => "missing key info store",
        }
    }
}

} // verus!
