use tpm_provider::error::{BuildError, BuildErrorKind, OperationError, SessionFailure};

#[test]
fn only_the_lack_of_a_cipher_is_a_capability_error() {
    let configuration = [
        BuildError::MissingHierarchyAuth,
        BuildError::InvalidHexHierarchyAuth,
        BuildError::MissingTcti,
        BuildError::InvalidTcti,
        BuildError::ContextInitialization,
        BuildError::MissingProviderName,
        BuildError::MissingKeyInfoStore,
    ];
    for error in configuration {
        assert_eq!(error.kind(), BuildErrorKind::Configuration);
    }
    assert_eq!(
        BuildError::CiphersNotSupported.kind(),
        BuildErrorKind::Capability
    );
}

#[test]
fn messages_of_build_errors() {
    assert_eq!(
        BuildError::MissingHierarchyAuth.message(),
        "missing owner hierarchy auth"
    );
    assert_eq!(
        BuildError::InvalidHexHierarchyAuth.message(),
        "invalid hex owner hierarchy auth"
    );
    assert_eq!(BuildError::MissingTcti.message(), "TCTI configuration missing");
    assert_eq!(
        BuildError::InvalidTcti.message(),
        "Invalid TCTI configuration string"
    );
    assert_eq!(
        BuildError::ContextInitialization.message(),
        "failed initializing TSS context"
    );
    assert_eq!(
        BuildError::CiphersNotSupported.message(),
        "desired ciphers not supported"
    );
    assert_eq!(
        BuildError::MissingProviderName.message(),
        "missing provider name"
    );
    assert_eq!(
        BuildError::MissingKeyInfoStore.message(),
        "missing key info store"
    );
}

#[test]
fn session_failures_become_operation_errors() {
    assert_eq!(
        SessionFailure::InvalidInput.to_error(),
        OperationError::Validation
    );
    assert_eq!(SessionFailure::Device.to_error(), OperationError::Device);
}
