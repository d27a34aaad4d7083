use mef_26::MefError;

#[test]
fn error_messages_describe_each_variant() {
    assert_eq!(MefError::AuthenticationFailed.message(), "authentication failed");
    assert_eq!(MefError::InvalidFrame.message(), "invalid frame");
    assert_eq!(MefError::UnsupportedSuite.message(), "unsupported cipher suite");
    assert_eq!(MefError::RandomnessUnavailable.message(), "secure randomness unavailable");
    assert_eq!(MefError::StateRollbackDetected.message(), "persisted state rollback detected");
    assert_eq!(MefError::InvalidState.message(), "invalid state transition");
}
