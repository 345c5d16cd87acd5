use ockam_trust::error::{ErrorClass, IdentityError};

fn all_errors() -> Vec<IdentityError> {
    vec![
        IdentityError::InvalidKeyType,
        IdentityError::InvalidIdentifier,
        IdentityError::EmptyIdentity,
        IdentityError::IdentityVerificationFailed,
        IdentityError::PurposeKeyAttestationVerificationFailed,
        IdentityError::CredentialVerificationFailed,
        IdentityError::UnknownTimestamp,
        IdentityError::UnknownAuthority,
        IdentityError::UnknownCredentialVersion,
        IdentityError::UnknownIdentityVersion,
        IdentityError::SecureChannelVerificationFailed,
        IdentityError::SecureChannelTrustCheckFailed,
        IdentityError::InvalidNonce,
        IdentityError::NonceOverflow,
        IdentityError::UnknownChannelMsgDestination,
        IdentityError::InvalidLocalInfoType,
        IdentityError::DuplicateSecureChannel,
        IdentityError::ConsistencyError,
    ]
}

#[test]
fn error_codes_count_up_from_one() {
    for (i, e) in all_errors().iter().enumerate() {
        assert_eq!(e.code(), i as u32 + 1);
    }
    assert_eq!(IdentityError::InvalidKeyType.code(), 1);
    assert_eq!(IdentityError::UnknownAuthority.code(), 8);
    assert_eq!(IdentityError::ConsistencyError.code(), 18);
}

#[test]
fn error_prints_as_the_name_of_its_variant() {
    for e in all_errors() {
        assert_eq!(e.to_string(), format!("{:?}", e));
    }
    assert_eq!(IdentityError::InvalidKeyType.to_string(), "InvalidKeyType");
    assert_eq!(
        IdentityError::PurposeKeyAttestationVerificationFailed.to_string(),
        "PurposeKeyAttestationVerificationFailed"
    );
}

#[test]
fn errors_fall_into_their_kinds() {
    assert_eq!(IdentityError::InvalidKeyType.class(), ErrorClass::KeyMaterial);
    assert_eq!(IdentityError::InvalidIdentifier.class(), ErrorClass::KeyMaterial);
    assert_eq!(IdentityError::EmptyIdentity.class(), ErrorClass::IdentityState);
    assert_eq!(IdentityError::InvalidNonce.class(), ErrorClass::IdentityState);
    assert_eq!(IdentityError::NonceOverflow.class(), ErrorClass::IdentityState);
    assert_eq!(IdentityError::IdentityVerificationFailed.class(), ErrorClass::Verification);
    assert_eq!(IdentityError::CredentialVerificationFailed.class(), ErrorClass::Verification);
    assert_eq!(IdentityError::UnknownAuthority.class(), ErrorClass::Verification);
    assert_eq!(IdentityError::SecureChannelTrustCheckFailed.class(), ErrorClass::Verification);
    assert_eq!(IdentityError::UnknownChannelMsgDestination.class(), ErrorClass::Routing);
    assert_eq!(IdentityError::DuplicateSecureChannel.class(), ErrorClass::Routing);
    assert_eq!(IdentityError::ConsistencyError.class(), ErrorClass::Consistency);
    assert_eq!(IdentityError::UnknownTimestamp.class(), ErrorClass::Other);
}
