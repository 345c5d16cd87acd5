//! Typed failures of the identity layer.

use vstd::prelude::*;
use vstd::string::StringExecFns;

verus! {

/// Failures raised by identity, credential and secure-channel operations.
#[derive(Clone, Copy, Debug, PartialEq, Eq, Structural)]
pub enum IdentityError {
    /// Invalid key type
    InvalidKeyType,
    /// Invalid Identifier format
    InvalidIdentifier,
    /// Identity Change History is empty
    EmptyIdentity,
    /// Identity Verification Failed
    IdentityVerificationFailed,
    /// PurposeKeyAttestation Verification Failed
    PurposeKeyAttestationVerificationFailed,
    /// Credential Verification Failed
    CredentialVerificationFailed,
    /// Error occurred while getting current UTC Timestamp
    UnknownTimestamp,
    /// Unknown Authority
    UnknownAuthority,
    /// Unknown version of the Credential
    UnknownCredentialVersion,
    /// Unknown version of the Identity
    UnknownIdentityVersion,
    /// SecureChannelVerificationFailed
    SecureChannelVerificationFailed,
    /// SecureChannelTrustCheckFailed
    SecureChannelTrustCheckFailed,
    /// Invalid Nonce value
    InvalidNonce,
    /// Nonce overflow
    NonceOverflow,
    /// Unknown message destination
    UnknownChannelMsgDestination,
    /// Invalid LocalInfo type
    InvalidLocalInfoType,
    /// Duplicate Secure Channel
    DuplicateSecureChannel,
    /// Consistency Error
    ConsistencyError,
}

/// The broad kind an error belongs to.
#[derive(Clone, Copy, Debug, PartialEq, Eq, Structural)]
pub enum ErrorClass {
    /// Wrong algorithm tag, length or identifier format at a decode or convert boundary.
    KeyMaterial,
    /// Empty or inconsistent change history, or a nonce problem during a handshake.
    IdentityState,
    /// A handshake, credential or authority check that did not pass.
    Verification,
    /// A message or channel that could not be routed or registered.
    Routing,
    /// An internal invariant found broken.
    Consistency,
    /// A version or environment problem outside the other kinds.
    Other,
}

impl IdentityError {
    /// The numeric code of the error: variants count upwards from one in declaration order.
    pub open spec fn spec_code(self) -> int {
        match self {
            IdentityError::InvalidKeyType => 1,
            IdentityError::InvalidIdentifier => 2,
            IdentityError::EmptyIdentity => 3,
            IdentityError::IdentityVerificationFailed => 4,
            IdentityError::PurposeKeyAttestationVerificationFailed => 5,
            IdentityError::CredentialVerificationFailed => 6,
            IdentityError::UnknownTimestamp => 7,
            IdentityError::UnknownAuthority => 8,
            IdentityError::UnknownCredentialVersion => 9,
            IdentityError::UnknownIdentityVersion => 10,
            IdentityError::SecureChannelVerificationFailed => 11,
            IdentityError::SecureChannelTrustCheckFailed => 12,
            IdentityError::InvalidNonce => 13,
            IdentityError::NonceOverflow => 14,
            IdentityError::UnknownChannelMsgDestination => 15,
            IdentityError::InvalidLocalInfoType => 16,
            IdentityError::DuplicateSecureChannel => 17,
            IdentityError::ConsistencyError => 18,
        }
    }

    /// The variant's name, which is also its printed form.
    pub open spec fn spec_name(self) -> Seq<char> {
        match self {
            IdentityError::InvalidKeyType => "InvalidKeyType"@,
            IdentityError::InvalidIdentifier => "InvalidIdentifier"@,
            IdentityError::EmptyIdentity => "EmptyIdentity"@,
            IdentityError::IdentityVerificationFailed => "IdentityVerificationFailed"@,
            IdentityError::PurposeKeyAttestationVerificationFailed => "PurposeKeyAttestationVerificationFailed"@,
            IdentityError::CredentialVerificationFailed => "CredentialVerificationFailed"@,
            IdentityError::UnknownTimestamp => "UnknownTimestamp"@,
            IdentityError::UnknownAuthority => "UnknownAuthority"@,
            IdentityError::UnknownCredentialVersion => "UnknownCredentialVersion"@,
            IdentityError::UnknownIdentityVersion => "UnknownIdentityVersion"@,
            IdentityError::SecureChannelVerificationFailed => "SecureChannelVerificationFailed"@,
            IdentityError::SecureChannelTrustCheckFailed => "SecureChannelTrustCheckFailed"@,
            IdentityError::InvalidNonce => "InvalidNonce"@,
            IdentityError::NonceOverflow => "NonceOverflow"@,
            IdentityError::UnknownChannelMsgDestination => "UnknownChannelMsgDestination"@,
            IdentityError::InvalidLocalInfoType => "InvalidLocalInfoType"@,
            IdentityError::DuplicateSecureChannel => "DuplicateSecureChannel"@,
            IdentityError::ConsistencyError => "ConsistencyError"@,
        }
    }

    /// The kind each error belongs to.
    pub open spec fn spec_class(self) -> ErrorClass {
        match self {
            IdentityError::InvalidKeyType | IdentityError::InvalidIdentifier => ErrorClass::KeyMaterial,
            IdentityError::EmptyIdentity
            | IdentityError::InvalidNonce
            | IdentityError::NonceOverflow => ErrorClass::IdentityState,
            IdentityError::IdentityVerificationFailed
            | IdentityError::PurposeKeyAttestationVerificationFailed
            | IdentityError::CredentialVerificationFailed
            | IdentityError::UnknownAuthority
            | IdentityError::SecureChannelVerificationFailed
            | IdentityError::SecureChannelTrustCheckFailed => ErrorClass::Verification,
            IdentityError::UnknownChannelMsgDestination
            | IdentityError::DuplicateSecureChannel => ErrorClass::Routing,
            IdentityError::ConsistencyError => ErrorClass::Consistency,
            IdentityError::UnknownTimestamp
            | IdentityError::UnknownCredentialVersion
            | IdentityError::UnknownIdentityVersion
            | IdentityError::InvalidLocalInfoType => ErrorClass::Other,
        }
    }

    /// The numeric code of the error.
    pub fn code(&self) -> (c: u32)
        ensures
            c == self.spec_code(),
            1 <= c <= 18,
    {
        match self {
            IdentityError::InvalidKeyType => 1,
            IdentityError::InvalidIdentifier => 2,
            IdentityError::EmptyIdentity => 3,
            IdentityError::IdentityVerificationFailed => 4,
            IdentityError::PurposeKeyAttestationVerificationFailed => 5,
            IdentityError::CredentialVerificationFailed => 6,
            IdentityError::UnknownTimestamp => 7,
            IdentityError::UnknownAuthority => 8,
            IdentityError::UnknownCredentialVersion => 9,
            IdentityError::UnknownIdentityVersion => 10,
            IdentityError::SecureChannelVerificationFailed => 11,
            IdentityError::SecureChannelTrustCheckFailed => 12,
            IdentityError::InvalidNonce => 13,
            IdentityError::NonceOverflow => 14,
            IdentityError::UnknownChannelMsgDestination => 15,
            IdentityError::InvalidLocalInfoType => 16,
            IdentityError::DuplicateSecureChannel => 17,
            IdentityError::ConsistencyError => 18,
        }
    }

    /// The kind the error belongs to.
    pub fn class(&self) -> (c: ErrorClass)
        ensures
            c == self.spec_class(),
    {
        match self {
            IdentityError::InvalidKeyType | IdentityError::InvalidIdentifier => ErrorClass::KeyMaterial,
            IdentityError::EmptyIdentity
            | IdentityError::InvalidNonce
            | IdentityError::NonceOverflow => ErrorClass::IdentityState,
            IdentityError::IdentityVerificationFailed
            | IdentityError::PurposeKeyAttestationVerificationFailed
            | IdentityError::CredentialVerificationFailed
            | IdentityError::UnknownAuthority
            | IdentityError::SecureChannelVerificationFailed
            | IdentityError::SecureChannelTrustCheckFailed => ErrorClass::Verification,
            IdentityError::UnknownChannelMsgDestination
            | IdentityError::DuplicateSecureChannel => ErrorClass::Routing,
            IdentityError::ConsistencyError => ErrorClass::Consistency,
            IdentityError::UnknownTimestamp
            | IdentityError::UnknownCredentialVersion
            | IdentityError::UnknownIdentityVersion
            | IdentityError::InvalidLocalInfoType => ErrorClass::Other,
        }
    }

    /// The printed form of the error: the name of its variant.
    pub fn to_string(&self) -> (s: String)
        ensures
            s@ == self.spec_name(),
    {
        match self {
            IdentityError::InvalidKeyType => String::from_str("InvalidKeyType"),
            IdentityError::InvalidIdentifier => String::from_str("InvalidIdentifier"),
            IdentityError::EmptyIdentity => String::from_str("EmptyIdentity"),
            IdentityError::IdentityVerificationFailed => String::from_str("IdentityVerificationFailed"),
            IdentityError::PurposeKeyAttestationVerificationFailed => String::from_str(
                "PurposeKeyAttestationVerificationFailed",
            ),
            IdentityError::CredentialVerificationFailed => String::from_str("CredentialVerificationFailed"),
            IdentityError::UnknownTimestamp => String::from_str("UnknownTimestamp"),
            IdentityError::UnknownAuthority => String::from_str("UnknownAuthority"),
            IdentityError::UnknownCredentialVersion => String::from_str("UnknownCredentialVersion"),
            IdentityError::UnknownIdentityVersion => String::from_str("UnknownIdentityVersion"),
            IdentityError::SecureChannelVerificationFailed => String::from_str(
                "SecureChannelVerificationFailed",
            ),
            IdentityError::SecureChannelTrustCheckFailed => String::from_str("SecureChannelTrustCheckFailed"),
            IdentityError::InvalidNonce => String::from_str("InvalidNonce"),
            IdentityError::NonceOverflow => String::from_str("NonceOverflow"),
            IdentityError::UnknownChannelMsgDestination => String::from_str("UnknownChannelMsgDestination"),
            IdentityError::InvalidLocalInfoType => String::from_str("InvalidLocalInfoType"),
            IdentityError::DuplicateSecureChannel => String::from_str("DuplicateSecureChannel"),
            IdentityError::ConsistencyError => String::from_str("ConsistencyError"),
        }
    }
}

/// Distinct errors carry distinct codes.
pub proof fn lemma_code_is_injective(a: IdentityError, b: IdentityError)
    ensures
        a.spec_code() == b.spec_code() <==> a == b,
{
}

} // verus!
