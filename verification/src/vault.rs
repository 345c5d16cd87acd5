//! Public keys as the vault hands them out: raw bytes tagged with the type of
//! the secret they belong to.

use vstd::prelude::*;
use vstd::std_specs::cmp::PartialEqSpecImpl;
use vstd::string::StringExecFns;
use crate::hex_text::{hex_encode, spec_hex_encode};

verus! {

/// The algorithm a secret, and so its public key, belongs to.
#[derive(Clone, Copy, Debug, PartialEq, Eq, Structural, PartialOrd, Ord, Hash)]
pub enum SecretType {
    /// Secret buffer
    Buffer,
    /// AES key
    Aes,
    /// Curve 25519 key
    X25519,
    /// Ed25519 key
    Ed25519,
    /// NIST P-256 key
    NistP256,
}

impl SecretType {
    /// The number of bytes a public key of this type has, where the type has public keys.
    pub open spec fn spec_public_key_len(self) -> Option<nat> {
        match self {
            SecretType::X25519 => Some(32nat),
            SecretType::Ed25519 => Some(32nat),
            SecretType::NistP256 => Some(64nat),
            _ => None,
        }
    }

    /// The variant's name.
    pub open spec fn spec_name(self) -> Seq<char> {
        match self {
            SecretType::Buffer => "Buffer"@,
            SecretType::Aes => "Aes"@,
            SecretType::X25519 => "X25519"@,
            SecretType::Ed25519 => "Ed25519"@,
            SecretType::NistP256 => "NistP256"@,
        }
    }

    /// The number of bytes a public key of this type has, where the type has public keys.
    pub fn public_key_len(&self) -> (n: Option<usize>)
        ensures
            n is Some <==> self.spec_public_key_len() is Some,
            n is Some ==> n.unwrap() == self.spec_public_key_len().unwrap(),
    {
        match self {
            SecretType::X25519 => Some(32),
            SecretType::Ed25519 => Some(32),
            SecretType::NistP256 => Some(64),
            _ => None,
        }
    }

    /// The variant's name.
    pub fn name(&self) -> (s: String)
        ensures
            s@ == self.spec_name(),
    {
        match self {
            SecretType::Buffer => String::from_str("Buffer"),
            SecretType::Aes => String::from_str("Aes"),
            SecretType::X25519 => String::from_str("X25519"),
            SecretType::Ed25519 => String::from_str("Ed25519"),
            SecretType::NistP256 => String::from_str("NistP256"),
        }
    }
}

/// What a public key is: its bytes and the type of its secret.
pub struct PublicKeyModel {
    pub data: Seq<u8>,
    pub stype: SecretType,
}

/// A public key.
#[derive(Debug, PartialOrd, Ord)]
pub struct PublicKey {
    data: Vec<u8>,
    stype: SecretType,
}

impl View for PublicKey {
    type V = PublicKeyModel;

    closed spec fn view(&self) -> PublicKeyModel {
        PublicKeyModel { data: self.data@, stype: self.stype }
    }
}

/// Calls `subtle::ConstantTimeEq::ct_eq` on two byte slices and turns the
/// `Choice` into a `bool`: slices of different lengths differ, and slices of
/// one length are equal when every byte is.
#[verifier::external_body]
pub(crate) fn ct_eq_bytes(a: &[u8], b: &[u8]) -> (same: bool)
    ensures
        same == (a@ == b@),
{
    p256::elliptic_curve::subtle::ConstantTimeEq::ct_eq(a, b).into()
}

/// Calls `zeroize::Zeroize::zeroize` on a byte vector, which overwrites the
/// bytes with zeros and leaves the vector empty.
#[verifier::external_body]
fn zeroize_bytes(bytes: &mut Vec<u8>)
    ensures
        final(bytes)@ == Seq::<u8>::empty(),
    opens_invariants none
    no_unwind
{
    zeroize::Zeroize::zeroize(bytes)
}

/// A copy of a byte vector.
pub(crate) fn clone_bytes(bytes: &Vec<u8>) -> (copy: Vec<u8>)
    ensures
        copy@ == bytes@,
{
    let copy = bytes.clone();
    assert(copy@ =~= bytes@);
    copy
}

impl Clone for PublicKey {
    fn clone(&self) -> (copy: Self)
        ensures
            copy@ == self@,
    {
        PublicKey { data: clone_bytes(&self.data), stype: self.stype }
    }
}

impl PartialEq for PublicKey {
    /// Compares the bytes in constant time, then the types.
    fn eq(&self, o: &Self) -> (same: bool) {
        let choice = ct_eq_bytes(self.data.as_slice(), o.data.as_slice());
        choice && self.stype == o.stype
    }
}

impl PartialEqSpecImpl for PublicKey {
    open spec fn obeys_eq_spec() -> bool {
        true
    }

    open spec fn eq_spec(&self, o: &Self) -> bool {
        self@.data == o@.data && self@.stype == o@.stype
    }
}

impl Eq for PublicKey {

}

impl Drop for PublicKey {
    /// A key's bytes are overwritten with zeros when the key goes away.
    fn drop(&mut self)
        ensures
            final(self)@.data == Seq::<u8>::empty(),
        opens_invariants none
        no_unwind
    {
        zeroize_bytes(&mut self.data);
    }
}

impl PublicKey {
    /// The text a key prints as: the name of its type, a space, and its bytes in hexadecimal.
    pub open spec fn spec_to_string(self) -> Seq<char> {
        self@.stype.spec_name() + " "@ + spec_hex_encode(self@.data)
    }

    /// Public Key data.
    pub fn data(&self) -> (d: &[u8])
        ensures
            d@ == self@.data,
    {
        self.data.as_slice()
    }

    /// Corresponding secret key type.
    pub fn stype(&self) -> (t: SecretType)
        ensures
            t == self@.stype,
    {
        self.stype
    }

    /// Create a new public key.
    pub fn new(data: Vec<u8>, stype: SecretType) -> (key: Self)
        ensures
            key@.data == data@,
            key@.stype == stype,
    {
        PublicKey { data, stype }
    }

    /// The key under which a public key is stored: its bytes in lower-case hexadecimal.
    pub fn to_string_key(&self) -> (s: String)
        ensures
            s@ == spec_hex_encode(self@.data),
    {
        hex_encode(self.data())
    }

    /// The printed form: the name of the type, a space, and the bytes in hexadecimal.
    pub fn to_string(&self) -> (s: String)
        ensures
            s@ == self.spec_to_string(),
    {
        let mut s = self.stype.name();
        s.append(" ");
        let digits = hex_encode(self.data());
        s.append(digits.as_str());
        s
    }

    /// Overwrites the key's bytes with zeros and leaves it empty; the type stays.
    pub fn zeroize(&mut self)
        ensures
            final(self)@.data == Seq::<u8>::empty(),
            final(self)@.stype == old(self)@.stype,
    {
        zeroize_bytes(&mut self.data);
    }
}

} // verus!
