//! Public keys of a fixed algorithm, and their conversion to and from the
//! vault's generic public key.

use vstd::prelude::*;
use vstd::slice::slice_to_vec;
use vstd::std_specs::convert::{FromSpecImpl, TryFromSpecImpl};
use crate::cbor::{leading_bytes, read_bytes, spec_encode_bytes, write_bytes, DecodeError};
use crate::error::IdentityError;
use crate::vault::{PublicKey, PublicKeyModel, SecretType};

verus! {

/// Ed25519 Public Key
#[derive(Debug, PartialEq, Eq)]
pub struct Ed25519PublicKey(pub [u8; 32]);

/// X25519 Public Key
#[derive(Debug, PartialEq, Eq)]
pub struct X25519PublicKey(pub [u8; 32]);

/// P256 Public Key
#[derive(Debug, PartialEq, Eq)]
pub struct P256ECDSAPublicKey(pub [u8; 64]);

/// The bytes of a generic key when it is read as a key of type `stype` with
/// `len` bytes: the key's own bytes where its type and its length are those,
/// the key-type error where either differs.
pub open spec fn typed_key_data(
    key: PublicKeyModel,
    stype: SecretType,
    len: nat,
) -> Result<Seq<u8>, IdentityError> {
    if key.stype == stype && key.data.len() == len {
        Ok(key.data)
    } else {
        Err(IdentityError::InvalidKeyType)
    }
}

/// The array whose bytes are `data`.
pub open spec fn array_of<const N: usize>(data: Seq<u8>) -> [u8; N] {
    choose|a: [u8; N]| a@ == data
}

/// The generic key that holds `data` under the type `stype`.
pub open spec fn generic_key(data: Seq<u8>, stype: SecretType) -> PublicKeyModel {
    PublicKeyModel { data, stype }
}

/// The first `N` bytes of `data` as an array.
fn array_from_slice<const N: usize>(data: &[u8]) -> (out: [u8; N])
    requires
        data@.len() == N,
    ensures
        out@ == data@,
{
    let mut out = [0u8; N];
    let mut i: usize = 0;
    while i < N
        invariant
            i <= N,
            data@.len() == N,
            out@.len() == N,
            forall|j: int| 0 <= j < i ==> out@[j] == data@[j],
        decreases N - i,
    {
        out[i] = data[i];
        i = i + 1;
    }
    assert(out@ =~= data@);
    out
}

/// A generic key read as a key of the type `stype` with `N` bytes.
fn typed_key_bytes<const N: usize>(
    value: &PublicKey,
    stype: SecretType,
) -> (r: Result<[u8; N], IdentityError>)
    ensures
        match typed_key_data(value@, stype, N as nat) {
            Ok(data) => r is Ok && r.unwrap()@ == data && r.unwrap() == array_of::<N>(data),
            Err(e) => r == Err::<[u8; N], IdentityError>(e),
        },
{
    if value.stype() == stype && value.data().len() == N {
        let out = array_from_slice::<N>(value.data());
        assert(out == array_of::<N>(value@.data)) by {
            let chosen = array_of::<N>(value@.data);
            assert(chosen@ == value@.data);
            assert(out@ =~= chosen@);
        }
        Ok(out)
    } else {
        Err(IdentityError::InvalidKeyType)
    }
}

/// The generic key that holds the bytes of `bytes` under the type `stype`.
fn generic_key_from<const N: usize>(bytes: &[u8; N], stype: SecretType) -> (key: PublicKey)
    ensures
        key@ == generic_key(bytes@, stype),
{
    PublicKey::new(slice_to_vec(bytes.as_slice()), stype)
}

/// A byte array read from the byte string that `input` begins with.
fn decode_key_bytes<const N: usize>(input: &[u8]) -> (r: Result<[u8; N], DecodeError>)
    ensures
        r is Ok <==> (leading_bytes(input@) is Some && leading_bytes(input@).unwrap().len() == N),
        r is Ok ==> r.unwrap()@ == leading_bytes(input@).unwrap(),
{
    match read_bytes(input, 0) {
        Ok((bytes, _)) => {
            if bytes.len() == N {
                Ok(array_from_slice::<N>(bytes.as_slice()))
            } else {
                Err(DecodeError::Malformed)
            }
        },
        Err(_) => Err(DecodeError::Malformed),
    }
}

impl Clone for Ed25519PublicKey {
    fn clone(&self) -> (copy: Self)
        ensures
            copy == *self,
    {
        Ed25519PublicKey(self.0)
    }
}

impl Clone for X25519PublicKey {
    fn clone(&self) -> (copy: Self)
        ensures
            copy == *self,
    {
        X25519PublicKey(self.0)
    }
}

impl Clone for P256ECDSAPublicKey {
    fn clone(&self) -> (copy: Self)
        ensures
            copy == *self,
    {
        P256ECDSAPublicKey(self.0)
    }
}

impl Ed25519PublicKey {
    /// The type under which the vault holds keys of this kind.
    pub open spec fn spec_stype() -> SecretType {
        SecretType::Ed25519
    }

    /// The key as one CBOR byte string.
    pub fn encode(&self) -> (out: Vec<u8>)
        ensures
            out@ == spec_encode_bytes(self.0@),
    {
        write_bytes(Vec::new(), self.0.as_slice())
    }

    /// The key that `input` begins with, written as a CBOR byte string of 32 bytes.
    pub fn decode(input: &[u8]) -> (r: Result<Self, DecodeError>)
        ensures
            r is Ok <==> (leading_bytes(input@) is Some && leading_bytes(input@).unwrap().len() == 32),
            r is Ok ==> r.unwrap().0@ == leading_bytes(input@).unwrap(),
    {
        match decode_key_bytes::<32>(input) {
            Ok(bytes) => Ok(Ed25519PublicKey(bytes)),
            Err(e) => Err(e),
        }
    }
}

impl X25519PublicKey {
    /// The type under which the vault holds keys of this kind.
    pub open spec fn spec_stype() -> SecretType {
        SecretType::X25519
    }

    /// The key as one CBOR byte string.
    pub fn encode(&self) -> (out: Vec<u8>)
        ensures
            out@ == spec_encode_bytes(self.0@),
    {
        write_bytes(Vec::new(), self.0.as_slice())
    }

    /// The key that `input` begins with, written as a CBOR byte string of 32 bytes.
    pub fn decode(input: &[u8]) -> (r: Result<Self, DecodeError>)
        ensures
            r is Ok <==> (leading_bytes(input@) is Some && leading_bytes(input@).unwrap().len() == 32),
            r is Ok ==> r.unwrap().0@ == leading_bytes(input@).unwrap(),
    {
        match decode_key_bytes::<32>(input) {
            Ok(bytes) => Ok(X25519PublicKey(bytes)),
            Err(e) => Err(e),
        }
    }
}

impl P256ECDSAPublicKey {
    /// The type under which the vault holds keys of this kind.
    pub open spec fn spec_stype() -> SecretType {
        SecretType::NistP256
    }

    /// The key as one CBOR byte string.
    pub fn encode(&self) -> (out: Vec<u8>)
        ensures
            out@ == spec_encode_bytes(self.0@),
    {
        write_bytes(Vec::new(), self.0.as_slice())
    }

    /// The key that `input` begins with, written as a CBOR byte string of 64 bytes.
    pub fn decode(input: &[u8]) -> (r: Result<Self, DecodeError>)
        ensures
            r is Ok <==> (leading_bytes(input@) is Some && leading_bytes(input@).unwrap().len() == 64),
            r is Ok ==> r.unwrap().0@ == leading_bytes(input@).unwrap(),
    {
        match decode_key_bytes::<64>(input) {
            Ok(bytes) => Ok(P256ECDSAPublicKey(bytes)),
            Err(e) => Err(e),
        }
    }
}

impl From<Ed25519PublicKey> for PublicKey {
    /// The generic key with the same bytes, under the type of this kind of key.
    fn from(value: Ed25519PublicKey) -> (key: Self)
        ensures
            key@ == generic_key(value.0@, SecretType::Ed25519),
    {
        generic_key_from::<32>(&value.0, SecretType::Ed25519)
    }
}

impl FromSpecImpl<Ed25519PublicKey> for PublicKey {
    /// Two generic keys with the same bytes and type need not be one value, so
    /// the conversion is stated by the view of its result, not as an equation.
    open spec fn obeys_from_spec() -> bool {
        false
    }

    open spec fn from_spec(v: Ed25519PublicKey) -> Self {
        choose|key: PublicKey| (#[trigger] key.view()) == generic_key(v.0@, SecretType::Ed25519)
    }
}

impl TryFrom<PublicKey> for Ed25519PublicKey {
    type Error = IdentityError;

    /// A generic key read as a key of this kind: its bytes where it holds
    /// 32 bytes under the type `Ed25519`, the key-type error otherwise.
    fn try_from(value: PublicKey) -> (r: Result<Self, IdentityError>)
        ensures
            match typed_key_data(value@, SecretType::Ed25519, 32) {
                Ok(data) => r is Ok && r.unwrap().0@ == data,
                Err(e) => r == Err::<Self, IdentityError>(e),
            },
    {
        match typed_key_bytes::<32>(&value, SecretType::Ed25519) {
            Ok(bytes) => Ok(Ed25519PublicKey(bytes)),
            Err(e) => Err(e),
        }
    }
}

impl TryFromSpecImpl<PublicKey> for Ed25519PublicKey {
    open spec fn obeys_try_from_spec() -> bool {
        true
    }

    open spec fn try_from_spec(v: PublicKey) -> Result<Self, IdentityError> {
        match typed_key_data(v@, SecretType::Ed25519, 32) {
            Ok(data) => Ok(Ed25519PublicKey(array_of::<32>(data))),
            Err(e) => Err(e),
        }
    }
}

impl From<X25519PublicKey> for PublicKey {
    /// The generic key with the same bytes, under the type of this kind of key.
    fn from(value: X25519PublicKey) -> (key: Self)
        ensures
            key@ == generic_key(value.0@, SecretType::X25519),
    {
        generic_key_from::<32>(&value.0, SecretType::X25519)
    }
}

impl FromSpecImpl<X25519PublicKey> for PublicKey {
    /// Two generic keys with the same bytes and type need not be one value, so
    /// the conversion is stated by the view of its result, not as an equation.
    open spec fn obeys_from_spec() -> bool {
        false
    }

    open spec fn from_spec(v: X25519PublicKey) -> Self {
        choose|key: PublicKey| (#[trigger] key.view()) == generic_key(v.0@, SecretType::X25519)
    }
}

impl TryFrom<PublicKey> for X25519PublicKey {
    type Error = IdentityError;

    /// A generic key read as a key of this kind: its bytes where it holds
    /// 32 bytes under the type `X25519`, the key-type error otherwise.
    fn try_from(value: PublicKey) -> (r: Result<Self, IdentityError>)
        ensures
            match typed_key_data(value@, SecretType::X25519, 32) {
                Ok(data) => r is Ok && r.unwrap().0@ == data,
                Err(e) => r == Err::<Self, IdentityError>(e),
            },
    {
        match typed_key_bytes::<32>(&value, SecretType::X25519) {
            Ok(bytes) => Ok(X25519PublicKey(bytes)),
            Err(e) => Err(e),
        }
    }
}

impl TryFromSpecImpl<PublicKey> for X25519PublicKey {
    open spec fn obeys_try_from_spec() -> bool {
        true
    }

    open spec fn try_from_spec(v: PublicKey) -> Result<Self, IdentityError> {
        match typed_key_data(v@, SecretType::X25519, 32) {
            Ok(data) => Ok(X25519PublicKey(array_of::<32>(data))),
            Err(e) => Err(e),
        }
    }
}

impl From<P256ECDSAPublicKey> for PublicKey {
    /// The generic key with the same bytes, under the type of this kind of key.
    fn from(value: P256ECDSAPublicKey) -> (key: Self)
        ensures
            key@ == generic_key(value.0@, SecretType::NistP256),
    {
        generic_key_from::<64>(&value.0, SecretType::NistP256)
    }
}

impl FromSpecImpl<P256ECDSAPublicKey> for PublicKey {
    /// Two generic keys with the same bytes and type need not be one value, so
    /// the conversion is stated by the view of its result, not as an equation.
    open spec fn obeys_from_spec() -> bool {
        false
    }

    open spec fn from_spec(v: P256ECDSAPublicKey) -> Self {
        choose|key: PublicKey| (#[trigger] key.view()) == generic_key(v.0@, SecretType::NistP256)
    }
}

impl TryFrom<PublicKey> for P256ECDSAPublicKey {
    type Error = IdentityError;

    /// A generic key read as a key of this kind: its bytes where it holds
    /// 64 bytes under the type `NistP256`, the key-type error otherwise.
    fn try_from(value: PublicKey) -> (r: Result<Self, IdentityError>)
        ensures
            match typed_key_data(value@, SecretType::NistP256, 64) {
                Ok(data) => r is Ok && r.unwrap().0@ == data,
                Err(e) => r == Err::<Self, IdentityError>(e),
            },
    {
        match typed_key_bytes::<64>(&value, SecretType::NistP256) {
            Ok(bytes) => Ok(P256ECDSAPublicKey(bytes)),
            Err(e) => Err(e),
        }
    }
}

impl TryFromSpecImpl<PublicKey> for P256ECDSAPublicKey {
    open spec fn obeys_try_from_spec() -> bool {
        true
    }

    open spec fn try_from_spec(v: PublicKey) -> Result<Self, IdentityError> {
        match typed_key_data(v@, SecretType::NistP256, 64) {
            Ok(data) => Ok(P256ECDSAPublicKey(array_of::<64>(data))),
            Err(e) => Err(e),
        }
    }
}

/// A type that has public keys of a fixed length.
pub open spec fn is_key_type(stype: SecretType) -> bool {
    stype.spec_public_key_len() is Some
}

/// A generic key whose type has public keys, and whose length is the one
/// that type asks for, converts to the key of that type, and converting
/// back gives the same bytes under the same type.
pub proof fn lemma_key_type_round_trip(key: PublicKeyModel)
    requires
        is_key_type(key.stype),
        key.data.len() == key.stype.spec_public_key_len().unwrap(),
    ensures
        typed_key_data(key, key.stype, key.data.len()) == Ok::<Seq<u8>, IdentityError>(key.data),
        generic_key(typed_key_data(key, key.stype, key.data.len()).unwrap(), key.stype) == key,
{
}

/// Bytes put under a type and read back as a key of that type are the same bytes.
pub proof fn lemma_typed_key_of_generic_key(data: Seq<u8>, stype: SecretType)
    ensures
        typed_key_data(generic_key(data, stype), stype, data.len()) == Ok::<Seq<u8>, IdentityError>(
            data,
        ),
{
}

/// A generic key declared under one type never converts to a key of another
/// type: the conversion fails with the key-type error, whatever its bytes.
pub proof fn lemma_other_key_type_is_refused(key: PublicKeyModel, wanted: SecretType, len: nat)
    requires
        key.stype != wanted,
    ensures
        typed_key_data(key, wanted, len) == Err::<Seq<u8>, IdentityError>(
            IdentityError::InvalidKeyType,
        ),
{
}

/// A generic key of the right type but the wrong length is refused too.
pub proof fn lemma_wrong_key_length_is_refused(key: PublicKeyModel, wanted: SecretType, len: nat)
    requires
        key.data.len() != len,
    ensures
        typed_key_data(key, wanted, len) == Err::<Seq<u8>, IdentityError>(
            IdentityError::InvalidKeyType,
        ),
{
}

/// A key written as a byte string is read back as the same bytes, whatever
/// follows it in the input.
pub proof fn lemma_key_encoding_round_trip(data: Seq<u8>, rest: Seq<u8>)
    requires
        data.len() == 32 || data.len() == 64,
    ensures
        leading_bytes(spec_encode_bytes(data) + rest) == Some(data),
        spec_encode_bytes(data) == seq![0x58u8, data.len() as u8] + data,
{
    reveal_with_fuel(crate::cbor::pow256, 9);
    crate::cbor::lemma_leading_bytes_of_encoding(data, rest);
    assert(spec_encode_bytes(data) =~= seq![0x58u8, data.len() as u8] + data);
}

} // verus!
