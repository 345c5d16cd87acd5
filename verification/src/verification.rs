//! The verifier: what it is asked, what it answers, and how it decides once
//! the credential was decoded and its signature checked.

use vstd::prelude::*;
use crate::byte_map::{lemma_put_then_get, spec_put, value_at, ByteMap};
use crate::codec::{
    codec_error,
    decode_fields,
    encode_fields,
    shape_error,
    spec_decode_fields,
    spec_encode_fields,
    CodecError,
};
use crate::codec_laws::fields_fit;
use crate::error::IdentityError;
use crate::identity::{identity_models, Identifier, Identity, IdentityModel};
use crate::vault::clone_bytes;
use crate::wire::{
    field_at,
    find_field,
    lemma_field_at_hit,
    wire_fields,
    Field,
    FieldModel,
    FieldValue,
    WireError,
};

verus! {

/// A point in time, in seconds since the start of 1970.
#[derive(Clone, Copy, Debug, PartialEq, Eq, Structural, PartialOrd, Ord, Hash)]
pub struct Timestamp(pub u64);

/// The attributes that a credential asserts of its subject: values by name.
#[derive(Debug)]
pub struct Attributes {
    attrs: ByteMap,
}

impl View for Attributes {
    type V = Seq<(Seq<u8>, Seq<u8>)>;

    closed spec fn view(&self) -> Seq<(Seq<u8>, Seq<u8>)> {
        self.attrs@
    }
}

impl Clone for Attributes {
    fn clone(&self) -> (copy: Self)
        ensures
            copy@ == self@,
    {
        Attributes { attrs: self.attrs.clone() }
    }
}

impl Attributes {
    /// No attributes.
    pub fn new() -> (attributes: Self)
        ensures
            attributes@ == Seq::<(Seq<u8>, Seq<u8>)>::empty(),
    {
        Attributes { attrs: ByteMap::new() }
    }

    /// The attributes held by `map`.
    pub fn from_map(map: ByteMap) -> (attributes: Self)
        ensures
            attributes@ == map@,
    {
        Attributes { attrs: map }
    }

    /// The attributes as a map.
    pub fn as_map(&self) -> (map: &ByteMap)
        ensures
            map@ == self@,
    {
        &self.attrs
    }

    /// The number of attributes.
    pub fn len(&self) -> (n: usize)
        ensures
            n == self@.len(),
    {
        self.attrs.len()
    }

    /// Whether there is no attribute.
    pub fn is_empty(&self) -> (empty: bool)
        ensures
            empty == (self@.len() == 0),
    {
        self.attrs.is_empty()
    }

    /// Sets the attribute `name` to `value`.
    pub fn put(&mut self, name: Vec<u8>, value: Vec<u8>)
        ensures
            final(self)@ == spec_put(old(self)@, name@, value@),
    {
        self.attrs.put(name, value);
    }

    /// The value of the attribute `name`, if it is set.
    pub fn get(&self, name: &[u8]) -> (value: Option<&Vec<u8>>)
        ensures
            match value {
                Some(bytes) => value_at(self@, name@) == Some(bytes@),
                None => value_at(self@, name@) is None,
            },
    {
        self.attrs.get(name)
    }
}

/// The model of a [`VerifyRequest`].
pub struct VerifyRequestModel {
    /// The credential to verify, as it came.
    pub cred: Seq<u8>,
    /// The identifier the credential is claimed to be about.
    pub subj: Seq<u8>,
    /// The candidate authorities: their exported identities by identifier,
    /// in the order in which they were first added.
    pub auth: Seq<(Seq<u8>, Seq<u8>)>,
}

/// Asks the verifier to verify a credential. Field 1 is the credential,
/// field 2 the subject, field 3 the authorities.
#[derive(Debug)]
pub struct VerifyRequest {
    cred: Vec<u8>,
    subj: Identifier,
    auth: ByteMap,
}

impl View for VerifyRequest {
    type V = VerifyRequestModel;

    closed spec fn view(&self) -> VerifyRequestModel {
        VerifyRequestModel { cred: self.cred@, subj: self.subj@, auth: self.auth@ }
    }
}

/// The model of a [`VerifyResponse`].
pub struct VerifyResponseModel {
    pub attrs: Seq<(Seq<u8>, Seq<u8>)>,
    pub expires: Timestamp,
}

/// The verifier's answer: the verified attributes and when they expire.
/// Field 1 is the attributes, field 2 the time of expiry.
#[derive(Debug)]
pub struct VerifyResponse {
    attrs: Attributes,
    expires: Timestamp,
}

impl View for VerifyResponse {
    type V = VerifyResponseModel;

    closed spec fn view(&self) -> VerifyResponseModel {
        VerifyResponseModel { attrs: self.attrs@, expires: self.expires }
    }
}

/// What a credential says once it is decoded: about whom, by whom, what, until when.
pub struct CredentialClaimModel {
    pub subject: Seq<u8>,
    pub issuer: Seq<u8>,
    pub attributes: Seq<(Seq<u8>, Seq<u8>)>,
    pub expires_at: Timestamp,
}

/// What a credential says once it is decoded. Nothing of it is believed
/// before the verifier has decided.
#[derive(Debug)]
pub struct CredentialClaim {
    subject: Identifier,
    issuer: Identifier,
    attributes: Attributes,
    expires_at: Timestamp,
}

impl View for CredentialClaim {
    type V = CredentialClaimModel;

    closed spec fn view(&self) -> CredentialClaimModel {
        CredentialClaimModel {
            subject: self.subject@,
            issuer: self.issuer@,
            attributes: self.attributes@,
            expires_at: self.expires_at,
        }
    }
}

impl CredentialClaim {
    /// The claim of a credential that `issuer` issued about `subject`.
    pub fn new(
        subject: Identifier,
        issuer: Identifier,
        attributes: Attributes,
        expires_at: Timestamp,
    ) -> (claim: Self)
        ensures
            claim@.subject == subject@,
            claim@.issuer == issuer@,
            claim@.attributes == attributes@,
            claim@.expires_at == expires_at,
    {
        CredentialClaim { subject, issuer, attributes, expires_at }
    }

    /// Whom the credential is about.
    pub fn subject(&self) -> (id: &Identifier)
        ensures
            id@ == self@.subject,
    {
        &self.subject
    }

    /// Who issued the credential.
    pub fn issuer(&self) -> (id: &Identifier)
        ensures
            id@ == self@.issuer,
    {
        &self.issuer
    }

    /// What the credential asserts.
    pub fn attributes(&self) -> (attributes: &Attributes)
        ensures
            attributes@ == self@.attributes,
    {
        &self.attributes
    }

    /// Until when the credential holds.
    pub fn expires_at(&self) -> (t: Timestamp)
        ensures
            t == self@.expires_at,
    {
        self.expires_at
    }
}

/// What verifying a credential comes to.
///
/// The issuer must be among the authorities of the request, else the
/// authority is unknown. The time must be known. Then the credential must be
/// about the subject of the request, must not have expired, and must carry
/// the issuer's signature; it is refused where any of the three fails.
pub open spec fn spec_verify(
    request: VerifyRequestModel,
    claim: CredentialClaimModel,
    signature_valid: bool,
    now: Option<Timestamp>,
) -> Result<VerifyResponseModel, IdentityError> {
    if value_at(request.auth, claim.issuer) is None {
        Err(IdentityError::UnknownAuthority)
    } else if now is None {
        Err(IdentityError::UnknownTimestamp)
    } else if claim.subject != request.subj || claim.expires_at.0 <= now.unwrap().0
        || !signature_valid {
        Err(IdentityError::CredentialVerificationFailed)
    } else {
        Ok(VerifyResponseModel { attrs: claim.attributes, expires: claim.expires_at })
    }
}

/// The candidates after each of `authorities` was added in turn, under its
/// identifier and with its exported change history.
pub open spec fn spec_with_authorities(
    auth: Seq<(Seq<u8>, Seq<u8>)>,
    authorities: Seq<IdentityModel>,
) -> Seq<(Seq<u8>, Seq<u8>)>
    decreases authorities.len(),
{
    if authorities.len() == 0 {
        auth
    } else {
        spec_put(
            spec_with_authorities(auth, authorities.drop_last()),
            authorities.last().identifier,
            authorities.last().change_history,
        )
    }
}

impl VerifyRequest {
    /// The numbered fields under which a request travels.
    pub open spec fn spec_fields(model: VerifyRequestModel) -> Seq<FieldModel> {
        seq![
            FieldModel { number: 1, value: FieldValue::Bytes(model.cred) },
            FieldModel { number: 2, value: FieldValue::Bytes(model.subj) },
            FieldModel { number: 3, value: FieldValue::Entries(model.auth) },
        ]
    }

    /// The request that a list of numbered fields stands for.
    pub open spec fn spec_from_fields(fields: Seq<FieldModel>) -> Result<VerifyRequestModel, WireError> {
        match field_at(fields, 1) {
            Some(FieldValue::Bytes(cred)) => match field_at(fields, 2) {
                Some(FieldValue::Bytes(subj)) => match field_at(fields, 3) {
                    Some(FieldValue::Entries(auth)) => Ok(VerifyRequestModel { cred, subj, auth }),
                    Some(_) => Err(WireError::WrongType { number: 3 }),
                    None => Err(WireError::Missing { number: 3 }),
                },
                Some(_) => Err(WireError::WrongType { number: 2 }),
                None => Err(WireError::Missing { number: 2 }),
            },
            Some(_) => Err(WireError::WrongType { number: 1 }),
            None => Err(WireError::Missing { number: 1 }),
        }
    }

    /// A request to verify `cred` as a credential about `subj`, with no
    /// authority to check it against yet.
    pub fn new(cred: Vec<u8>, subj: Identifier) -> (request: Self)
        ensures
            request@.cred == cred@,
            request@.subj == subj@,
            request@.auth == Seq::<(Seq<u8>, Seq<u8>)>::empty(),
    {
        Self { cred, subj, auth: ByteMap::new() }
    }

    /// The same request with the authority `id` added, whose exported
    /// identity is `identity`. An authority added again keeps its place and
    /// takes the new identity.
    pub fn with_authority(self, id: Identifier, identity: Vec<u8>) -> (request: Self)
        ensures
            request@.cred == self@.cred,
            request@.subj == self@.subj,
            request@.auth == spec_put(self@.auth, id@, identity@),
            value_at(request@.auth, id@) == Some(identity@),
    {
        let mut auth = self.auth;
        proof {
            lemma_put_then_get(auth@, id@, identity@, id@);
        }
        auth.put(clone_bytes_of(&id), identity);
        Self { cred: self.cred, subj: self.subj, auth }
    }

    /// The same request with each of `authorities` added in turn: the
    /// authorities of a trust context become the candidates of the request.
    pub fn with_authorities(self, authorities: &Vec<Identity>) -> (request: Self)
        ensures
            request@.cred == self@.cred,
            request@.subj == self@.subj,
            request@.auth == spec_with_authorities(self@.auth, identity_models(authorities@)),
    {
        let ghost start = self@.auth;
        let ghost all = identity_models(authorities@);
        let mut auth = self.auth;
        let mut i: usize = 0;
        assert(all.take(0) =~= Seq::<IdentityModel>::empty());
        while i < authorities.len()
            invariant
                i <= authorities.len(),
                all == identity_models(authorities@),
                auth@ == spec_with_authorities(start, all.take(i as int)),
            decreases authorities.len() - i,
        {
            let ghost upto = all.take(i + 1);
            assert(upto.drop_last() =~= all.take(i as int));
            assert(upto.last() == authorities@[i as int]@);
            let id = clone_bytes_of(authorities[i].identifier());
            let history = vstd::slice::slice_to_vec(authorities[i].export());
            auth.put(id, history);
            i = i + 1;
        }
        assert(all.take(all.len() as int) =~= all);
        Self { cred: self.cred, subj: self.subj, auth }
    }

    /// The credential to verify.
    pub fn credential(&self) -> (bytes: &[u8])
        ensures
            bytes@ == self@.cred,
    {
        self.cred.as_slice()
    }

    /// The identifier the credential is claimed to be about.
    pub fn subject(&self) -> (id: &Identifier)
        ensures
            id@ == self@.subj,
    {
        &self.subj
    }

    /// The candidate authorities, in the order in which they were first added.
    pub fn authorities(&self) -> (map: &ByteMap)
        ensures
            map@ == self@.auth,
    {
        &self.auth
    }

    /// The exported identity of the authority `id`, if it is a candidate.
    pub fn authority(&self, id: &Identifier) -> (identity: Option<&Vec<u8>>)
        ensures
            match identity {
                Some(bytes) => value_at(self@.auth, id@) == Some(bytes@),
                None => value_at(self@.auth, id@) is None,
            },
    {
        self.auth.get(id.as_bytes())
    }

    /// The exported identity of the authority that issued what `claim` says,
    /// which is what the signature of the credential is to be checked
    /// against; the unknown-authority error where the issuer is no candidate.
    pub fn issuing_authority(&self, claim: &CredentialClaim) -> (r: Result<&Vec<u8>, IdentityError>)
        ensures
            match r {
                Ok(bytes) => value_at(self@.auth, claim@.issuer) == Some(bytes@),
                Err(e) => value_at(self@.auth, claim@.issuer) is None && e
                    == IdentityError::UnknownAuthority,
            },
    {
        match self.authority(claim.issuer()) {
            Some(bytes) => Ok(bytes),
            None => Err(IdentityError::UnknownAuthority),
        }
    }

    /// Decides on a credential. `claim` is what the credential says;
    /// `signature_valid` is whether its signature is that of the issuing
    /// authority's identity; `now` is the current time, if it could be had.
    pub fn verify(
        &self,
        claim: &CredentialClaim,
        signature_valid: bool,
        now: Option<Timestamp>,
    ) -> (r: Result<VerifyResponse, IdentityError>)
        ensures
            match spec_verify(self@, claim@, signature_valid, now) {
                Ok(response) => r is Ok && r.unwrap()@ == response,
                Err(e) => r == Err::<VerifyResponse, IdentityError>(e),
            },
    {
        if self.authority(claim.issuer()).is_none() {
            return Err(IdentityError::UnknownAuthority);
        }
        let now = match now {
            Some(t) => t,
            None => {
                return Err(IdentityError::UnknownTimestamp);
            },
        };
        if !(claim.subject() == &self.subj) || claim.expires_at().0 <= now.0 || !signature_valid {
            return Err(IdentityError::CredentialVerificationFailed);
        }
        Ok(VerifyResponse::new(claim.attributes().clone(), claim.expires_at()))
    }

    /// The numbered fields under which the request travels.
    pub fn to_fields(&self) -> (fields: Vec<Field>)
        ensures
            wire_fields(fields@) == Self::spec_fields(self@),
    {
        let mut fields: Vec<Field> = Vec::new();
        fields.push(Field::bytes(1, clone_bytes(&self.cred)));
        fields.push(Field::bytes(2, clone_bytes_of(&self.subj)));
        fields.push(Field::entries(3, self.auth.clone()));
        assert(wire_fields(fields@) =~= Self::spec_fields(self@));
        fields
    }

    /// The request that a list of numbered fields stands for, or the first
    /// field number at which the list falls short.
    pub fn from_fields(fields: &Vec<Field>) -> (r: Result<Self, WireError>)
        ensures
            match Self::spec_from_fields(wire_fields(fields@)) {
                Ok(model) => r is Ok && r.unwrap()@ == model,
                Err(e) => r == Err::<Self, WireError>(e),
            },
    {
        let cred = match find_field(fields, 1) {
            Some(field) => match field.as_bytes() {
                Some(bytes) => clone_bytes(bytes),
                None => {
                    return Err(WireError::WrongType { number: 1 });
                },
            },
            None => {
                return Err(WireError::Missing { number: 1 });
            },
        };
        let subj = match find_field(fields, 2) {
            Some(field) => match field.as_bytes() {
                Some(bytes) => Identifier::new(clone_bytes(bytes)),
                None => {
                    return Err(WireError::WrongType { number: 2 });
                },
            },
            None => {
                return Err(WireError::Missing { number: 2 });
            },
        };
        let auth = match find_field(fields, 3) {
            Some(field) => match field.as_entries() {
                Some(map) => map.clone(),
                None => {
                    return Err(WireError::WrongType { number: 3 });
                },
            },
            None => {
                return Err(WireError::Missing { number: 3 });
            },
        };
        Ok(Self { cred, subj, auth })
    }

    /// The model as bytes: one map from field number to value.
    pub fn encode(&self) -> (out: Vec<u8>)
        ensures
            out@ == spec_encode_fields(Self::spec_fields(self@)),
    {
        encode_fields(&self.to_fields())
    }

    /// The model that `input` begins with, or why it begins with none: the
    /// bytes are no map of fields, or the fields are not those of the model.
    pub fn decode(input: &[u8]) -> (r: Result<Self, CodecError>)
        ensures
            match spec_decode_fields(input@) {
                None => r == Err::<Self, CodecError>(CodecError::Malformed),
                Some(fields) => match Self::spec_from_fields(fields) {
                    Ok(model) => r is Ok && r.unwrap()@ == model,
                    Err(e) => r == Err::<Self, CodecError>(shape_error(e)),
                },
            },
    {
        match decode_fields(input) {
            Ok(fields) => match Self::from_fields(&fields) {
                Ok(model) => Ok(model),
                Err(e) => Err(codec_error(e)),
            },
            Err(_) => Err(CodecError::Malformed),
        }
    }

    /// A request is read back from its own fields unchanged.
    pub proof fn lemma_fields_round_trip(model: VerifyRequestModel)
        ensures
            Self::spec_from_fields(Self::spec_fields(model)) == Ok::<VerifyRequestModel, WireError>(
                model,
            ),
    {
        let fields = Self::spec_fields(model);
        lemma_field_at_hit(fields, 0, 1);
        lemma_field_at_hit(fields, 1, 2);
        lemma_field_at_hit(fields, 2, 3);
    }

    /// A request is read back from its own bytes unchanged, whatever follows
    /// them, as long as its lengths are such as the format can carry.
    pub proof fn lemma_bytes_round_trip(model: VerifyRequestModel, rest: Seq<u8>)
        requires
            fields_fit(Self::spec_fields(model)),
        ensures
            spec_decode_fields(spec_encode_fields(Self::spec_fields(model)) + rest) == Some(
                Self::spec_fields(model),
            ),
            Self::spec_from_fields(Self::spec_fields(model)) == Ok::<VerifyRequestModel, WireError>(model),
    {
        crate::codec_laws::lemma_fields_round_trip(Self::spec_fields(model), rest);
        Self::lemma_fields_round_trip(model);
    }
}

/// The bytes of an identifier, copied.
fn clone_bytes_of(id: &Identifier) -> (bytes: Vec<u8>)
    ensures
        bytes@ == id@,
{
    vstd::slice::slice_to_vec(id.as_bytes())
}

impl VerifyResponse {
    /// The numbered fields under which an answer travels.
    pub open spec fn spec_fields(model: VerifyResponseModel) -> Seq<FieldModel> {
        seq![
            FieldModel { number: 1, value: FieldValue::Entries(model.attrs) },
            FieldModel { number: 2, value: FieldValue::Unsigned(model.expires.0) },
        ]
    }

    /// The answer that a list of numbered fields stands for.
    pub open spec fn spec_from_fields(fields: Seq<FieldModel>) -> Result<VerifyResponseModel, WireError> {
        match field_at(fields, 1) {
            Some(FieldValue::Entries(attrs)) => match field_at(fields, 2) {
                Some(FieldValue::Unsigned(expires)) => Ok(
                    VerifyResponseModel { attrs, expires: Timestamp(expires) },
                ),
                Some(_) => Err(WireError::WrongType { number: 2 }),
                None => Err(WireError::Missing { number: 2 }),
            },
            Some(_) => Err(WireError::WrongType { number: 1 }),
            None => Err(WireError::Missing { number: 1 }),
        }
    }

    /// The answer that `attrs` were verified and hold until `expires`.
    pub fn new(attrs: Attributes, expires: Timestamp) -> (response: Self)
        ensures
            response@.attrs == attrs@,
            response@.expires == expires,
    {
        Self { attrs, expires }
    }

    /// The verified attributes.
    pub fn attributes(&self) -> (attributes: &Attributes)
        ensures
            attributes@ == self@.attrs,
    {
        &self.attrs
    }

    /// When the attributes expire.
    pub fn expires_at(&self) -> (t: Timestamp)
        ensures
            t == self@.expires,
    {
        self.expires
    }

    /// The numbered fields under which the answer travels.
    pub fn to_fields(&self) -> (fields: Vec<Field>)
        ensures
            wire_fields(fields@) == Self::spec_fields(self@),
    {
        let mut fields: Vec<Field> = Vec::new();
        fields.push(Field::entries(1, self.attrs.as_map().clone()));
        fields.push(Field::unsigned(2, self.expires.0));
        assert(wire_fields(fields@) =~= Self::spec_fields(self@));
        fields
    }

    /// The answer that a list of numbered fields stands for, or the first
    /// field number at which the list falls short.
    pub fn from_fields(fields: &Vec<Field>) -> (r: Result<Self, WireError>)
        ensures
            match Self::spec_from_fields(wire_fields(fields@)) {
                Ok(model) => r is Ok && r.unwrap()@ == model,
                Err(e) => r == Err::<Self, WireError>(e),
            },
    {
        let attrs = match find_field(fields, 1) {
            Some(field) => match field.as_entries() {
                Some(map) => Attributes::from_map(map.clone()),
                None => {
                    return Err(WireError::WrongType { number: 1 });
                },
            },
            None => {
                return Err(WireError::Missing { number: 1 });
            },
        };
        let expires = match find_field(fields, 2) {
            Some(field) => match field.as_unsigned() {
                Some(n) => Timestamp(n),
                None => {
                    return Err(WireError::WrongType { number: 2 });
                },
            },
            None => {
                return Err(WireError::Missing { number: 2 });
            },
        };
        Ok(Self { attrs, expires })
    }

    /// The model as bytes: one map from field number to value.
    pub fn encode(&self) -> (out: Vec<u8>)
        ensures
            out@ == spec_encode_fields(Self::spec_fields(self@)),
    {
        encode_fields(&self.to_fields())
    }

    /// The model that `input` begins with, or why it begins with none: the
    /// bytes are no map of fields, or the fields are not those of the model.
    pub fn decode(input: &[u8]) -> (r: Result<Self, CodecError>)
        ensures
            match spec_decode_fields(input@) {
                None => r == Err::<Self, CodecError>(CodecError::Malformed),
                Some(fields) => match Self::spec_from_fields(fields) {
                    Ok(model) => r is Ok && r.unwrap()@ == model,
                    Err(e) => r == Err::<Self, CodecError>(shape_error(e)),
                },
            },
    {
        match decode_fields(input) {
            Ok(fields) => match Self::from_fields(&fields) {
                Ok(model) => Ok(model),
                Err(e) => Err(codec_error(e)),
            },
            Err(_) => Err(CodecError::Malformed),
        }
    }

    /// An answer is read back from its own fields unchanged.
    pub proof fn lemma_fields_round_trip(model: VerifyResponseModel)
        ensures
            Self::spec_from_fields(Self::spec_fields(model)) == Ok::<
                VerifyResponseModel,
                WireError,
            >(model),
    {
        let fields = Self::spec_fields(model);
        lemma_field_at_hit(fields, 0, 1);
        lemma_field_at_hit(fields, 1, 2);
    }

    /// An answer is read back from its own bytes unchanged, whatever follows
    /// them, as long as its lengths are such as the format can carry.
    pub proof fn lemma_bytes_round_trip(model: VerifyResponseModel, rest: Seq<u8>)
        requires
            fields_fit(Self::spec_fields(model)),
        ensures
            spec_decode_fields(spec_encode_fields(Self::spec_fields(model)) + rest) == Some(
                Self::spec_fields(model),
            ),
            Self::spec_from_fields(Self::spec_fields(model)) == Ok::<VerifyResponseModel, WireError>(model),
    {
        crate::codec_laws::lemma_fields_round_trip(Self::spec_fields(model), rest);
        Self::lemma_fields_round_trip(model);
    }
}

/// A credential is accepted only where every check passed: its issuer is a
/// candidate authority, it is about the subject asked for, it has not
/// expired, and its signature is the issuer's. What is answered then is what
/// the credential says.
pub proof fn lemma_verify_accepts_only_checked_credentials(
    request: VerifyRequestModel,
    claim: CredentialClaimModel,
    signature_valid: bool,
    now: Option<Timestamp>,
)
    ensures
        spec_verify(request, claim, signature_valid, now) is Ok <==> {
            &&& value_at(request.auth, claim.issuer) is Some
            &&& now is Some
            &&& claim.subject == request.subj
            &&& claim.expires_at.0 > now.unwrap().0
            &&& signature_valid
        },
        spec_verify(request, claim, signature_valid, now) is Ok ==> spec_verify(
            request,
            claim,
            signature_valid,
            now,
        ).unwrap() == (VerifyResponseModel { attrs: claim.attributes, expires: claim.expires_at }),
{
}

} // verus!
