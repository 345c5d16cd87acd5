//! The request and response models of the identity service. A model travels
//! as a list of numbered fields; the numbers are fixed once and for all.

use vstd::prelude::*;
use crate::codec::{
    codec_error,
    decode_fields,
    encode_fields,
    shape_error,
    spec_decode_fields,
    spec_encode_fields,
    CodecError,
};
use crate::codec_laws::fields_fit;
use crate::vault::clone_bytes;
use crate::wire::{
    field_at,
    find_field,
    lemma_field_at_hit,
    lemma_field_at_miss,
    wire_fields,
    Field,
    FieldModel,
    FieldValue,
    WireError,
};

verus! {

/// The text of an optional string.
pub open spec fn optional_text(text: Option<String>) -> Option<Seq<char>> {
    match text {
        Some(t) => Some(t@),
        None => None,
    }
}

/// A copy of an optional string.
fn clone_optional_text(text: &Option<String>) -> (copy: Option<String>)
    ensures
        optional_text(copy) == optional_text(*text),
{
    match text {
        Some(t) => Some(t.clone()),
        None => None,
    }
}

/// The model of a [`CreateResponse`].
pub struct CreateResponseModel {
    pub identity: Seq<u8>,
    pub identity_id: Seq<char>,
}

/// The answer to a request to create an identity.
#[derive(Debug)]
pub struct CreateResponse {
    /// The exported identity. Field 1.
    identity: Vec<u8>,
    /// The identifier of the identity, as text. Field 2.
    identity_id: String,
}

impl View for CreateResponse {
    type V = CreateResponseModel;

    closed spec fn view(&self) -> CreateResponseModel {
        CreateResponseModel {
            identity: self.identity@,
            identity_id: self.identity_id@,
        }
    }
}

impl Clone for CreateResponse {
    fn clone(&self) -> (copy: Self)
        ensures
            copy@ == self@,
    {
        CreateResponse {
            identity: clone_bytes(&self.identity),
            identity_id: self.identity_id.clone(),
        }
    }
}

impl CreateResponse {
    /// The numbered fields under which the model travels, in the order of
    /// their numbers. A value that is not there has no field.
    pub open spec fn spec_fields(model: CreateResponseModel) -> Seq<FieldModel> {
        seq![
            FieldModel { number: 1, value: FieldValue::Bytes(model.identity) },
            FieldModel { number: 2, value: FieldValue::Text(model.identity_id) },
        ]
    }

    /// The model that a list of numbered fields stands for. Of several
    /// fields of one number the last counts; fields of other numbers are
    /// passed over; the first number that is missing, or that holds a value
    /// of another kind, is reported.
    pub open spec fn spec_from_fields(fields: Seq<FieldModel>) -> Result<CreateResponseModel, WireError> {
        match field_at(fields, 1) {
            Some(FieldValue::Bytes(identity)) => match field_at(fields, 2) {
                Some(FieldValue::Text(identity_id)) => Ok(CreateResponseModel { identity, identity_id }),
                Some(_) => Err(WireError::WrongType { number: 2 }),
                None => Err(WireError::Missing { number: 2 }),
            },
            Some(_) => Err(WireError::WrongType { number: 1 }),
            None => Err(WireError::Missing { number: 1 }),
        }
    }

    /// A new model from its parts.
    pub fn new(identity: Vec<u8>, identity_id: String) -> (model: Self)
        ensures
            model@.identity == identity@,
            model@.identity_id == identity_id@,
    {
        Self { identity, identity_id }
    }

    /// The exported identity.
    pub fn identity(&self) -> (bytes: &[u8])
        ensures
            bytes@ == self@.identity,
    {
        self.identity.as_slice()
    }

    /// The identifier of the identity, as text.
    pub fn identity_id(&self) -> (text: &str)
        ensures
            text@ == self@.identity_id,
    {
        self.identity_id.as_str()
    }

    /// The numbered fields under which the model travels.
    pub fn to_fields(&self) -> (fields: Vec<Field>)
        ensures
            wire_fields(fields@) == Self::spec_fields(self@),
    {
        let mut fields: Vec<Field> = Vec::new();
        fields.push(Field::bytes(1, clone_bytes(&self.identity)));
        fields.push(Field::text(2, self.identity_id.clone()));
        assert(wire_fields(fields@) =~= Self::spec_fields(self@));
        fields
    }

    /// The model that a list of numbered fields stands for, or the first
    /// field number at which the list falls short.
    pub fn from_fields(fields: &Vec<Field>) -> (r: Result<Self, WireError>)
        ensures
            match Self::spec_from_fields(wire_fields(fields@)) {
                Ok(model) => r is Ok && r.unwrap()@ == model,
                Err(e) => r == Err::<Self, WireError>(e),
            },
    {
        let identity = match find_field(fields, 1) {
            Some(field) => match field.as_bytes() {
                Some(value) => clone_bytes(value),
                None => {
                    return Err(WireError::WrongType { number: 1 });
                },
            },
            None => {
                return Err(WireError::Missing { number: 1 });
            },
        };
        let identity_id = match find_field(fields, 2) {
            Some(field) => match field.as_text() {
                Some(value) => value.clone(),
                None => {
                    return Err(WireError::WrongType { number: 2 });
                },
            },
            None => {
                return Err(WireError::Missing { number: 2 });
            },
        };
        Ok(Self { identity, identity_id })
    }

    /// The model as bytes: one map from field number to value.
    pub fn encode(&self) -> (out: Vec<u8>)
        ensures
            out@ == spec_encode_fields(Self::spec_fields(self@)),
    {
        encode_fields(&self.to_fields())
    }

    /// The model that `input` begins with, or why it begins with none: the
    /// bytes are no map of fields, or the fields are not those of the model.
    pub fn decode(input: &[u8]) -> (r: Result<Self, CodecError>)
        ensures
            match spec_decode_fields(input@) {
                None => r == Err::<Self, CodecError>(CodecError::Malformed),
                Some(fields) => match Self::spec_from_fields(fields) {
                    Ok(model) => r is Ok && r.unwrap()@ == model,
                    Err(e) => r == Err::<Self, CodecError>(shape_error(e)),
                },
            },
    {
        match decode_fields(input) {
            Ok(fields) => match Self::from_fields(&fields) {
                Ok(model) => Ok(model),
                Err(e) => Err(codec_error(e)),
            },
            Err(_) => Err(CodecError::Malformed),
        }
    }

    /// A model is read back from its own fields unchanged.
    pub proof fn lemma_fields_round_trip(model: CreateResponseModel)
        ensures
            Self::spec_from_fields(Self::spec_fields(model)) == Ok::<CreateResponseModel, WireError>(
                model,
            ),
    {
        let fields = Self::spec_fields(model);
        lemma_field_at_hit(fields, 0, 1);
        lemma_field_at_hit(fields, 1, 2);
    }

    /// A model is read back from its own bytes unchanged, whatever follows
    /// them, as long as its lengths are such as the format can carry.
    pub proof fn lemma_bytes_round_trip(model: CreateResponseModel, rest: Seq<u8>)
        requires
            fields_fit(Self::spec_fields(model)),
        ensures
            spec_decode_fields(spec_encode_fields(Self::spec_fields(model)) + rest) == Some(
                Self::spec_fields(model),
            ),
            Self::spec_from_fields(Self::spec_fields(model)) == Ok::<CreateResponseModel, WireError>(model),
    {
        crate::codec_laws::lemma_fields_round_trip(Self::spec_fields(model), rest);
        Self::lemma_fields_round_trip(model);
    }
}

/// The model of a [`ValidateIdentityChangeHistoryRequest`].
pub struct ValidateIdentityChangeHistoryRequestModel {
    pub identity: Seq<u8>,
}

/// Asks whether an exported change history is valid.
#[derive(Debug)]
pub struct ValidateIdentityChangeHistoryRequest {
    /// The exported identity to validate. Field 1.
    identity: Vec<u8>,
}

impl View for ValidateIdentityChangeHistoryRequest {
    type V = ValidateIdentityChangeHistoryRequestModel;

    closed spec fn view(&self) -> ValidateIdentityChangeHistoryRequestModel {
        ValidateIdentityChangeHistoryRequestModel {
            identity: self.identity@,
        }
    }
}

impl Clone for ValidateIdentityChangeHistoryRequest {
    fn clone(&self) -> (copy: Self)
        ensures
            copy@ == self@,
    {
        ValidateIdentityChangeHistoryRequest {
            identity: clone_bytes(&self.identity),
        }
    }
}

impl ValidateIdentityChangeHistoryRequest {
    /// The numbered fields under which the model travels, in the order of
    /// their numbers. A value that is not there has no field.
    pub open spec fn spec_fields(model: ValidateIdentityChangeHistoryRequestModel) -> Seq<FieldModel> {
        seq![
            FieldModel { number: 1, value: FieldValue::Bytes(model.identity) },
        ]
    }

    /// The model that a list of numbered fields stands for. Of several
    /// fields of one number the last counts; fields of other numbers are
    /// passed over; the first number that is missing, or that holds a value
    /// of another kind, is reported.
    pub open spec fn spec_from_fields(fields: Seq<FieldModel>) -> Result<ValidateIdentityChangeHistoryRequestModel, WireError> {
        match field_at(fields, 1) {
            Some(FieldValue::Bytes(identity)) => Ok(ValidateIdentityChangeHistoryRequestModel { identity }),
            Some(_) => Err(WireError::WrongType { number: 1 }),
            None => Err(WireError::Missing { number: 1 }),
        }
    }

    /// A new model from its parts.
    pub fn new(identity: Vec<u8>) -> (model: Self)
        ensures
            model@.identity == identity@,
    {
        Self { identity }
    }

    /// The exported identity to validate.
    pub fn identity(&self) -> (bytes: &[u8])
        ensures
            bytes@ == self@.identity,
    {
        self.identity.as_slice()
    }

    /// The numbered fields under which the model travels.
    pub fn to_fields(&self) -> (fields: Vec<Field>)
        ensures
            wire_fields(fields@) == Self::spec_fields(self@),
    {
        let mut fields: Vec<Field> = Vec::new();
        fields.push(Field::bytes(1, clone_bytes(&self.identity)));
        assert(wire_fields(fields@) =~= Self::spec_fields(self@));
        fields
    }

    /// The model that a list of numbered fields stands for, or the first
    /// field number at which the list falls short.
    pub fn from_fields(fields: &Vec<Field>) -> (r: Result<Self, WireError>)
        ensures
            match Self::spec_from_fields(wire_fields(fields@)) {
                Ok(model) => r is Ok && r.unwrap()@ == model,
                Err(e) => r == Err::<Self, WireError>(e),
            },
    {
        let identity = match find_field(fields, 1) {
            Some(field) => match field.as_bytes() {
                Some(value) => clone_bytes(value),
                None => {
                    return Err(WireError::WrongType { number: 1 });
                },
            },
            None => {
                return Err(WireError::Missing { number: 1 });
            },
        };
        Ok(Self { identity })
    }

    /// The model as bytes: one map from field number to value.
    pub fn encode(&self) -> (out: Vec<u8>)
        ensures
            out@ == spec_encode_fields(Self::spec_fields(self@)),
    {
        encode_fields(&self.to_fields())
    }

    /// The model that `input` begins with, or why it begins with none: the
    /// bytes are no map of fields, or the fields are not those of the model.
    pub fn decode(input: &[u8]) -> (r: Result<Self, CodecError>)
        ensures
            match spec_decode_fields(input@) {
                None => r == Err::<Self, CodecError>(CodecError::Malformed),
                Some(fields) => match Self::spec_from_fields(fields) {
                    Ok(model) => r is Ok && r.unwrap()@ == model,
                    Err(e) => r == Err::<Self, CodecError>(shape_error(e)),
                },
            },
    {
        match decode_fields(input) {
            Ok(fields) => match Self::from_fields(&fields) {
                Ok(model) => Ok(model),
                Err(e) => Err(codec_error(e)),
            },
            Err(_) => Err(CodecError::Malformed),
        }
    }

    /// A model is read back from its own fields unchanged.
    pub proof fn lemma_fields_round_trip(model: ValidateIdentityChangeHistoryRequestModel)
        ensures
            Self::spec_from_fields(Self::spec_fields(model)) == Ok::<ValidateIdentityChangeHistoryRequestModel, WireError>(
                model,
            ),
    {
        let fields = Self::spec_fields(model);
        lemma_field_at_hit(fields, 0, 1);
    }

    /// A model is read back from its own bytes unchanged, whatever follows
    /// them, as long as its lengths are such as the format can carry.
    pub proof fn lemma_bytes_round_trip(model: ValidateIdentityChangeHistoryRequestModel, rest: Seq<u8>)
        requires
            fields_fit(Self::spec_fields(model)),
        ensures
            spec_decode_fields(spec_encode_fields(Self::spec_fields(model)) + rest) == Some(
                Self::spec_fields(model),
            ),
            Self::spec_from_fields(Self::spec_fields(model)) == Ok::<ValidateIdentityChangeHistoryRequestModel, WireError>(model),
    {
        crate::codec_laws::lemma_fields_round_trip(Self::spec_fields(model), rest);
        Self::lemma_fields_round_trip(model);
    }
}

/// The model of a [`ValidateIdentityChangeHistoryResponse`].
pub struct ValidateIdentityChangeHistoryResponseModel {
    pub identity_id: Seq<char>,
}

/// Names the identity whose change history was found valid.
#[derive(Debug)]
pub struct ValidateIdentityChangeHistoryResponse {
    /// The identifier of the identity, as text. Field 1.
    identity_id: String,
}

impl View for ValidateIdentityChangeHistoryResponse {
    type V = ValidateIdentityChangeHistoryResponseModel;

    closed spec fn view(&self) -> ValidateIdentityChangeHistoryResponseModel {
        ValidateIdentityChangeHistoryResponseModel {
            identity_id: self.identity_id@,
        }
    }
}

impl Clone for ValidateIdentityChangeHistoryResponse {
    fn clone(&self) -> (copy: Self)
        ensures
            copy@ == self@,
    {
        ValidateIdentityChangeHistoryResponse {
            identity_id: self.identity_id.clone(),
        }
    }
}

impl ValidateIdentityChangeHistoryResponse {
    /// The numbered fields under which the model travels, in the order of
    /// their numbers. A value that is not there has no field.
    pub open spec fn spec_fields(model: ValidateIdentityChangeHistoryResponseModel) -> Seq<FieldModel> {
        seq![
            FieldModel { number: 1, value: FieldValue::Text(model.identity_id) },
        ]
    }

    /// The model that a list of numbered fields stands for. Of several
    /// fields of one number the last counts; fields of other numbers are
    /// passed over; the first number that is missing, or that holds a value
    /// of another kind, is reported.
    pub open spec fn spec_from_fields(fields: Seq<FieldModel>) -> Result<ValidateIdentityChangeHistoryResponseModel, WireError> {
        match field_at(fields, 1) {
            Some(FieldValue::Text(identity_id)) => Ok(ValidateIdentityChangeHistoryResponseModel { identity_id }),
            Some(_) => Err(WireError::WrongType { number: 1 }),
            None => Err(WireError::Missing { number: 1 }),
        }
    }

    /// A new model from its parts.
    pub fn new(identity_id: String) -> (model: Self)
        ensures
            model@.identity_id == identity_id@,
    {
        Self { identity_id }
    }

    /// The identifier of the identity, as text.
    pub fn identity_id(&self) -> (text: &str)
        ensures
            text@ == self@.identity_id,
    {
        self.identity_id.as_str()
    }

    /// The numbered fields under which the model travels.
    pub fn to_fields(&self) -> (fields: Vec<Field>)
        ensures
            wire_fields(fields@) == Self::spec_fields(self@),
    {
        let mut fields: Vec<Field> = Vec::new();
        fields.push(Field::text(1, self.identity_id.clone()));
        assert(wire_fields(fields@) =~= Self::spec_fields(self@));
        fields
    }

    /// The model that a list of numbered fields stands for, or the first
    /// field number at which the list falls short.
    pub fn from_fields(fields: &Vec<Field>) -> (r: Result<Self, WireError>)
        ensures
            match Self::spec_from_fields(wire_fields(fields@)) {
                Ok(model) => r is Ok && r.unwrap()@ == model,
                Err(e) => r == Err::<Self, WireError>(e),
            },
    {
        let identity_id = match find_field(fields, 1) {
            Some(field) => match field.as_text() {
                Some(value) => value.clone(),
                None => {
                    return Err(WireError::WrongType { number: 1 });
                },
            },
            None => {
                return Err(WireError::Missing { number: 1 });
            },
        };
        Ok(Self { identity_id })
    }

    /// The model as bytes: one map from field number to value.
    pub fn encode(&self) -> (out: Vec<u8>)
        ensures
            out@ == spec_encode_fields(Self::spec_fields(self@)),
    {
        encode_fields(&self.to_fields())
    }

    /// The model that `input` begins with, or why it begins with none: the
    /// bytes are no map of fields, or the fields are not those of the model.
    pub fn decode(input: &[u8]) -> (r: Result<Self, CodecError>)
        ensures
            match spec_decode_fields(input@) {
                None => r == Err::<Self, CodecError>(CodecError::Malformed),
                Some(fields) => match Self::spec_from_fields(fields) {
                    Ok(model) => r is Ok && r.unwrap()@ == model,
                    Err(e) => r == Err::<Self, CodecError>(shape_error(e)),
                },
            },
    {
        match decode_fields(input) {
            Ok(fields) => match Self::from_fields(&fields) {
                Ok(model) => Ok(model),
                Err(e) => Err(codec_error(e)),
            },
            Err(_) => Err(CodecError::Malformed),
        }
    }

    /// A model is read back from its own fields unchanged.
    pub proof fn lemma_fields_round_trip(model: ValidateIdentityChangeHistoryResponseModel)
        ensures
            Self::spec_from_fields(Self::spec_fields(model)) == Ok::<ValidateIdentityChangeHistoryResponseModel, WireError>(
                model,
            ),
    {
        let fields = Self::spec_fields(model);
        lemma_field_at_hit(fields, 0, 1);
    }

    /// A model is read back from its own bytes unchanged, whatever follows
    /// them, as long as its lengths are such as the format can carry.
    pub proof fn lemma_bytes_round_trip(model: ValidateIdentityChangeHistoryResponseModel, rest: Seq<u8>)
        requires
            fields_fit(Self::spec_fields(model)),
        ensures
            spec_decode_fields(spec_encode_fields(Self::spec_fields(model)) + rest) == Some(
                Self::spec_fields(model),
            ),
            Self::spec_from_fields(Self::spec_fields(model)) == Ok::<ValidateIdentityChangeHistoryResponseModel, WireError>(model),
    {
        crate::codec_laws::lemma_fields_round_trip(Self::spec_fields(model), rest);
        Self::lemma_fields_round_trip(model);
    }
}

/// The model of a [`CompareIdentityChangeHistoryRequest`].
pub struct CompareIdentityChangeHistoryRequestModel {
    pub current_identity: Seq<u8>,
    pub known_identity: Seq<u8>,
}

/// Asks how a current change history relates to a known one.
#[derive(Debug)]
pub struct CompareIdentityChangeHistoryRequest {
    /// The identity as it is presented now. Field 1.
    current_identity: Vec<u8>,
    /// The identity as it was known before. Field 2.
    known_identity: Vec<u8>,
}

impl View for CompareIdentityChangeHistoryRequest {
    type V = CompareIdentityChangeHistoryRequestModel;

    closed spec fn view(&self) -> CompareIdentityChangeHistoryRequestModel {
        CompareIdentityChangeHistoryRequestModel {
            current_identity: self.current_identity@,
            known_identity: self.known_identity@,
        }
    }
}

impl Clone for CompareIdentityChangeHistoryRequest {
    fn clone(&self) -> (copy: Self)
        ensures
            copy@ == self@,
    {
        CompareIdentityChangeHistoryRequest {
            current_identity: clone_bytes(&self.current_identity),
            known_identity: clone_bytes(&self.known_identity),
        }
    }
}

impl CompareIdentityChangeHistoryRequest {
    /// The numbered fields under which the model travels, in the order of
    /// their numbers. A value that is not there has no field.
    pub open spec fn spec_fields(model: CompareIdentityChangeHistoryRequestModel) -> Seq<FieldModel> {
        seq![
            FieldModel { number: 1, value: FieldValue::Bytes(model.current_identity) },
            FieldModel { number: 2, value: FieldValue::Bytes(model.known_identity) },
        ]
    }

    /// The model that a list of numbered fields stands for. Of several
    /// fields of one number the last counts; fields of other numbers are
    /// passed over; the first number that is missing, or that holds a value
    /// of another kind, is reported.
    pub open spec fn spec_from_fields(fields: Seq<FieldModel>) -> Result<CompareIdentityChangeHistoryRequestModel, WireError> {
        match field_at(fields, 1) {
            Some(FieldValue::Bytes(current_identity)) => match field_at(fields, 2) {
                Some(FieldValue::Bytes(known_identity)) => Ok(CompareIdentityChangeHistoryRequestModel { current_identity, known_identity }),
                Some(_) => Err(WireError::WrongType { number: 2 }),
                None => Err(WireError::Missing { number: 2 }),
            },
            Some(_) => Err(WireError::WrongType { number: 1 }),
            None => Err(WireError::Missing { number: 1 }),
        }
    }

    /// A new model from its parts.
    pub fn new(current_identity: Vec<u8>, known_identity: Vec<u8>) -> (model: Self)
        ensures
            model@.current_identity == current_identity@,
            model@.known_identity == known_identity@,
    {
        Self { current_identity, known_identity }
    }

    /// The identity as it is presented now.
    pub fn current_identity(&self) -> (bytes: &[u8])
        ensures
            bytes@ == self@.current_identity,
    {
        self.current_identity.as_slice()
    }

    /// The identity as it was known before.
    pub fn known_identity(&self) -> (bytes: &[u8])
        ensures
            bytes@ == self@.known_identity,
    {
        self.known_identity.as_slice()
    }

    /// The numbered fields under which the model travels.
    pub fn to_fields(&self) -> (fields: Vec<Field>)
        ensures
            wire_fields(fields@) == Self::spec_fields(self@),
    {
        let mut fields: Vec<Field> = Vec::new();
        fields.push(Field::bytes(1, clone_bytes(&self.current_identity)));
        fields.push(Field::bytes(2, clone_bytes(&self.known_identity)));
        assert(wire_fields(fields@) =~= Self::spec_fields(self@));
        fields
    }

    /// The model that a list of numbered fields stands for, or the first
    /// field number at which the list falls short.
    pub fn from_fields(fields: &Vec<Field>) -> (r: Result<Self, WireError>)
        ensures
            match Self::spec_from_fields(wire_fields(fields@)) {
                Ok(model) => r is Ok && r.unwrap()@ == model,
                Err(e) => r == Err::<Self, WireError>(e),
            },
    {
        let current_identity = match find_field(fields, 1) {
            Some(field) => match field.as_bytes() {
                Some(value) => clone_bytes(value),
                None => {
                    return Err(WireError::WrongType { number: 1 });
                },
            },
            None => {
                return Err(WireError::Missing { number: 1 });
            },
        };
        let known_identity = match find_field(fields, 2) {
            Some(field) => match field.as_bytes() {
                Some(value) => clone_bytes(value),
                None => {
                    return Err(WireError::WrongType { number: 2 });
                },
            },
            None => {
                return Err(WireError::Missing { number: 2 });
            },
        };
        Ok(Self { current_identity, known_identity })
    }

    /// The model as bytes: one map from field number to value.
    pub fn encode(&self) -> (out: Vec<u8>)
        ensures
            out@ == spec_encode_fields(Self::spec_fields(self@)),
    {
        encode_fields(&self.to_fields())
    }

    /// The model that `input` begins with, or why it begins with none: the
    /// bytes are no map of fields, or the fields are not those of the model.
    pub fn decode(input: &[u8]) -> (r: Result<Self, CodecError>)
        ensures
            match spec_decode_fields(input@) {
                None => r == Err::<Self, CodecError>(CodecError::Malformed),
                Some(fields) => match Self::spec_from_fields(fields) {
                    Ok(model) => r is Ok && r.unwrap()@ == model,
                    Err(e) => r == Err::<Self, CodecError>(shape_error(e)),
                },
            },
    {
        match decode_fields(input) {
            Ok(fields) => match Self::from_fields(&fields) {
                Ok(model) => Ok(model),
                Err(e) => Err(codec_error(e)),
            },
            Err(_) => Err(CodecError::Malformed),
        }
    }

    /// A model is read back from its own fields unchanged.
    pub proof fn lemma_fields_round_trip(model: CompareIdentityChangeHistoryRequestModel)
        ensures
            Self::spec_from_fields(Self::spec_fields(model)) == Ok::<CompareIdentityChangeHistoryRequestModel, WireError>(
                model,
            ),
    {
        let fields = Self::spec_fields(model);
        lemma_field_at_hit(fields, 0, 1);
        lemma_field_at_hit(fields, 1, 2);
    }

    /// A model is read back from its own bytes unchanged, whatever follows
    /// them, as long as its lengths are such as the format can carry.
    pub proof fn lemma_bytes_round_trip(model: CompareIdentityChangeHistoryRequestModel, rest: Seq<u8>)
        requires
            fields_fit(Self::spec_fields(model)),
        ensures
            spec_decode_fields(spec_encode_fields(Self::spec_fields(model)) + rest) == Some(
                Self::spec_fields(model),
            ),
            Self::spec_from_fields(Self::spec_fields(model)) == Ok::<CompareIdentityChangeHistoryRequestModel, WireError>(model),
    {
        crate::codec_laws::lemma_fields_round_trip(Self::spec_fields(model), rest);
        Self::lemma_fields_round_trip(model);
    }
}

/// The model of a [`CreateSignatureRequest`].
pub struct CreateSignatureRequestModel {
    pub identity: Seq<u8>,
    pub data: Seq<u8>,
    pub vault_name: Option<Seq<char>>,
}

/// Asks for a signature over data by an identity.
#[derive(Debug)]
pub struct CreateSignatureRequest {
    /// The exported identity that signs. Field 1.
    identity: Vec<u8>,
    /// The data to sign. Field 2.
    data: Vec<u8>,
    /// The vault that holds the key, where it is not the default one. Field 3.
    vault_name: Option<String>,
}

impl View for CreateSignatureRequest {
    type V = CreateSignatureRequestModel;

    closed spec fn view(&self) -> CreateSignatureRequestModel {
        CreateSignatureRequestModel {
            identity: self.identity@,
            data: self.data@,
            vault_name: optional_text(self.vault_name),
        }
    }
}

impl Clone for CreateSignatureRequest {
    fn clone(&self) -> (copy: Self)
        ensures
            copy@ == self@,
    {
        CreateSignatureRequest {
            identity: clone_bytes(&self.identity),
            data: clone_bytes(&self.data),
            vault_name: clone_optional_text(&self.vault_name),
        }
    }
}

impl CreateSignatureRequest {
    /// The numbered fields under which the model travels, in the order of
    /// their numbers. A value that is not there has no field.
    pub open spec fn spec_fields(model: CreateSignatureRequestModel) -> Seq<FieldModel> {
        let required = seq![
            FieldModel { number: 1, value: FieldValue::Bytes(model.identity) },
            FieldModel { number: 2, value: FieldValue::Bytes(model.data) },
        ];
        match model.vault_name {
            Some(text) => required.push(FieldModel { number: 3, value: FieldValue::Text(text) }),
            None => required,
        }
    }

    /// The model that a list of numbered fields stands for. Of several
    /// fields of one number the last counts; fields of other numbers are
    /// passed over; the first number that is missing, or that holds a value
    /// of another kind, is reported. The name of the vault may be missing,
    /// or be the null value.
    pub open spec fn spec_from_fields(fields: Seq<FieldModel>) -> Result<CreateSignatureRequestModel, WireError> {
        match field_at(fields, 1) {
            Some(FieldValue::Bytes(identity)) => match field_at(fields, 2) {
                Some(FieldValue::Bytes(data)) => match field_at(fields, 3) {
                    Some(FieldValue::Text(vault_name)) => Ok(
                        CreateSignatureRequestModel { identity, data, vault_name: Some(vault_name) },
                    ),
                    Some(FieldValue::Null) => Ok(
                        CreateSignatureRequestModel { identity, data, vault_name: None },
                    ),
                    Some(_) => Err(WireError::WrongType { number: 3 }),
                    None => Ok(CreateSignatureRequestModel { identity, data, vault_name: None }),
                },
                Some(_) => Err(WireError::WrongType { number: 2 }),
                None => Err(WireError::Missing { number: 2 }),
            },
            Some(_) => Err(WireError::WrongType { number: 1 }),
            None => Err(WireError::Missing { number: 1 }),
        }
    }

    /// A new model from its parts.
    pub fn new(identity: Vec<u8>, data: Vec<u8>) -> (model: Self)
        ensures
            model@.identity == identity@,
            model@.data == data@,
            model@.vault_name is None,
    {
        Self { identity, data, vault_name: None }
    }

    /// The exported identity that signs.
    pub fn identity(&self) -> (bytes: &[u8])
        ensures
            bytes@ == self@.identity,
    {
        self.identity.as_slice()
    }

    /// The data to sign.
    pub fn data(&self) -> (bytes: &[u8])
        ensures
            bytes@ == self@.data,
    {
        self.data.as_slice()
    }

    /// The vault that holds the key, where it is not the default one.
    pub fn vault_name(&self) -> (name: Option<String>)
        ensures
            optional_text(name) == self@.vault_name,
    {
        clone_optional_text(&self.vault_name)
    }

    /// The same request, addressed to the vault named `vault_name`.
    pub fn with_vault_name(self, vault_name: String) -> (model: Self)
        ensures
            model@.identity == self@.identity,
            model@.data == self@.data,
            model@.vault_name == Some(vault_name@),
    {
        Self { identity: self.identity, data: self.data, vault_name: Some(vault_name) }
    }

    /// The numbered fields under which the model travels.
    pub fn to_fields(&self) -> (fields: Vec<Field>)
        ensures
            wire_fields(fields@) == Self::spec_fields(self@),
    {
        let mut fields: Vec<Field> = Vec::new();
        fields.push(Field::bytes(1, clone_bytes(&self.identity)));
        fields.push(Field::bytes(2, clone_bytes(&self.data)));
        match &self.vault_name {
            Some(text) => {
                fields.push(Field::text(3, text.clone()));
            },
            None => {},
        }
        assert(wire_fields(fields@) =~= Self::spec_fields(self@));
        fields
    }

    /// The model that a list of numbered fields stands for, or the first
    /// field number at which the list falls short.
    pub fn from_fields(fields: &Vec<Field>) -> (r: Result<Self, WireError>)
        ensures
            match Self::spec_from_fields(wire_fields(fields@)) {
                Ok(model) => r is Ok && r.unwrap()@ == model,
                Err(e) => r == Err::<Self, WireError>(e),
            },
    {
        let identity = match find_field(fields, 1) {
            Some(field) => match field.as_bytes() {
                Some(value) => clone_bytes(value),
                None => {
                    return Err(WireError::WrongType { number: 1 });
                },
            },
            None => {
                return Err(WireError::Missing { number: 1 });
            },
        };
        let data = match find_field(fields, 2) {
            Some(field) => match field.as_bytes() {
                Some(value) => clone_bytes(value),
                None => {
                    return Err(WireError::WrongType { number: 2 });
                },
            },
            None => {
                return Err(WireError::Missing { number: 2 });
            },
        };
        let vault_name = match find_field(fields, 3) {
            Some(field) => match field.as_text() {
                Some(value) => Some(value.clone()),
                None => {
                    if field.is_null() {
                        None
                    } else {
                        return Err(WireError::WrongType { number: 3 });
                    }
                },
            },
            None => None,
        };
        Ok(Self { identity, data, vault_name })
    }

    /// The model as bytes: one map from field number to value.
    pub fn encode(&self) -> (out: Vec<u8>)
        ensures
            out@ == spec_encode_fields(Self::spec_fields(self@)),
    {
        encode_fields(&self.to_fields())
    }

    /// The model that `input` begins with, or why it begins with none: the
    /// bytes are no map of fields, or the fields are not those of the model.
    pub fn decode(input: &[u8]) -> (r: Result<Self, CodecError>)
        ensures
            match spec_decode_fields(input@) {
                None => r == Err::<Self, CodecError>(CodecError::Malformed),
                Some(fields) => match Self::spec_from_fields(fields) {
                    Ok(model) => r is Ok && r.unwrap()@ == model,
                    Err(e) => r == Err::<Self, CodecError>(shape_error(e)),
                },
            },
    {
        match decode_fields(input) {
            Ok(fields) => match Self::from_fields(&fields) {
                Ok(model) => Ok(model),
                Err(e) => Err(codec_error(e)),
            },
            Err(_) => Err(CodecError::Malformed),
        }
    }

    /// A model is read back from its own fields unchanged.
    pub proof fn lemma_fields_round_trip(model: CreateSignatureRequestModel)
        ensures
            Self::spec_from_fields(Self::spec_fields(model)) == Ok::<CreateSignatureRequestModel, WireError>(
                model,
            ),
    {
        let fields = Self::spec_fields(model);
        lemma_field_at_hit(fields, 0, 1);
        lemma_field_at_hit(fields, 1, 2);
        if model.vault_name is Some {
            lemma_field_at_hit(fields, 2, 3);
        } else {
            lemma_field_at_miss(fields, 3);
        }
    }

    /// A model is read back from its own bytes unchanged, whatever follows
    /// them, as long as its lengths are such as the format can carry.
    pub proof fn lemma_bytes_round_trip(model: CreateSignatureRequestModel, rest: Seq<u8>)
        requires
            fields_fit(Self::spec_fields(model)),
        ensures
            spec_decode_fields(spec_encode_fields(Self::spec_fields(model)) + rest) == Some(
                Self::spec_fields(model),
            ),
            Self::spec_from_fields(Self::spec_fields(model)) == Ok::<CreateSignatureRequestModel, WireError>(model),
    {
        crate::codec_laws::lemma_fields_round_trip(Self::spec_fields(model), rest);
        Self::lemma_fields_round_trip(model);
    }
}

/// The model of a [`CreateSignatureResponse`].
pub struct CreateSignatureResponseModel {
    pub signature: Seq<u8>,
}

/// Carries a signature.
#[derive(Debug)]
pub struct CreateSignatureResponse {
    /// The signature. Field 1.
    signature: Vec<u8>,
}

impl View for CreateSignatureResponse {
    type V = CreateSignatureResponseModel;

    closed spec fn view(&self) -> CreateSignatureResponseModel {
        CreateSignatureResponseModel {
            signature: self.signature@,
        }
    }
}

impl Clone for CreateSignatureResponse {
    fn clone(&self) -> (copy: Self)
        ensures
            copy@ == self@,
    {
        CreateSignatureResponse {
            signature: clone_bytes(&self.signature),
        }
    }
}

impl CreateSignatureResponse {
    /// The numbered fields under which the model travels, in the order of
    /// their numbers. A value that is not there has no field.
    pub open spec fn spec_fields(model: CreateSignatureResponseModel) -> Seq<FieldModel> {
        seq![
            FieldModel { number: 1, value: FieldValue::Bytes(model.signature) },
        ]
    }

    /// The model that a list of numbered fields stands for. Of several
    /// fields of one number the last counts; fields of other numbers are
    /// passed over; the first number that is missing, or that holds a value
    /// of another kind, is reported.
    pub open spec fn spec_from_fields(fields: Seq<FieldModel>) -> Result<CreateSignatureResponseModel, WireError> {
        match field_at(fields, 1) {
            Some(FieldValue::Bytes(signature)) => Ok(CreateSignatureResponseModel { signature }),
            Some(_) => Err(WireError::WrongType { number: 1 }),
            None => Err(WireError::Missing { number: 1 }),
        }
    }

    /// A new model from its parts.
    pub fn new(signature: Vec<u8>) -> (model: Self)
        ensures
            model@.signature == signature@,
    {
        Self { signature }
    }

    /// The signature.
    pub fn signature(&self) -> (bytes: &[u8])
        ensures
            bytes@ == self@.signature,
    {
        self.signature.as_slice()
    }

    /// The numbered fields under which the model travels.
    pub fn to_fields(&self) -> (fields: Vec<Field>)
        ensures
            wire_fields(fields@) == Self::spec_fields(self@),
    {
        let mut fields: Vec<Field> = Vec::new();
        fields.push(Field::bytes(1, clone_bytes(&self.signature)));
        assert(wire_fields(fields@) =~= Self::spec_fields(self@));
        fields
    }

    /// The model that a list of numbered fields stands for, or the first
    /// field number at which the list falls short.
    pub fn from_fields(fields: &Vec<Field>) -> (r: Result<Self, WireError>)
        ensures
            match Self::spec_from_fields(wire_fields(fields@)) {
                Ok(model) => r is Ok && r.unwrap()@ == model,
                Err(e) => r == Err::<Self, WireError>(e),
            },
    {
        let signature = match find_field(fields, 1) {
            Some(field) => match field.as_bytes() {
                Some(value) => clone_bytes(value),
                None => {
                    return Err(WireError::WrongType { number: 1 });
                },
            },
            None => {
                return Err(WireError::Missing { number: 1 });
            },
        };
        Ok(Self { signature })
    }

    /// The model as bytes: one map from field number to value.
    pub fn encode(&self) -> (out: Vec<u8>)
        ensures
            out@ == spec_encode_fields(Self::spec_fields(self@)),
    {
        encode_fields(&self.to_fields())
    }

    /// The model that `input` begins with, or why it begins with none: the
    /// bytes are no map of fields, or the fields are not those of the model.
    pub fn decode(input: &[u8]) -> (r: Result<Self, CodecError>)
        ensures
            match spec_decode_fields(input@) {
                None => r == Err::<Self, CodecError>(CodecError::Malformed),
                Some(fields) => match Self::spec_from_fields(fields) {
                    Ok(model) => r is Ok && r.unwrap()@ == model,
                    Err(e) => r == Err::<Self, CodecError>(shape_error(e)),
                },
            },
    {
        match decode_fields(input) {
            Ok(fields) => match Self::from_fields(&fields) {
                Ok(model) => Ok(model),
                Err(e) => Err(codec_error(e)),
            },
            Err(_) => Err(CodecError::Malformed),
        }
    }

    /// A model is read back from its own fields unchanged.
    pub proof fn lemma_fields_round_trip(model: CreateSignatureResponseModel)
        ensures
            Self::spec_from_fields(Self::spec_fields(model)) == Ok::<CreateSignatureResponseModel, WireError>(
                model,
            ),
    {
        let fields = Self::spec_fields(model);
        lemma_field_at_hit(fields, 0, 1);
    }

    /// A model is read back from its own bytes unchanged, whatever follows
    /// them, as long as its lengths are such as the format can carry.
    pub proof fn lemma_bytes_round_trip(model: CreateSignatureResponseModel, rest: Seq<u8>)
        requires
            fields_fit(Self::spec_fields(model)),
        ensures
            spec_decode_fields(spec_encode_fields(Self::spec_fields(model)) + rest) == Some(
                Self::spec_fields(model),
            ),
            Self::spec_from_fields(Self::spec_fields(model)) == Ok::<CreateSignatureResponseModel, WireError>(model),
    {
        crate::codec_laws::lemma_fields_round_trip(Self::spec_fields(model), rest);
        Self::lemma_fields_round_trip(model);
    }
}

/// The model of a [`VerifySignatureRequest`].
pub struct VerifySignatureRequestModel {
    pub signer_identity: Seq<u8>,
    pub data: Seq<u8>,
    pub signature: Seq<u8>,
}

/// Asks whether a signature over data is an identity's.
#[derive(Debug)]
pub struct VerifySignatureRequest {
    /// The exported identity said to have signed. Field 1.
    signer_identity: Vec<u8>,
    /// The data that was signed. Field 2.
    data: Vec<u8>,
    /// The signature to check. Field 3.
    signature: Vec<u8>,
}

impl View for VerifySignatureRequest {
    type V = VerifySignatureRequestModel;

    closed spec fn view(&self) -> VerifySignatureRequestModel {
        VerifySignatureRequestModel {
            signer_identity: self.signer_identity@,
            data: self.data@,
            signature: self.signature@,
        }
    }
}

impl Clone for VerifySignatureRequest {
    fn clone(&self) -> (copy: Self)
        ensures
            copy@ == self@,
    {
        VerifySignatureRequest {
            signer_identity: clone_bytes(&self.signer_identity),
            data: clone_bytes(&self.data),
            signature: clone_bytes(&self.signature),
        }
    }
}

impl VerifySignatureRequest {
    /// The numbered fields under which the model travels, in the order of
    /// their numbers. A value that is not there has no field.
    pub open spec fn spec_fields(model: VerifySignatureRequestModel) -> Seq<FieldModel> {
        seq![
            FieldModel { number: 1, value: FieldValue::Bytes(model.signer_identity) },
            FieldModel { number: 2, value: FieldValue::Bytes(model.data) },
            FieldModel { number: 3, value: FieldValue::Bytes(model.signature) },
        ]
    }

    /// The model that a list of numbered fields stands for. Of several
    /// fields of one number the last counts; fields of other numbers are
    /// passed over; the first number that is missing, or that holds a value
    /// of another kind, is reported.
    pub open spec fn spec_from_fields(fields: Seq<FieldModel>) -> Result<VerifySignatureRequestModel, WireError> {
        match field_at(fields, 1) {
            Some(FieldValue::Bytes(signer_identity)) => match field_at(fields, 2) {
                Some(FieldValue::Bytes(data)) => match field_at(fields, 3) {
                    Some(FieldValue::Bytes(signature)) => Ok(VerifySignatureRequestModel { signer_identity, data, signature }),
                    Some(_) => Err(WireError::WrongType { number: 3 }),
                    None => Err(WireError::Missing { number: 3 }),
                },
                Some(_) => Err(WireError::WrongType { number: 2 }),
                None => Err(WireError::Missing { number: 2 }),
            },
            Some(_) => Err(WireError::WrongType { number: 1 }),
            None => Err(WireError::Missing { number: 1 }),
        }
    }

    /// A new model from its parts.
    pub fn new(signer_identity: Vec<u8>, data: Vec<u8>, signature: Vec<u8>) -> (model: Self)
        ensures
            model@.signer_identity == signer_identity@,
            model@.data == data@,
            model@.signature == signature@,
    {
        Self { signer_identity, data, signature }
    }

    /// The exported identity said to have signed.
    pub fn signer_identity(&self) -> (bytes: &[u8])
        ensures
            bytes@ == self@.signer_identity,
    {
        self.signer_identity.as_slice()
    }

    /// The data that was signed.
    pub fn data(&self) -> (bytes: &[u8])
        ensures
            bytes@ == self@.data,
    {
        self.data.as_slice()
    }

    /// The signature to check.
    pub fn signature(&self) -> (bytes: &[u8])
        ensures
            bytes@ == self@.signature,
    {
        self.signature.as_slice()
    }

    /// The numbered fields under which the model travels.
    pub fn to_fields(&self) -> (fields: Vec<Field>)
        ensures
            wire_fields(fields@) == Self::spec_fields(self@),
    {
        let mut fields: Vec<Field> = Vec::new();
        fields.push(Field::bytes(1, clone_bytes(&self.signer_identity)));
        fields.push(Field::bytes(2, clone_bytes(&self.data)));
        fields.push(Field::bytes(3, clone_bytes(&self.signature)));
        assert(wire_fields(fields@) =~= Self::spec_fields(self@));
        fields
    }

    /// The model that a list of numbered fields stands for, or the first
    /// field number at which the list falls short.
    pub fn from_fields(fields: &Vec<Field>) -> (r: Result<Self, WireError>)
        ensures
            match Self::spec_from_fields(wire_fields(fields@)) {
                Ok(model) => r is Ok && r.unwrap()@ == model,
                Err(e) => r == Err::<Self, WireError>(e),
            },
    {
        let signer_identity = match find_field(fields, 1) {
            Some(field) => match field.as_bytes() {
                Some(value) => clone_bytes(value),
                None => {
                    return Err(WireError::WrongType { number: 1 });
                },
            },
            None => {
                return Err(WireError::Missing { number: 1 });
            },
        };
        let data = match find_field(fields, 2) {
            Some(field) => match field.as_bytes() {
                Some(value) => clone_bytes(value),
                None => {
                    return Err(WireError::WrongType { number: 2 });
                },
            },
            None => {
                return Err(WireError::Missing { number: 2 });
            },
        };
        let signature = match find_field(fields, 3) {
            Some(field) => match field.as_bytes() {
                Some(value) => clone_bytes(value),
                None => {
                    return Err(WireError::WrongType { number: 3 });
                },
            },
            None => {
                return Err(WireError::Missing { number: 3 });
            },
        };
        Ok(Self { signer_identity, data, signature })
    }

    /// The model as bytes: one map from field number to value.
    pub fn encode(&self) -> (out: Vec<u8>)
        ensures
            out@ == spec_encode_fields(Self::spec_fields(self@)),
    {
        encode_fields(&self.to_fields())
    }

    /// The model that `input` begins with, or why it begins with none: the
    /// bytes are no map of fields, or the fields are not those of the model.
    pub fn decode(input: &[u8]) -> (r: Result<Self, CodecError>)
        ensures
            match spec_decode_fields(input@) {
                None => r == Err::<Self, CodecError>(CodecError::Malformed),
                Some(fields) => match Self::spec_from_fields(fields) {
                    Ok(model) => r is Ok && r.unwrap()@ == model,
                    Err(e) => r == Err::<Self, CodecError>(shape_error(e)),
                },
            },
    {
        match decode_fields(input) {
            Ok(fields) => match Self::from_fields(&fields) {
                Ok(model) => Ok(model),
                Err(e) => Err(codec_error(e)),
            },
            Err(_) => Err(CodecError::Malformed),
        }
    }

    /// A model is read back from its own fields unchanged.
    pub proof fn lemma_fields_round_trip(model: VerifySignatureRequestModel)
        ensures
            Self::spec_from_fields(Self::spec_fields(model)) == Ok::<VerifySignatureRequestModel, WireError>(
                model,
            ),
    {
        let fields = Self::spec_fields(model);
        lemma_field_at_hit(fields, 0, 1);
        lemma_field_at_hit(fields, 1, 2);
        lemma_field_at_hit(fields, 2, 3);
    }

    /// A model is read back from its own bytes unchanged, whatever follows
    /// them, as long as its lengths are such as the format can carry.
    pub proof fn lemma_bytes_round_trip(model: VerifySignatureRequestModel, rest: Seq<u8>)
        requires
            fields_fit(Self::spec_fields(model)),
        ensures
            spec_decode_fields(spec_encode_fields(Self::spec_fields(model)) + rest) == Some(
                Self::spec_fields(model),
            ),
            Self::spec_from_fields(Self::spec_fields(model)) == Ok::<VerifySignatureRequestModel, WireError>(model),
    {
        crate::codec_laws::lemma_fields_round_trip(Self::spec_fields(model), rest);
        Self::lemma_fields_round_trip(model);
    }
}

/// The model of a [`VerifySignatureResponse`].
pub struct VerifySignatureResponseModel {
    pub verified: bool,
}

/// Says whether a signature was found valid.
#[derive(Debug)]
pub struct VerifySignatureResponse {
    /// Whether the signature is the signer's. Field 1.
    verified: bool,
}

impl View for VerifySignatureResponse {
    type V = VerifySignatureResponseModel;

    closed spec fn view(&self) -> VerifySignatureResponseModel {
        VerifySignatureResponseModel {
            verified: self.verified,
        }
    }
}

impl Clone for VerifySignatureResponse {
    fn clone(&self) -> (copy: Self)
        ensures
            copy@ == self@,
    {
        VerifySignatureResponse {
            verified: self.verified,
        }
    }
}

impl VerifySignatureResponse {
    /// The numbered fields under which the model travels, in the order of
    /// their numbers. A value that is not there has no field.
    pub open spec fn spec_fields(model: VerifySignatureResponseModel) -> Seq<FieldModel> {
        seq![
            FieldModel { number: 1, value: FieldValue::Bool(model.verified) },
        ]
    }

    /// The model that a list of numbered fields stands for. Of several
    /// fields of one number the last counts; fields of other numbers are
    /// passed over; the first number that is missing, or that holds a value
    /// of another kind, is reported.
    pub open spec fn spec_from_fields(fields: Seq<FieldModel>) -> Result<VerifySignatureResponseModel, WireError> {
        match field_at(fields, 1) {
            Some(FieldValue::Bool(verified)) => Ok(VerifySignatureResponseModel { verified }),
            Some(_) => Err(WireError::WrongType { number: 1 }),
            None => Err(WireError::Missing { number: 1 }),
        }
    }

    /// A new model from its parts.
    pub fn new(verified: bool) -> (model: Self)
        ensures
            model@.verified == verified,
    {
        Self { verified }
    }

    /// Whether the signature is the signer's.
    pub fn verified(&self) -> (b: bool)
        ensures
            b == self@.verified,
    {
        self.verified
    }

    /// The numbered fields under which the model travels.
    pub fn to_fields(&self) -> (fields: Vec<Field>)
        ensures
            wire_fields(fields@) == Self::spec_fields(self@),
    {
        let mut fields: Vec<Field> = Vec::new();
        fields.push(Field::boolean(1, self.verified));
        assert(wire_fields(fields@) =~= Self::spec_fields(self@));
        fields
    }

    /// The model that a list of numbered fields stands for, or the first
    /// field number at which the list falls short.
    pub fn from_fields(fields: &Vec<Field>) -> (r: Result<Self, WireError>)
        ensures
            match Self::spec_from_fields(wire_fields(fields@)) {
                Ok(model) => r is Ok && r.unwrap()@ == model,
                Err(e) => r == Err::<Self, WireError>(e),
            },
    {
        let verified = match find_field(fields, 1) {
            Some(field) => match field.as_bool() {
                Some(value) => value,
                None => {
                    return Err(WireError::WrongType { number: 1 });
                },
            },
            None => {
                return Err(WireError::Missing { number: 1 });
            },
        };
        Ok(Self { verified })
    }

    /// The model as bytes: one map from field number to value.
    pub fn encode(&self) -> (out: Vec<u8>)
        ensures
            out@ == spec_encode_fields(Self::spec_fields(self@)),
    {
        encode_fields(&self.to_fields())
    }

    /// The model that `input` begins with, or why it begins with none: the
    /// bytes are no map of fields, or the fields are not those of the model.
    pub fn decode(input: &[u8]) -> (r: Result<Self, CodecError>)
        ensures
            match spec_decode_fields(input@) {
                None => r == Err::<Self, CodecError>(CodecError::Malformed),
                Some(fields) => match Self::spec_from_fields(fields) {
                    Ok(model) => r is Ok && r.unwrap()@ == model,
                    Err(e) => r == Err::<Self, CodecError>(shape_error(e)),
                },
            },
    {
        match decode_fields(input) {
            Ok(fields) => match Self::from_fields(&fields) {
                Ok(model) => Ok(model),
                Err(e) => Err(codec_error(e)),
            },
            Err(_) => Err(CodecError::Malformed),
        }
    }

    /// A model is read back from its own fields unchanged.
    pub proof fn lemma_fields_round_trip(model: VerifySignatureResponseModel)
        ensures
            Self::spec_from_fields(Self::spec_fields(model)) == Ok::<VerifySignatureResponseModel, WireError>(
                model,
            ),
    {
        let fields = Self::spec_fields(model);
        lemma_field_at_hit(fields, 0, 1);
    }

    /// A model is read back from its own bytes unchanged, whatever follows
    /// them, as long as its lengths are such as the format can carry.
    pub proof fn lemma_bytes_round_trip(model: VerifySignatureResponseModel, rest: Seq<u8>)
        requires
            fields_fit(Self::spec_fields(model)),
        ensures
            spec_decode_fields(spec_encode_fields(Self::spec_fields(model)) + rest) == Some(
                Self::spec_fields(model),
            ),
            Self::spec_from_fields(Self::spec_fields(model)) == Ok::<VerifySignatureResponseModel, WireError>(model),
    {
        crate::codec_laws::lemma_fields_round_trip(Self::spec_fields(model), rest);
        Self::lemma_fields_round_trip(model);
    }
}

/// The model of a [`LongIdentityResponse`].
pub struct LongIdentityResponseModel {
    pub identity: Seq<u8>,
}

/// A node's identity in full.
#[derive(Debug)]
pub struct LongIdentityResponse {
    /// The exported identity. Field 1.
    pub identity: Vec<u8>,
}

impl View for LongIdentityResponse {
    type V = LongIdentityResponseModel;

    open spec fn view(&self) -> LongIdentityResponseModel {
        LongIdentityResponseModel {
            identity: self.identity@,
        }
    }
}

impl Clone for LongIdentityResponse {
    fn clone(&self) -> (copy: Self)
        ensures
            copy@ == self@,
    {
        LongIdentityResponse {
            identity: clone_bytes(&self.identity),
        }
    }
}

impl LongIdentityResponse {
    /// The numbered fields under which the model travels, in the order of
    /// their numbers. A value that is not there has no field.
    pub open spec fn spec_fields(model: LongIdentityResponseModel) -> Seq<FieldModel> {
        seq![
            FieldModel { number: 1, value: FieldValue::Bytes(model.identity) },
        ]
    }

    /// The model that a list of numbered fields stands for. Of several
    /// fields of one number the last counts; fields of other numbers are
    /// passed over; the first number that is missing, or that holds a value
    /// of another kind, is reported.
    pub open spec fn spec_from_fields(fields: Seq<FieldModel>) -> Result<LongIdentityResponseModel, WireError> {
        match field_at(fields, 1) {
            Some(FieldValue::Bytes(identity)) => Ok(LongIdentityResponseModel { identity }),
            Some(_) => Err(WireError::WrongType { number: 1 }),
            None => Err(WireError::Missing { number: 1 }),
        }
    }

    /// A new model from its parts.
    pub fn new(identity: Vec<u8>) -> (model: Self)
        ensures
            model@.identity == identity@,
    {
        Self { identity }
    }

    /// The numbered fields under which the model travels.
    pub fn to_fields(&self) -> (fields: Vec<Field>)
        ensures
            wire_fields(fields@) == Self::spec_fields(self@),
    {
        let mut fields: Vec<Field> = Vec::new();
        fields.push(Field::bytes(1, clone_bytes(&self.identity)));
        assert(wire_fields(fields@) =~= Self::spec_fields(self@));
        fields
    }

    /// The model that a list of numbered fields stands for, or the first
    /// field number at which the list falls short.
    pub fn from_fields(fields: &Vec<Field>) -> (r: Result<Self, WireError>)
        ensures
            match Self::spec_from_fields(wire_fields(fields@)) {
                Ok(model) => r is Ok && r.unwrap()@ == model,
                Err(e) => r == Err::<Self, WireError>(e),
            },
    {
        let identity = match find_field(fields, 1) {
            Some(field) => match field.as_bytes() {
                Some(value) => clone_bytes(value),
                None => {
                    return Err(WireError::WrongType { number: 1 });
                },
            },
            None => {
                return Err(WireError::Missing { number: 1 });
            },
        };
        Ok(Self { identity })
    }

    /// The model as bytes: one map from field number to value.
    pub fn encode(&self) -> (out: Vec<u8>)
        ensures
            out@ == spec_encode_fields(Self::spec_fields(self@)),
    {
        encode_fields(&self.to_fields())
    }

    /// The model that `input` begins with, or why it begins with none: the
    /// bytes are no map of fields, or the fields are not those of the model.
    pub fn decode(input: &[u8]) -> (r: Result<Self, CodecError>)
        ensures
            match spec_decode_fields(input@) {
                None => r == Err::<Self, CodecError>(CodecError::Malformed),
                Some(fields) => match Self::spec_from_fields(fields) {
                    Ok(model) => r is Ok && r.unwrap()@ == model,
                    Err(e) => r == Err::<Self, CodecError>(shape_error(e)),
                },
            },
    {
        match decode_fields(input) {
            Ok(fields) => match Self::from_fields(&fields) {
                Ok(model) => Ok(model),
                Err(e) => Err(codec_error(e)),
            },
            Err(_) => Err(CodecError::Malformed),
        }
    }

    /// A model is read back from its own fields unchanged.
    pub proof fn lemma_fields_round_trip(model: LongIdentityResponseModel)
        ensures
            Self::spec_from_fields(Self::spec_fields(model)) == Ok::<LongIdentityResponseModel, WireError>(
                model,
            ),
    {
        let fields = Self::spec_fields(model);
        lemma_field_at_hit(fields, 0, 1);
    }

    /// A model is read back from its own bytes unchanged, whatever follows
    /// them, as long as its lengths are such as the format can carry.
    pub proof fn lemma_bytes_round_trip(model: LongIdentityResponseModel, rest: Seq<u8>)
        requires
            fields_fit(Self::spec_fields(model)),
        ensures
            spec_decode_fields(spec_encode_fields(Self::spec_fields(model)) + rest) == Some(
                Self::spec_fields(model),
            ),
            Self::spec_from_fields(Self::spec_fields(model)) == Ok::<LongIdentityResponseModel, WireError>(model),
    {
        crate::codec_laws::lemma_fields_round_trip(Self::spec_fields(model), rest);
        Self::lemma_fields_round_trip(model);
    }
}

/// The model of a [`ShortIdentityResponse`].
pub struct ShortIdentityResponseModel {
    pub identity_id: Seq<char>,
}

/// A node's identity by its identifier.
#[derive(Debug)]
pub struct ShortIdentityResponse {
    /// The identifier of the identity, as text. Field 1.
    pub identity_id: String,
}

impl View for ShortIdentityResponse {
    type V = ShortIdentityResponseModel;

    open spec fn view(&self) -> ShortIdentityResponseModel {
        ShortIdentityResponseModel {
            identity_id: self.identity_id@,
        }
    }
}

impl Clone for ShortIdentityResponse {
    fn clone(&self) -> (copy: Self)
        ensures
            copy@ == self@,
    {
        ShortIdentityResponse {
            identity_id: self.identity_id.clone(),
        }
    }
}

impl ShortIdentityResponse {
    /// The numbered fields under which the model travels, in the order of
    /// their numbers. A value that is not there has no field.
    pub open spec fn spec_fields(model: ShortIdentityResponseModel) -> Seq<FieldModel> {
        seq![
            FieldModel { number: 1, value: FieldValue::Text(model.identity_id) },
        ]
    }

    /// The model that a list of numbered fields stands for. Of several
    /// fields of one number the last counts; fields of other numbers are
    /// passed over; the first number that is missing, or that holds a value
    /// of another kind, is reported.
    pub open spec fn spec_from_fields(fields: Seq<FieldModel>) -> Result<ShortIdentityResponseModel, WireError> {
        match field_at(fields, 1) {
            Some(FieldValue::Text(identity_id)) => Ok(ShortIdentityResponseModel { identity_id }),
            Some(_) => Err(WireError::WrongType { number: 1 }),
            None => Err(WireError::Missing { number: 1 }),
        }
    }

    /// A new model from its parts.
    pub fn new(identity_id: String) -> (model: Self)
        ensures
            model@.identity_id == identity_id@,
    {
        Self { identity_id }
    }

    /// The numbered fields under which the model travels.
    pub fn to_fields(&self) -> (fields: Vec<Field>)
        ensures
            wire_fields(fields@) == Self::spec_fields(self@),
    {
        let mut fields: Vec<Field> = Vec::new();
        fields.push(Field::text(1, self.identity_id.clone()));
        assert(wire_fields(fields@) =~= Self::spec_fields(self@));
        fields
    }

    /// The model that a list of numbered fields stands for, or the first
    /// field number at which the list falls short.
    pub fn from_fields(fields: &Vec<Field>) -> (r: Result<Self, WireError>)
        ensures
            match Self::spec_from_fields(wire_fields(fields@)) {
                Ok(model) => r is Ok && r.unwrap()@ == model,
                Err(e) => r == Err::<Self, WireError>(e),
            },
    {
        let identity_id = match find_field(fields, 1) {
            Some(field) => match field.as_text() {
                Some(value) => value.clone(),
                None => {
                    return Err(WireError::WrongType { number: 1 });
                },
            },
            None => {
                return Err(WireError::Missing { number: 1 });
            },
        };
        Ok(Self { identity_id })
    }

    /// The model as bytes: one map from field number to value.
    pub fn encode(&self) -> (out: Vec<u8>)
        ensures
            out@ == spec_encode_fields(Self::spec_fields(self@)),
    {
        encode_fields(&self.to_fields())
    }

    /// The model that `input` begins with, or why it begins with none: the
    /// bytes are no map of fields, or the fields are not those of the model.
    pub fn decode(input: &[u8]) -> (r: Result<Self, CodecError>)
        ensures
            match spec_decode_fields(input@) {
                None => r == Err::<Self, CodecError>(CodecError::Malformed),
                Some(fields) => match Self::spec_from_fields(fields) {
                    Ok(model) => r is Ok && r.unwrap()@ == model,
                    Err(e) => r == Err::<Self, CodecError>(shape_error(e)),
                },
            },
    {
        match decode_fields(input) {
            Ok(fields) => match Self::from_fields(&fields) {
                Ok(model) => Ok(model),
                Err(e) => Err(codec_error(e)),
            },
            Err(_) => Err(CodecError::Malformed),
        }
    }

    /// A model is read back from its own fields unchanged.
    pub proof fn lemma_fields_round_trip(model: ShortIdentityResponseModel)
        ensures
            Self::spec_from_fields(Self::spec_fields(model)) == Ok::<ShortIdentityResponseModel, WireError>(
                model,
            ),
    {
        let fields = Self::spec_fields(model);
        lemma_field_at_hit(fields, 0, 1);
    }

    /// A model is read back from its own bytes unchanged, whatever follows
    /// them, as long as its lengths are such as the format can carry.
    pub proof fn lemma_bytes_round_trip(model: ShortIdentityResponseModel, rest: Seq<u8>)
        requires
            fields_fit(Self::spec_fields(model)),
        ensures
            spec_decode_fields(spec_encode_fields(Self::spec_fields(model)) + rest) == Some(
                Self::spec_fields(model),
            ),
            Self::spec_from_fields(Self::spec_fields(model)) == Ok::<ShortIdentityResponseModel, WireError>(model),
    {
        crate::codec_laws::lemma_fields_round_trip(Self::spec_fields(model), rest);
        Self::lemma_fields_round_trip(model);
    }
}

} // verus!
