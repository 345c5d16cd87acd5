use ockam_trust::byte_map::ByteMap;
use ockam_trust::cbor::DecodeError;
use ockam_trust::codec::{decode_fields, encode_fields, CodecError};
use ockam_trust::identity::Identifier;
use ockam_trust::models::{
    CompareIdentityChangeHistoryRequest, CreateResponse, CreateSignatureRequest,
    CreateSignatureResponse, LongIdentityResponse, ShortIdentityResponse,
    ValidateIdentityChangeHistoryRequest, ValidateIdentityChangeHistoryResponse,
    VerifySignatureRequest, VerifySignatureResponse,
};
use ockam_trust::verification::{Attributes, Timestamp, VerifyRequest, VerifyResponse};
use ockam_trust::wire::{Field, Value};

fn shape(fields: &[Field]) -> Vec<String> {
    fields
        .iter()
        .map(|f| match &f.value {
            Value::Bytes(b) => format!("{}:bytes{:?}", f.number, b),
            Value::Text(t) => format!("{}:text{:?}", f.number, t),
            Value::Bool(b) => format!("{}:bool({})", f.number, b),
            Value::Unsigned(n) => format!("{}:unsigned({})", f.number, n),
            Value::Entries(m) => format!("{}:entries({})", f.number, m.len()),
            Value::Null => format!("{}:null", f.number),
            Value::Other => format!("{}:other", f.number),
        })
        .collect()
}

#[test]
fn create_response_bytes() {
    let m = CreateResponse::new(vec![1, 2, 3], "P1234".to_string());
    let bytes = m.encode();
    assert_eq!(
        bytes,
        vec![0xa2, 0x01, 0x43, 1, 2, 3, 0x02, 0x65, b'P', b'1', b'2', b'3', b'4']
    );
    let back = CreateResponse::decode(&bytes).unwrap();
    assert_eq!(back.identity(), &[1u8, 2, 3][..]);
    assert_eq!(back.identity_id(), "P1234");
}

#[test]
fn single_field_models_bytes() {
    assert_eq!(ValidateIdentityChangeHistoryRequest::new(vec![9]).encode(), vec![0xa1, 0x01, 0x41, 9]);
    assert_eq!(
        ValidateIdentityChangeHistoryResponse::new("Pé".to_string()).encode(),
        vec![0xa1, 0x01, 0x63, b'P', 0xc3, 0xa9]
    );
    assert_eq!(CreateSignatureResponse::new(vec![]).encode(), vec![0xa1, 0x01, 0x40]);
    assert_eq!(VerifySignatureResponse::new(true).encode(), vec![0xa1, 0x01, 0xf5]);
    assert_eq!(VerifySignatureResponse::new(false).encode(), vec![0xa1, 0x01, 0xf4]);
    assert_eq!(LongIdentityResponse::new(vec![7, 7]).encode(), vec![0xa1, 0x01, 0x42, 7, 7]);
    assert_eq!(ShortIdentityResponse::new("I".to_string()).encode(), vec![0xa1, 0x01, 0x61, b'I']);

    assert!(VerifySignatureResponse::decode(&[0xa1, 0x01, 0xf5]).unwrap().verified());
    assert!(!VerifySignatureResponse::decode(&[0xa1, 0x01, 0xf4]).unwrap().verified());
    assert_eq!(
        ValidateIdentityChangeHistoryResponse::decode(&[0xa1, 0x01, 0x63, b'P', 0xc3, 0xa9])
            .unwrap()
            .identity_id(),
        "Pé"
    );
    assert_eq!(LongIdentityResponse::decode(&[0xa1, 0x01, 0x42, 7, 7]).unwrap().identity, vec![7, 7]);
    assert_eq!(ShortIdentityResponse::decode(&[0xa1, 0x01, 0x61, b'I']).unwrap().identity_id, "I");
}

#[test]
fn several_field_models_bytes() {
    let m = CompareIdentityChangeHistoryRequest::new(vec![1], vec![2, 2]);
    assert_eq!(m.encode(), vec![0xa2, 0x01, 0x41, 1, 0x02, 0x42, 2, 2]);
    let back = CompareIdentityChangeHistoryRequest::decode(&m.encode()).unwrap();
    assert_eq!(back.current_identity(), &[1u8][..]);
    assert_eq!(back.known_identity(), &[2u8, 2][..]);

    let m = VerifySignatureRequest::new(vec![1], vec![2], vec![3]);
    assert_eq!(m.encode(), vec![0xa3, 0x01, 0x41, 1, 0x02, 0x41, 2, 0x03, 0x41, 3]);
    let back = VerifySignatureRequest::decode(&m.encode()).unwrap();
    assert_eq!(back.signer_identity(), &[1u8][..]);
    assert_eq!(back.data(), &[2u8][..]);
    assert_eq!(back.signature(), &[3u8][..]);
}

#[test]
fn optional_field_is_left_out_or_null() {
    let m = CreateSignatureRequest::new(vec![1], vec![2]);
    assert_eq!(m.encode(), vec![0xa2, 0x01, 0x41, 1, 0x02, 0x41, 2]);
    assert_eq!(CreateSignatureRequest::decode(&m.encode()).unwrap().vault_name(), None);
    let named = m.with_vault_name("v1".to_string());
    assert_eq!(named.encode(), vec![0xa3, 0x01, 0x41, 1, 0x02, 0x41, 2, 0x03, 0x62, b'v', b'1']);
    let back = CreateSignatureRequest::decode(&named.encode()).unwrap();
    assert_eq!(back.vault_name(), Some("v1".to_string()));
    // null stands for a name that is not there
    let with_null = [0xa3, 0x01, 0x41, 1, 0x02, 0x41, 2, 0x03, 0xf6];
    assert_eq!(CreateSignatureRequest::decode(&with_null).unwrap().vault_name(), None);
    // but not for a value that must be there
    let null_data = [0xa2, 0x01, 0x41, 1, 0x02, 0xf6];
    assert_eq!(
        CreateSignatureRequest::decode(&null_data).err(),
        Some(CodecError::WrongType { number: 2 })
    );
}

#[test]
fn long_values_have_longer_heads() {
    let m = LongIdentityResponse::new(vec![0xab; 24]);
    let bytes = m.encode();
    assert_eq!(&bytes[..4], &[0xa1, 0x01, 0x58, 24]);
    assert_eq!(LongIdentityResponse::decode(&bytes).unwrap().identity, vec![0xab; 24]);
    let m = LongIdentityResponse::new(vec![0xcd; 300]);
    let bytes = m.encode();
    assert_eq!(&bytes[..5], &[0xa1, 0x01, 0x59, 0x01, 0x2c]);
    assert_eq!(bytes.len(), 305);
    assert_eq!(LongIdentityResponse::decode(&bytes).unwrap().identity, vec![0xcd; 300]);
    let m = LongIdentityResponse::new(vec![0xef; 70_000]);
    let bytes = m.encode();
    assert_eq!(&bytes[..7], &[0xa1, 0x01, 0x5a, 0x00, 0x01, 0x11, 0x70]);
    assert_eq!(LongIdentityResponse::decode(&bytes).unwrap().identity, vec![0xef; 70_000]);
}

#[test]
fn verify_models_bytes() {
    let request = VerifyRequest::new(vec![0xc0], Identifier::new(vec![1, 1]))
        .with_authority(Identifier::new(vec![10]), vec![0xa0, 0xa1])
        .with_authority(Identifier::new(vec![11]), vec![]);
    let bytes = request.encode();
    assert_eq!(
        bytes,
        vec![
            0xa3, 0x01, 0x41, 0xc0, 0x02, 0x42, 1, 1, 0x03, 0xa2, 0x41, 10, 0x42, 0xa0, 0xa1,
            0x41, 11, 0x40
        ]
    );
    let back = VerifyRequest::decode(&bytes).unwrap();
    assert_eq!(back.credential(), &[0xc0u8][..]);
    assert_eq!(back.subject().as_bytes(), &[1u8, 1][..]);
    assert_eq!(back.authorities().len(), 2);
    assert_eq!(back.authority(&Identifier::new(vec![10])), Some(&vec![0xa0u8, 0xa1]));
    assert_eq!(back.authority(&Identifier::new(vec![11])), Some(&vec![]));

    let mut attrs = Attributes::new();
    attrs.put(b"r".to_vec(), b"m".to_vec());
    let response = VerifyResponse::new(attrs, Timestamp(1_700_000_000));
    let bytes = response.encode();
    assert_eq!(
        bytes,
        vec![0xa2, 0x01, 0xa1, 0x41, b'r', 0x41, b'm', 0x02, 0x1a, 0x65, 0x53, 0xf1, 0x00]
    );
    let back = VerifyResponse::decode(&bytes).unwrap();
    assert_eq!(back.expires_at(), Timestamp(1_700_000_000));
    assert_eq!(back.attributes().get(b"r"), Some(&b"m".to_vec()));

    let response = VerifyResponse::new(Attributes::new(), Timestamp(u64::MAX));
    let bytes = response.encode();
    assert_eq!(bytes, vec![0xa2, 0x01, 0xa0, 0x02, 0x1b, 255, 255, 255, 255, 255, 255, 255, 255]);
    assert_eq!(VerifyResponse::decode(&bytes).unwrap().expires_at(), Timestamp(u64::MAX));
    let response = VerifyResponse::new(Attributes::new(), Timestamp(23));
    assert_eq!(response.encode(), vec![0xa2, 0x01, 0xa0, 0x02, 0x17]);
    let response = VerifyResponse::new(Attributes::new(), Timestamp(24));
    assert_eq!(response.encode(), vec![0xa2, 0x01, 0xa0, 0x02, 0x18, 24]);
    let response = VerifyResponse::new(Attributes::new(), Timestamp(256));
    assert_eq!(response.encode(), vec![0xa2, 0x01, 0xa0, 0x02, 0x19, 1, 0]);
}

#[test]
fn fields_are_written_in_the_order_of_the_list() {
    let mut map = ByteMap::new();
    map.put(vec![1], vec![2]);
    let fields = vec![
        Field::unsigned(5, 500),
        Field::boolean(0, true),
        Field::null(7),
        Field::other(8),
        Field::entries(300, map),
        Field::text(1, "".to_string()),
    ];
    assert_eq!(
        encode_fields(&fields),
        vec![
            0xa6, 0x05, 0x19, 0x01, 0xf4, 0x00, 0xf5, 0x07, 0xf6, 0x08, 0xf6, 0x19, 0x01, 0x2c,
            0xa1, 0x41, 1, 0x41, 2, 0x01, 0x60
        ]
    );
    assert_eq!(encode_fields(&vec![]), vec![0xa0]);
}

#[test]
fn fields_are_read_in_the_order_of_the_bytes() {
    let bytes = [
        0xa6, 0x05, 0x19, 0x01, 0xf4, 0x00, 0xf5, 0x07, 0xf6, 0x08, 0x80, 0x19, 0x01, 0x2c, 0xa1,
        0x41, 1, 0x41, 2, 0x01, 0x60,
    ];
    let fields = decode_fields(&bytes).unwrap();
    assert_eq!(
        shape(&fields),
        vec![
            "5:unsigned(500)",
            "0:bool(true)",
            "7:null",
            "8:other",
            "300:entries(1)",
            "1:text\"\""
        ]
    );
    assert_eq!(shape(&decode_fields(&[0xa0]).unwrap()), Vec::<String>::new());
}

#[test]
fn map_of_indefinite_length_is_read_until_the_break() {
    let bytes = [0xbf, 0x01, 0x41, 9, 0x02, 0x61, b'x', 0xff];
    let m = CreateResponse::decode(&bytes).unwrap();
    assert_eq!(m.identity(), &[9u8][..]);
    assert_eq!(m.identity_id(), "x");
    assert_eq!(shape(&decode_fields(&[0xbf, 0xff]).unwrap()), Vec::<String>::new());
    // without the break the map never ends
    assert_eq!(decode_fields(&[0xbf, 0x01, 0x41, 9]).err(), Some(DecodeError::Malformed));
    // entries of indefinite length
    let bytes = [0xa1, 0x03, 0xbf, 0x41, 1, 0x41, 2, 0x41, 3, 0x40, 0xff];
    assert_eq!(shape(&decode_fields(&bytes).unwrap()), vec!["3:entries(2)"]);
}

#[test]
fn numbers_are_read_in_every_width() {
    for bytes in [
        vec![0xa1, 0x01, 0x02],
        vec![0xa1, 0x18, 0x01, 0x18, 0x02],
        vec![0xa1, 0x19, 0, 1, 0x19, 0, 2],
        vec![0xa1, 0x1a, 0, 0, 0, 1, 0x1a, 0, 0, 0, 2],
        vec![0xa1, 0x1b, 0, 0, 0, 0, 0, 0, 0, 1, 0x1b, 0, 0, 0, 0, 0, 0, 0, 2],
        vec![0xb8, 0x01, 0x01, 0x02],
        vec![0xb9, 0x00, 0x01, 0x01, 0x02],
    ] {
        assert_eq!(shape(&decode_fields(&bytes).unwrap()), vec!["1:unsigned(2)"]);
    }
}

#[test]
fn unknown_values_are_passed_over_whole() {
    // an array with a nested map, a tagged text, a negative number, a float
    let bytes = [
        0xa5, 0x09, 0x82, 0x01, 0xa1, 0x61, b'k', 0x82, 0x02, 0x03, 0x01, 0x41, 7, 0x0a, 0xc1,
        0x61, b't', 0x0b, 0x38, 0x63, 0x0c, 0xfb, 0, 0, 0, 0, 0, 0, 0, 0,
    ];
    let fields = decode_fields(&bytes).unwrap();
    assert_eq!(
        shape(&fields),
        vec!["9:other", "1:bytes[7]", "10:other", "11:other", "12:other"]
    );
    assert_eq!(LongIdentityResponse::decode(&bytes).unwrap().identity, vec![7]);
    // a map that is no map of byte strings
    let bytes = [0xa2, 0x03, 0xa1, 0x01, 0x02, 0x01, 0x40];
    assert_eq!(shape(&decode_fields(&bytes).unwrap()), vec!["3:other", "1:bytes[]"]);
    // byte and text strings in chunks are of no kind that a model reads
    let bytes = [0xa2, 0x01, 0x5f, 0x41, 1, 0xff, 0x02, 0x7f, 0x61, b'a', 0xff];
    assert_eq!(shape(&decode_fields(&bytes).unwrap()), vec!["1:other", "2:other"]);
}

#[test]
fn what_follows_the_map_is_ignored() {
    let bytes = [0xa1, 0x01, 0xf5, 0xde, 0xad];
    assert!(VerifySignatureResponse::decode(&bytes).unwrap().verified());
}

#[test]
fn bytes_that_are_no_map_of_fields_are_malformed() {
    for bytes in [
        vec![],
        vec![0x80],
        vec![0x01],
        vec![0xa1],
        vec![0xa1, 0x01],
        vec![0xa2, 0x01, 0xf5],
        vec![0xa1, 0x41, 1, 0xf5],
        vec![0xa1, 0x61, b'a', 0xf5],
        vec![0xa1, 0x20, 0xf5],
        vec![0xa1, 0x01, 0x42, 1],
        vec![0xa1, 0x01, 0x62, b'a'],
        vec![0xa1, 0x01, 0x61, 0xff],
        vec![0xa1, 0x01, 0x62, 0xc3, 0x28],
        vec![0xa1, 0x01, 0x82, 0x01],
        vec![0xa1, 0x01, 0x18],
        vec![0xa1, 0x01, 0x1c],
        vec![0xa1, 0x1c, 0x01],
        vec![0xbc, 0x01, 0x01],
        vec![0xa1, 0x01, 0xa1, 0x41, 1],
    ] {
        assert_eq!(decode_fields(&bytes).err(), Some(DecodeError::Malformed), "{:?}", bytes);
        assert_eq!(CreateResponse::decode(&bytes).err(), Some(CodecError::Malformed));
    }
}

#[test]
fn fields_that_are_not_the_models_are_reported() {
    assert_eq!(CreateResponse::decode(&[0xa0]).err(), Some(CodecError::Missing { number: 1 }));
    assert_eq!(
        CreateResponse::decode(&[0xa1, 0x01, 0x40]).err(),
        Some(CodecError::Missing { number: 2 })
    );
    assert_eq!(
        CreateResponse::decode(&[0xa2, 0x01, 0x60, 0x02, 0x60]).err(),
        Some(CodecError::WrongType { number: 1 })
    );
    assert_eq!(
        CreateResponse::decode(&[0xa2, 0x01, 0x40, 0x02, 0x40]).err(),
        Some(CodecError::WrongType { number: 2 })
    );
    assert_eq!(
        VerifySignatureResponse::decode(&[0xa1, 0x01, 0x01]).err(),
        Some(CodecError::WrongType { number: 1 })
    );
    assert_eq!(
        VerifyResponse::decode(&[0xa2, 0x01, 0xa0, 0x02, 0x41, 1]).err(),
        Some(CodecError::WrongType { number: 2 })
    );
    assert_eq!(
        VerifyRequest::decode(&[0xa2, 0x01, 0x40, 0x02, 0x40]).err(),
        Some(CodecError::Missing { number: 3 })
    );
}

#[test]
fn last_of_repeated_fields_and_keys_counts() {
    let bytes = [0xa3, 0x01, 0x41, 1, 0x02, 0x60, 0x01, 0x41, 2];
    assert_eq!(CreateResponse::decode(&bytes).unwrap().identity(), &[2u8][..]);
    let bytes = [0xa1, 0x03, 0xa3, 0x41, 1, 0x41, 1, 0x41, 2, 0x41, 2, 0x41, 1, 0x41, 9];
    let fields = decode_fields(&bytes).unwrap();
    let map = fields[0].as_entries().unwrap();
    assert_eq!(map.len(), 2);
    assert_eq!(map.key(0), &vec![1u8]);
    assert_eq!(map.value(0), &vec![9u8]);
    assert_eq!(map.key(1), &vec![2u8]);
}
