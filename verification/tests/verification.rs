use ockam_trust::byte_map::ByteMap;
use ockam_trust::error::IdentityError;
use ockam_trust::identity::{Identifier, Identity};
use ockam_trust::secure_channel::{credential_outcome, CredentialOutcome};
use ockam_trust::verification::{
    Attributes, CredentialClaim, Timestamp, VerifyRequest, VerifyResponse,
};
use ockam_trust::wire::{Field, WireError};

fn id(n: u8) -> Identifier {
    Identifier::new(vec![n, n, n])
}

fn attributes() -> Attributes {
    let mut a = Attributes::new();
    a.put(b"role".to_vec(), b"member".to_vec());
    a.put(b"project".to_vec(), b"p1".to_vec());
    a
}

fn claim(subject: u8, issuer: u8, expires: u64) -> CredentialClaim {
    CredentialClaim::new(id(subject), id(issuer), attributes(), Timestamp(expires))
}

fn request() -> VerifyRequest {
    VerifyRequest::new(vec![0xc0], id(1))
        .with_authority(id(10), vec![0xa0])
        .with_authority(id(11), vec![0xa1])
}

#[test]
fn verified_credential_gives_attributes_and_expiry() {
    let r = request().verify(&claim(1, 11, 2000), true, Some(Timestamp(1999))).unwrap();
    assert_eq!(r.expires_at(), Timestamp(2000));
    assert_eq!(r.attributes().len(), 2);
    assert_eq!(r.attributes().get(b"role"), Some(&b"member".to_vec()));
    assert_eq!(r.attributes().get(b"project"), Some(&b"p1".to_vec()));
    assert_eq!(r.attributes().get(b"other"), None);
}

#[test]
fn credential_of_an_unknown_issuer_is_refused() {
    let r = request().verify(&claim(1, 12, 2000), true, Some(Timestamp(1000)));
    assert_eq!(r.err(), Some(IdentityError::UnknownAuthority));
    let none = VerifyRequest::new(vec![0xc0], id(1));
    let r = none.verify(&claim(1, 10, 2000), true, Some(Timestamp(1000)));
    assert_eq!(r.err(), Some(IdentityError::UnknownAuthority));
    // the unknown issuer is reported before anything else
    let r = request().verify(&claim(2, 12, 0), false, None);
    assert_eq!(r.err(), Some(IdentityError::UnknownAuthority));
}

#[test]
fn credential_is_refused_without_the_time() {
    let r = request().verify(&claim(1, 10, 2000), true, None);
    assert_eq!(r.err(), Some(IdentityError::UnknownTimestamp));
    let r = request().verify(&claim(2, 10, 0), false, None);
    assert_eq!(r.err(), Some(IdentityError::UnknownTimestamp));
}

#[test]
fn credential_about_another_subject_is_refused() {
    let r = request().verify(&claim(2, 10, 2000), true, Some(Timestamp(1000)));
    assert_eq!(r.err(), Some(IdentityError::CredentialVerificationFailed));
}

#[test]
fn expired_credential_is_refused() {
    let r = request().verify(&claim(1, 10, 2000), true, Some(Timestamp(2000)));
    assert_eq!(r.err(), Some(IdentityError::CredentialVerificationFailed));
    let r = request().verify(&claim(1, 10, 2000), true, Some(Timestamp(2001)));
    assert_eq!(r.err(), Some(IdentityError::CredentialVerificationFailed));
    let r = request().verify(&claim(1, 10, 0), true, Some(Timestamp(0)));
    assert_eq!(r.err(), Some(IdentityError::CredentialVerificationFailed));
    let r = request().verify(&claim(1, 10, u64::MAX), true, Some(Timestamp(u64::MAX - 1)));
    assert!(r.is_ok());
}

#[test]
fn credential_with_a_bad_signature_is_refused() {
    let r = request().verify(&claim(1, 10, 2000), false, Some(Timestamp(1000)));
    assert_eq!(r.err(), Some(IdentityError::CredentialVerificationFailed));
}

#[test]
fn request_gives_back_its_parts() {
    let r = request();
    assert_eq!(r.credential(), &[0xc0u8][..]);
    assert_eq!(r.subject().as_bytes(), &[1u8, 1, 1][..]);
    assert_eq!(r.authorities().len(), 2);
    assert_eq!(r.authority(&id(10)), Some(&vec![0xa0u8]));
    assert_eq!(r.authority(&id(11)), Some(&vec![0xa1u8]));
    assert_eq!(r.authority(&id(12)), None);
    assert_eq!(r.issuing_authority(&claim(1, 11, 1)), Ok(&vec![0xa1u8]));
    assert_eq!(r.issuing_authority(&claim(1, 12, 1)), Err(IdentityError::UnknownAuthority));
}

#[test]
fn authority_added_again_keeps_its_place_and_takes_the_new_identity() {
    let r = request().with_authority(id(10), vec![0xff]).with_authority(id(3), vec![0x03]);
    assert_eq!(r.authorities().len(), 3);
    assert_eq!(r.authorities().key(0), &vec![10u8, 10, 10]);
    assert_eq!(r.authorities().value(0), &vec![0xffu8]);
    assert_eq!(r.authorities().key(1), &vec![11u8, 11, 11]);
    assert_eq!(r.authorities().key(2), &vec![3u8, 3, 3]);
    assert_eq!(r.authority(&id(10)), Some(&vec![0xffu8]));
}

#[test]
fn authorities_of_a_trust_context_become_the_candidates() {
    let list = vec![
        Identity::new(id(5), vec![0x50]).unwrap(),
        Identity::new(id(6), vec![0x60, 0x61]).unwrap(),
    ];
    let r = VerifyRequest::new(vec![1], id(1)).with_authorities(&list);
    assert_eq!(r.authorities().len(), 2);
    assert_eq!(r.authority(&id(5)), Some(&vec![0x50u8]));
    assert_eq!(r.authority(&id(6)), Some(&vec![0x60u8, 0x61]));
    assert!(r.verify(&claim(1, 6, 10), true, Some(Timestamp(1))).is_ok());
    let r = VerifyRequest::new(vec![1], id(1)).with_authorities(&vec![]);
    assert_eq!(r.authorities().len(), 0);
}

#[test]
fn claim_gives_back_its_parts() {
    let c = claim(1, 10, 99);
    assert_eq!(c.subject().as_bytes(), &[1u8, 1, 1][..]);
    assert_eq!(c.issuer().as_bytes(), &[10u8, 10, 10][..]);
    assert_eq!(c.expires_at(), Timestamp(99));
    assert_eq!(c.attributes().len(), 2);
}

#[test]
fn verifier_answer_decides_the_credential_step() {
    let ok = request().verify(&claim(1, 10, 2000), true, Some(Timestamp(1)));
    assert_eq!(credential_outcome(&ok), CredentialOutcome::Verified);
    let unknown = request().verify(&claim(1, 12, 2000), true, Some(Timestamp(1)));
    assert_eq!(credential_outcome(&unknown), CredentialOutcome::UnknownAuthority);
    let expired = request().verify(&claim(1, 10, 1), true, Some(Timestamp(1)));
    assert_eq!(credential_outcome(&expired), CredentialOutcome::Rejected);
    let no_time = request().verify(&claim(1, 10, 1), true, None);
    assert_eq!(credential_outcome(&no_time), CredentialOutcome::Rejected);
}

#[test]
fn verify_models_travel_as_numbered_fields() {
    let r = request();
    let fields = r.to_fields();
    assert_eq!(fields.len(), 3);
    assert_eq!(fields[0].number, 1);
    assert_eq!(fields[0].as_bytes(), Some(&vec![0xc0u8]));
    assert_eq!(fields[1].number, 2);
    assert_eq!(fields[1].as_bytes(), Some(&vec![1u8, 1, 1]));
    assert_eq!(fields[2].number, 3);
    assert_eq!(fields[2].as_entries().map(|m| m.len()), Some(2));
    let back = VerifyRequest::from_fields(&fields).unwrap();
    assert_eq!(back.credential(), r.credential());
    assert_eq!(back.subject().as_bytes(), r.subject().as_bytes());
    assert_eq!(back.authority(&id(11)), Some(&vec![0xa1u8]));

    let resp = VerifyResponse::new(attributes(), Timestamp(77));
    let fields = resp.to_fields();
    assert_eq!(fields.len(), 2);
    assert_eq!(fields[0].as_entries().map(|m| m.len()), Some(2));
    assert_eq!(fields[1].as_unsigned(), Some(77));
    let back = VerifyResponse::from_fields(&fields).unwrap();
    assert_eq!(back.expires_at(), Timestamp(77));
    assert_eq!(back.attributes().get(b"role"), Some(&b"member".to_vec()));

    assert_eq!(VerifyRequest::from_fields(&vec![]).err(), Some(WireError::Missing { number: 1 }));
    let fields = vec![Field::bytes(1, vec![]), Field::bytes(2, vec![]), Field::bytes(3, vec![])];
    assert_eq!(VerifyRequest::from_fields(&fields).err(), Some(WireError::WrongType { number: 3 }));
    let fields = vec![Field::entries(1, ByteMap::new())];
    assert_eq!(VerifyResponse::from_fields(&fields).err(), Some(WireError::Missing { number: 2 }));
    let fields = vec![Field::entries(1, ByteMap::new()), Field::boolean(2, true)];
    assert_eq!(VerifyResponse::from_fields(&fields).err(), Some(WireError::WrongType { number: 2 }));
}

#[test]
fn byte_map_keeps_the_order_of_first_puts() {
    let mut m = ByteMap::new();
    assert!(m.is_empty());
    assert_eq!(m.get(b"a"), None);
    m.put(b"b".to_vec(), vec![1]);
    m.put(b"a".to_vec(), vec![2]);
    m.put(b"b".to_vec(), vec![3]);
    m.put(vec![], vec![4]);
    assert_eq!(m.len(), 3);
    assert!(!m.is_empty());
    assert_eq!(m.key(0), &b"b".to_vec());
    assert_eq!(m.value(0), &vec![3u8]);
    assert_eq!(m.key(1), &b"a".to_vec());
    assert_eq!(m.key(2), &Vec::<u8>::new());
    assert_eq!(m.get(b"b"), Some(&vec![3u8]));
    assert_eq!(m.get(b"a"), Some(&vec![2u8]));
    assert_eq!(m.get(b""), Some(&vec![4u8]));
    assert_eq!(m.get(b"ab"), None);
    assert!(m.contains_key(b"a"));
    assert!(!m.contains_key(b"c"));
    let copy = m.clone();
    assert_eq!(copy.len(), 3);
    assert_eq!(copy.get(b"b"), Some(&vec![3u8]));
}

#[test]
fn attributes_are_set_and_read_by_name() {
    let mut a = Attributes::new();
    assert!(a.is_empty());
    a.put(b"k".to_vec(), b"v1".to_vec());
    a.put(b"k".to_vec(), b"v2".to_vec());
    assert_eq!(a.len(), 1);
    assert_eq!(a.get(b"k"), Some(&b"v2".to_vec()));
    assert_eq!(a.as_map().len(), 1);
    let copy = a.clone();
    assert_eq!(copy.get(b"k"), Some(&b"v2".to_vec()));
    let mut m = ByteMap::new();
    m.put(vec![1], vec![2]);
    assert_eq!(Attributes::from_map(m).get(&[1]), Some(&vec![2u8]));
}
