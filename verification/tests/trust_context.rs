use ockam_trust::cli_state::{
    TrustAuthorityConfig, TrustContextConfig, TrustContextState, TrustContextsState,
};
use ockam_trust::error::IdentityError;
use ockam_trust::identity::{Identifier, Identity};
use ockam_trust::trust_context::{
    contains_name, without_repeated_names, AuthorityService, TrustContext,
};

fn identity(name: u8, history: u8) -> Identity {
    Identity::new(Identifier::new(vec![name, name]), vec![history]).unwrap()
}

fn names(list: &[Identity]) -> Vec<Vec<u8>> {
    list.iter().map(|i| i.identifier().as_bytes().to_vec()).collect()
}

#[test]
fn authorities_are_the_trusted_then_the_authority() {
    let authority = identity(9, 1);
    let context = TrustContext::new(
        "ctx".to_string(),
        Some(AuthorityService::new(Identifier::new(vec![9, 9]))),
        vec![identity(1, 1), identity(2, 1)],
    );
    let all = context.authorities(authority).unwrap();
    assert_eq!(names(&all), vec![vec![1u8, 1], vec![2, 2], vec![9, 9]]);
}

#[test]
fn authority_among_the_trusted_is_not_listed_twice() {
    let context = TrustContext::new(
        "ctx".to_string(),
        Some(AuthorityService::new(Identifier::new(vec![2, 2]))),
        vec![identity(1, 1), identity(2, 1), identity(3, 1)],
    );
    let all = context.authorities(identity(2, 7)).unwrap();
    assert_eq!(names(&all), vec![vec![1u8, 1], vec![2, 2], vec![3, 3]]);
    // the one that was trusted first stays
    assert_eq!(all[1].export(), &[1u8][..]);
}

#[test]
fn repeated_trusted_identities_are_listed_once() {
    let context = TrustContext::new(
        "ctx".to_string(),
        Some(AuthorityService::new(Identifier::new(vec![5, 5]))),
        vec![identity(1, 1), identity(2, 1), identity(1, 2), identity(2, 2), identity(1, 3)],
    );
    let all = context.authorities(identity(5, 1)).unwrap();
    assert_eq!(names(&all), vec![vec![1u8, 1], vec![2, 2], vec![5, 5]]);
    assert_eq!(all[0].export(), &[1u8][..]);
}

#[test]
fn authorities_of_a_context_without_trusted_identities() {
    let context = TrustContext::new(
        "ctx".to_string(),
        Some(AuthorityService::new(Identifier::new(vec![5, 5]))),
        vec![],
    );
    let all = context.authorities(identity(5, 1)).unwrap();
    assert_eq!(names(&all), vec![vec![5u8, 5]]);
}

#[test]
fn context_without_authority_fails_explicitly() {
    let context = TrustContext::new("ctx".to_string(), None, vec![identity(1, 1)]);
    assert_eq!(context.authority().err(), Some(IdentityError::UnknownAuthority));
    assert_eq!(context.authorities(identity(9, 1)).err(), Some(IdentityError::UnknownAuthority));
}

#[test]
fn context_gives_back_its_parts() {
    let context = TrustContext::new(
        "my-context".to_string(),
        Some(AuthorityService::new(Identifier::new(vec![4, 2]))),
        vec![identity(1, 1)],
    );
    assert_eq!(context.id(), "my-context");
    assert_eq!(context.authority().unwrap().identifier().as_bytes(), &[4u8, 2][..]);
    assert_eq!(names(context.trusted_authorities()), vec![vec![1u8, 1]]);
}

#[test]
fn added_trusted_authority_is_seen_by_later_calls() {
    let mut context = TrustContext::new(
        "ctx".to_string(),
        Some(AuthorityService::new(Identifier::new(vec![9, 9]))),
        vec![identity(1, 1)],
    );
    assert_eq!(names(&context.authorities(identity(9, 1)).unwrap()).len(), 2);
    context.add_trusted_authority(identity(3, 1));
    let all = context.authorities(identity(9, 1)).unwrap();
    assert_eq!(names(&all), vec![vec![1u8, 1], vec![3, 3], vec![9, 9]]);
}

#[test]
fn contains_name_and_without_repeated_names() {
    let list = vec![identity(1, 1), identity(2, 1), identity(1, 2)];
    assert!(contains_name(&list, &Identifier::new(vec![1, 1])));
    assert!(contains_name(&list, &Identifier::new(vec![2, 2])));
    assert!(!contains_name(&list, &Identifier::new(vec![1])));
    assert!(!contains_name(&Vec::new(), &Identifier::new(vec![1, 1])));
    let once = without_repeated_names(&list);
    assert_eq!(names(&once), vec![vec![1u8, 1], vec![2, 2]]);
}

#[test]
fn identity_without_history_is_refused() {
    let r = Identity::new(Identifier::new(vec![1]), vec![]);
    assert_eq!(r.err(), Some(IdentityError::EmptyIdentity));
    let ok = Identity::new(Identifier::new(vec![1]), vec![0]).unwrap();
    assert_eq!(ok.export(), &[0u8][..]);
    assert_eq!(ok.identifier().as_bytes(), &[1u8][..]);
}

#[test]
fn identifier_from_hexadecimal_text() {
    let id = Identifier::from_hex("00ff10Ab").unwrap();
    assert_eq!(id.as_bytes(), &[0x00u8, 0xff, 0x10, 0xab][..]);
    assert_eq!(id.to_string(), "00ff10ab");
    assert_eq!(Identifier::from_hex("").err(), Some(IdentityError::InvalidIdentifier));
    assert_eq!(Identifier::from_hex("abc").err(), Some(IdentityError::InvalidIdentifier));
    assert_eq!(Identifier::from_hex("zz").err(), Some(IdentityError::InvalidIdentifier));
    assert_eq!(Identifier::from_hex("0g").err(), Some(IdentityError::InvalidIdentifier));
    assert_eq!(Identifier::from_hex("é0").err(), Some(IdentityError::InvalidIdentifier));
}

#[test]
fn identifiers_compare_by_their_bytes() {
    assert!(Identifier::new(vec![1, 2]) == Identifier::new(vec![1, 2]));
    assert!(Identifier::new(vec![1, 2]) != Identifier::new(vec![1, 3]));
    assert!(Identifier::new(vec![1, 2]) != Identifier::new(vec![1, 2, 0]));
    assert!(Identifier::new(vec![]) == Identifier::new(vec![]));
}

fn profile(authority: Option<&str>) -> TrustContextState {
    let config = TrustContextConfig::new(
        "ctx-id".to_string(),
        authority.map(|a| TrustAuthorityConfig::new(a.to_string())),
        vec![identity(1, 1)],
    );
    TrustContextState::new("default".to_string(), "/state/trust_contexts/default.json".to_string(), config)
}

#[test]
fn profile_gives_back_its_parts() {
    let state = profile(Some("81a2"));
    assert_eq!(state.name(), "default");
    assert_eq!(state.id(), "ctx-id");
    assert_eq!(state.path(), "/state/trust_contexts/default.json");
    assert_eq!(state.authority_identity(), Ok("81a2"));
    assert_eq!(state.config().id(), "ctx-id");
    let trusted = state.trusted_authorities();
    assert_eq!(trusted.len(), 1);
    assert_eq!(trusted[0].as_bytes(), &[1u8, 1][..]);
    assert_eq!(state.to_string(), "Name: default\n");
}

#[test]
fn profile_without_authority_fails_explicitly() {
    let state = profile(None);
    assert_eq!(state.authority_identity(), Err(IdentityError::UnknownAuthority));
    assert_eq!(state.config().authority().err(), Some(IdentityError::UnknownAuthority));
}

#[test]
fn profile_adds_trusted_authorities_in_order() {
    let mut state = profile(Some("81a2"));
    state.add_trusted_authority(identity(7, 1));
    state.add_trusted_authority(identity(1, 2));
    let trusted: Vec<Vec<u8>> =
        state.trusted_authorities().iter().map(|i| i.as_bytes().to_vec()).collect();
    assert_eq!(trusted, vec![vec![1u8, 1], vec![7, 7], vec![1, 1]]);
    assert_eq!(state.name(), "default");
    assert_eq!(state.id(), "ctx-id");
    assert_eq!(state.authority_identity(), Ok("81a2"));
}

#[test]
fn profiles_directory_and_its_names() {
    let dir = TrustContextsState::new("/state/trust_contexts".to_string());
    assert_eq!(dir.dir(), "/state/trust_contexts");
    assert_eq!(dir.clone(), dir);
    assert_eq!(TrustContextsState::default_filename(), "trust_context");
    assert_eq!(TrustContextsState::dir_name(), "trust_contexts");
    assert!(!TrustContextsState::has_data_dir());
}
