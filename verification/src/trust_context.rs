//! Trust contexts: which authorities are believed, within a named scope.

use vstd::prelude::*;
use crate::error::IdentityError;
use crate::identity::{
    distinct_identifiers,
    first_of_each_name,
    identifier_set,
    identity_models,
    lemma_first_of_each_name,
    names,
    Identifier,
    Identity,
    IdentityModel,
};

verus! {

/// The authority of a trust context: the service that issues credentials,
/// known by the identifier of its identity.
#[derive(Debug)]
pub struct AuthorityService {
    identifier: Identifier,
}

impl View for AuthorityService {
    type V = Seq<u8>;

    closed spec fn view(&self) -> Seq<u8> {
        self.identifier@
    }
}

impl Clone for AuthorityService {
    fn clone(&self) -> (copy: Self)
        ensures
            copy@ == self@,
    {
        AuthorityService { identifier: self.identifier.clone() }
    }
}

impl AuthorityService {
    /// The authority whose identity is named `identifier`.
    pub fn new(identifier: Identifier) -> (service: Self)
        ensures
            service@ == identifier@,
    {
        AuthorityService { identifier }
    }

    /// The identifier of the authority's identity.
    pub fn identifier(&self) -> (id: &Identifier)
        ensures
            id@ == self@,
    {
        &self.identifier
    }
}

/// What a trust context is: its name, the identifier of its authority if it
/// has one, and the identities trusted besides.
pub struct TrustContextModel {
    pub id: Seq<char>,
    pub authority: Option<Seq<u8>>,
    pub trusted_authorities: Seq<IdentityModel>,
}

/// A trust context defines which authorities are trusted to attest to which
/// attributes, within a context.
#[derive(Debug)]
pub struct TrustContext {
    /// The ID of the trust context, which policies refer to.
    id: String,
    /// Authority capable of retrieving credentials.
    authority: Option<AuthorityService>,
    /// Authorities which can be used to verify credentials in addition to
    /// the authority above.
    trusted_authorities: Vec<Identity>,
}

impl View for TrustContext {
    type V = TrustContextModel;

    closed spec fn view(&self) -> TrustContextModel {
        TrustContextModel {
            id: self.id@,
            authority: match self.authority {
                Some(service) => Some(service@),
                None => None,
            },
            trusted_authorities: identity_models(self.trusted_authorities@),
        }
    }
}

/// The identities whose credentials a context accepts: the trusted
/// identities, then the authority's own, each name once and where it first
/// occurs.
pub open spec fn spec_authorities(
    trusted: Seq<IdentityModel>,
    authority: IdentityModel,
) -> Seq<IdentityModel> {
    first_of_each_name(trusted.push(authority))
}

/// Whether some identity in `list` is named `id`.
pub fn contains_name(list: &Vec<Identity>, id: &Identifier) -> (found: bool)
    ensures
        found == names(identity_models(list@), id@),
{
    let mut i: usize = 0;
    while i < list.len()
        invariant
            i <= list.len(),
            forall|j: int| 0 <= j < i ==> (#[trigger] identity_models(list@)[j]).identifier != id@,
        decreases list.len() - i,
    {
        if list[i].identifier() == id {
            assert(identity_models(list@)[i as int].identifier == id@);
            return true;
        }
        i = i + 1;
    }
    false
}

/// A copy of `list` without the identities whose name an earlier one carries.
pub fn without_repeated_names(list: &Vec<Identity>) -> (out: Vec<Identity>)
    ensures
        identity_models(out@) == first_of_each_name(identity_models(list@)),
{
    let mut out: Vec<Identity> = Vec::new();
    let mut i: usize = 0;
    assert(identity_models(list@).take(0) =~= Seq::<IdentityModel>::empty());
    assert(identity_models(out@) =~= Seq::<IdentityModel>::empty());
    while i < list.len()
        invariant
            i <= list.len(),
            identity_models(out@) == first_of_each_name(identity_models(list@).take(i as int)),
        decreases list.len() - i,
    {
        let ghost before = identity_models(list@).take(i as int);
        let ghost upto = identity_models(list@).take(i + 1);
        assert(upto.drop_last() =~= before);
        assert(upto.last() == list@[i as int]@);
        let candidate = &list[i];
        if !contains_name(&out, candidate.identifier()) {
            let ghost earlier = identity_models(out@);
            out.push(candidate.clone());
            assert(identity_models(out@) =~= earlier.push(list@[i as int]@));
        }
        i = i + 1;
    }
    assert(identity_models(list@).take(list.len() as int) =~= identity_models(list@));
    out
}

impl TrustContext {
    /// Create a new Trust Context
    pub fn new(
        id: String,
        authority: Option<AuthorityService>,
        trusted_authorities: Vec<Identity>,
    ) -> (context: Self)
        ensures
            context@.id == id@,
            context@.authority == match authority {
                Some(service) => Some(service@),
                None => None,
            },
            context@.trusted_authorities == identity_models(trusted_authorities@),
    {
        Self { id, authority, trusted_authorities }
    }

    /// Return the ID of the Trust Context
    pub fn id(&self) -> (id: &str)
        ensures
            id@ == self@.id,
    {
        self.id.as_str()
    }

    /// Return the Authority of the Trust Context, or the unknown-authority
    /// error where none was configured.
    pub fn authority(&self) -> (r: Result<&AuthorityService, IdentityError>)
        ensures
            match r {
                Ok(service) => self@.authority == Some(service@),
                Err(e) => self@.authority is None && e == IdentityError::UnknownAuthority,
            },
    {
        match &self.authority {
            Some(service) => Ok(service),
            None => Err(IdentityError::UnknownAuthority),
        }
    }

    /// The identities trusted besides the authority, as they were given.
    pub fn trusted_authorities(&self) -> (list: &Vec<Identity>)
        ensures
            identity_models(list@) == self@.trusted_authorities,
    {
        &self.trusted_authorities
    }

    /// Trust `identity` in addition: it is put behind those already trusted,
    /// and seen by every later call of `authorities`.
    pub fn add_trusted_authority(&mut self, identity: Identity)
        ensures
            final(self)@.trusted_authorities == old(self)@.trusted_authorities.push(identity@),
            final(self)@.id == old(self)@.id,
            final(self)@.authority == old(self)@.authority,
    {
        let ghost before = identity_models(self.trusted_authorities@);
        self.trusted_authorities.push(identity);
        assert(identity_models(self.trusted_authorities@) =~= before.push(identity@));
    }

    /// Return the authority identities attached to this trust context: the
    /// trusted identities followed by `authority_identity`, the identity of
    /// the configured authority, each name once. Fails with the
    /// unknown-authority error where no authority was configured.
    pub fn authorities(
        &self,
        authority_identity: Identity,
    ) -> (r: Result<Vec<Identity>, IdentityError>)
        ensures
            match r {
                Ok(list) => {
                    &&& self@.authority is Some
                    &&& identity_models(list@) == spec_authorities(
                        self@.trusted_authorities,
                        authority_identity@,
                    )
                },
                Err(e) => self@.authority is None && e == IdentityError::UnknownAuthority,
            },
    {
        if self.authority.is_none() {
            return Err(IdentityError::UnknownAuthority);
        }
        let ghost trusted = identity_models(self.trusted_authorities@);
        let ghost all = trusted.push(authority_identity@);
        let mut out = without_repeated_names(&self.trusted_authorities);
        assert(all.drop_last() =~= trusted);
        if !contains_name(&out, authority_identity.identifier()) {
            let ghost earlier = identity_models(out@);
            out.push(authority_identity);
            assert(identity_models(out@) =~= earlier.push(authority_identity@));
        }
        Ok(out)
    }
}

/// A list in which no name occurs twice is left as it is.
pub proof fn lemma_distinct_list_is_kept(identities: Seq<IdentityModel>)
    requires
        distinct_identifiers(identities),
    ensures
        first_of_each_name(identities) == identities,
    decreases identities.len(),
{
    if identities.len() > 0 {
        let init = identities.drop_last();
        assert forall|i: int, j: int| 0 <= i < j < init.len() implies (#[trigger] init[i]).identifier
            != (#[trigger] init[j]).identifier by {
            assert(identities[i].identifier != identities[j].identifier);
        }
        lemma_distinct_list_is_kept(init);
        if names(init, identities.last().identifier) {
            let k = choose|k: int|
                0 <= k < init.len() && (#[trigger] init[k]).identifier == identities.last().identifier;
            assert(identities[k].identifier != identities[identities.len() - 1].identifier);
        }
        assert(init.push(identities.last()) =~= identities);
    }
}

/// The authorities of a context are exactly the trusted identities together
/// with the authority: every one of those names occurs, no other name does,
/// and none occurs twice, also where the authority is among the trusted.
pub proof fn lemma_authorities_is_the_union(trusted: Seq<IdentityModel>, authority: IdentityModel)
    ensures
        distinct_identifiers(spec_authorities(trusted, authority)),
        identifier_set(spec_authorities(trusted, authority)) == identifier_set(trusted).insert(
            authority.identifier,
        ),
{
    let all = trusted.push(authority);
    let out = spec_authorities(trusted, authority);
    lemma_first_of_each_name(all);
    assert forall|id: Seq<u8>| names(all, id) <==> (names(trusted, id) || id
        == authority.identifier) by {
        if names(all, id) {
            let k = choose|k: int| 0 <= k < all.len() && (#[trigger] all[k]).identifier == id;
            if k < trusted.len() {
                assert(trusted[k].identifier == id);
            }
        }
        if names(trusted, id) {
            let k = choose|k: int| 0 <= k < trusted.len() && (#[trigger] trusted[k]).identifier == id;
            assert(all[k].identifier == id);
        }
        if id == authority.identifier {
            assert(all[all.len() - 1].identifier == id);
        }
    }
    assert forall|id: Seq<u8>|
        identifier_set(out).contains(id) <==> identifier_set(trusted).insert(
            authority.identifier,
        ).contains(id) by {
        assert(names(out, id) <==> names(all, id));
        assert(names(all, id) <==> (names(trusted, id) || id == authority.identifier));
    }
    assert(identifier_set(out) =~= identifier_set(trusted).insert(authority.identifier));
}

/// Where no trusted name occurs twice, the authorities are the trusted
/// identities in their order, followed by the authority unless it is one of them.
pub proof fn lemma_authorities_keeps_the_order(trusted: Seq<IdentityModel>, authority: IdentityModel)
    requires
        distinct_identifiers(trusted),
    ensures
        spec_authorities(trusted, authority) == if names(trusted, authority.identifier) {
            trusted
        } else {
            trusted.push(authority)
        },
{
    let all = trusted.push(authority);
    assert(all.drop_last() =~= trusted);
    lemma_distinct_list_is_kept(trusted);
}

} // verus!
