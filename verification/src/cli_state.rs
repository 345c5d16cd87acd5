//! Named trust-context profiles: what a profile holds and how it answers.
//! Reading and writing the profile's file is left to the caller.

use vstd::prelude::*;
use vstd::string::StringExecFns;
use crate::error::IdentityError;
use crate::identity::{identity_models, Identifier, Identity, IdentityModel};

verus! {

/// The authority of a profile: its identity, exported and written as text.
#[derive(Debug)]
pub struct TrustAuthorityConfig {
    identity: String,
}

impl View for TrustAuthorityConfig {
    type V = Seq<char>;

    closed spec fn view(&self) -> Seq<char> {
        self.identity@
    }
}

impl Clone for TrustAuthorityConfig {
    fn clone(&self) -> (copy: Self)
        ensures
            copy@ == self@,
    {
        TrustAuthorityConfig { identity: self.identity.clone() }
    }
}

impl TrustAuthorityConfig {
    /// The authority whose exported identity is `identity`.
    pub fn new(identity: String) -> (authority: Self)
        ensures
            authority@ == identity@,
    {
        TrustAuthorityConfig { identity }
    }

    /// The authority's exported identity, as text.
    pub fn identity_str(&self) -> (text: &str)
        ensures
            text@ == self@,
    {
        self.identity.as_str()
    }
}

/// What a profile's configuration is.
pub struct TrustContextConfigModel {
    pub id: Seq<char>,
    pub authority: Option<Seq<char>>,
    pub trusted_authorities: Seq<IdentityModel>,
}

/// The configuration of a trust context, as a profile stores it.
#[derive(Debug)]
pub struct TrustContextConfig {
    id: String,
    authority: Option<TrustAuthorityConfig>,
    trusted_authorities: Vec<Identity>,
}

impl View for TrustContextConfig {
    type V = TrustContextConfigModel;

    closed spec fn view(&self) -> TrustContextConfigModel {
        TrustContextConfigModel {
            id: self.id@,
            authority: match self.authority {
                Some(authority) => Some(authority@),
                None => None,
            },
            trusted_authorities: identity_models(self.trusted_authorities@),
        }
    }
}

/// The identifiers of a list of identities, in order.
pub open spec fn identifiers_of(identities: Seq<IdentityModel>) -> Seq<Seq<u8>> {
    identities.map_values(|i: IdentityModel| i.identifier)
}

/// The views of a list of identifiers, in order.
pub open spec fn identifier_views(identifiers: Seq<Identifier>) -> Seq<Seq<u8>> {
    identifiers.map_values(|i: Identifier| i@)
}

impl TrustContextConfig {
    /// A configuration from its parts.
    pub fn new(
        id: String,
        authority: Option<TrustAuthorityConfig>,
        trusted_authorities: Vec<Identity>,
    ) -> (config: Self)
        ensures
            config@.id == id@,
            config@.authority == match authority {
                Some(a) => Some(a@),
                None => None,
            },
            config@.trusted_authorities == identity_models(trusted_authorities@),
    {
        TrustContextConfig { id, authority, trusted_authorities }
    }

    /// The ID of the trust context.
    pub fn id(&self) -> (id: &str)
        ensures
            id@ == self@.id,
    {
        self.id.as_str()
    }

    /// The configured authority, or the unknown-authority error where there is none.
    pub fn authority(&self) -> (r: Result<&TrustAuthorityConfig, IdentityError>)
        ensures
            match r {
                Ok(authority) => self@.authority == Some(authority@),
                Err(e) => self@.authority is None && e == IdentityError::UnknownAuthority,
            },
    {
        match &self.authority {
            Some(authority) => Ok(authority),
            None => Err(IdentityError::UnknownAuthority),
        }
    }

    /// The identities trusted besides the authority, in the order in which
    /// they were added.
    pub fn trusted_identities(&self) -> (list: &Vec<Identity>)
        ensures
            identity_models(list@) == self@.trusted_authorities,
    {
        &self.trusted_authorities
    }

    /// Trust `authority_identity` in addition to those already trusted.
    pub fn add_trusted_authority(&mut self, authority_identity: Identity)
        ensures
            final(self)@.trusted_authorities == old(self)@.trusted_authorities.push(
                authority_identity@,
            ),
            final(self)@.id == old(self)@.id,
            final(self)@.authority == old(self)@.authority,
    {
        let ghost before = identity_models(self.trusted_authorities@);
        self.trusted_authorities.push(authority_identity);
        assert(identity_models(self.trusted_authorities@) =~= before.push(authority_identity@));
    }

    /// The identifiers of the identities trusted besides the authority, in the
    /// order in which they were added.
    pub fn trusted_authorities(&self) -> (list: Vec<Identifier>)
        ensures
            identifier_views(list@) == identifiers_of(self@.trusted_authorities),
    {
        let mut list: Vec<Identifier> = Vec::new();
        let mut i: usize = 0;
        while i < self.trusted_authorities.len()
            invariant
                i <= self.trusted_authorities.len(),
                list@.len() == i,
                forall|j: int|
                    0 <= j < i ==> (#[trigger] list@[j])@ == self.trusted_authorities@[j]@.identifier,
            decreases self.trusted_authorities.len() - i,
        {
            list.push(self.trusted_authorities[i].identifier().clone());
            i = i + 1;
        }
        assert(identifier_views(list@) =~= identifiers_of(self@.trusted_authorities));
        list
    }
}

/// The directory in which trust-context profiles are kept.
#[derive(Debug, PartialEq, Eq)]
pub struct TrustContextsState {
    dir: String,
}

impl View for TrustContextsState {
    type V = Seq<char>;

    closed spec fn view(&self) -> Seq<char> {
        self.dir@
    }
}

impl Clone for TrustContextsState {
    fn clone(&self) -> (copy: Self)
        ensures
            copy@ == self@,
    {
        TrustContextsState { dir: self.dir.clone() }
    }
}

impl TrustContextsState {
    /// The profiles kept under `dir`.
    pub fn new(dir: String) -> (state: Self)
        ensures
            state@ == dir@,
    {
        Self { dir }
    }

    /// The directory.
    pub fn dir(&self) -> (dir: &str)
        ensures
            dir@ == self@,
    {
        self.dir.as_str()
    }

    /// The file name a profile has where none is given.
    pub fn default_filename() -> (name: &'static str)
        ensures
            name@ == "trust_context"@,
    {
        "trust_context"
    }

    /// The name of the directory of profiles below the state directory.
    pub fn dir_name() -> (name: &'static str)
        ensures
            name@ == "trust_contexts"@,
    {
        "trust_contexts"
    }

    /// Whether a profile has a directory for data of its own: it has none.
    pub fn has_data_dir() -> (data_dir: bool)
        ensures
            data_dir == false,
    {
        false
    }
}

/// What a trust-context profile is.
pub struct TrustContextStateModel {
    pub name: Seq<char>,
    pub path: Seq<char>,
    pub config: TrustContextConfigModel,
}

/// One trust-context profile: its name, where it is kept, and its configuration.
#[derive(Debug)]
pub struct TrustContextState {
    name: String,
    path: String,
    config: TrustContextConfig,
}

impl View for TrustContextState {
    type V = TrustContextStateModel;

    closed spec fn view(&self) -> TrustContextStateModel {
        TrustContextStateModel { name: self.name@, path: self.path@, config: self.config@ }
    }
}

impl TrustContextState {
    /// The profile called `name`, kept at `path`, with the configuration `config`.
    pub fn new(name: String, path: String, config: TrustContextConfig) -> (state: Self)
        ensures
            state@.name == name@,
            state@.path == path@,
            state@.config == config@,
    {
        Self { name, path, config }
    }

    /// The profile's name.
    pub fn name(&self) -> (name: &str)
        ensures
            name@ == self@.name,
    {
        self.name.as_str()
    }

    /// The ID of the profile's trust context.
    pub fn id(&self) -> (id: &str)
        ensures
            id@ == self@.config.id,
    {
        self.config.id()
    }

    /// Where the profile is kept.
    pub fn path(&self) -> (path: &str)
        ensures
            path@ == self@.path,
    {
        self.path.as_str()
    }

    /// The profile's configuration.
    pub fn config(&self) -> (config: &TrustContextConfig)
        ensures
            config@ == self@.config,
    {
        &self.config
    }

    /// Trust `authority_identity` in addition. Name and path stay; the
    /// configuration changes by that one identity, put last.
    pub fn add_trusted_authority(&mut self, authority_identity: Identity)
        ensures
            final(self)@.config.trusted_authorities == old(self)@.config.trusted_authorities.push(
                authority_identity@,
            ),
            final(self)@.config.id == old(self)@.config.id,
            final(self)@.config.authority == old(self)@.config.authority,
            final(self)@.name == old(self)@.name,
            final(self)@.path == old(self)@.path,
    {
        self.config.add_trusted_authority(authority_identity);
    }

    /// The exported identity of the profile's authority, as text, or the
    /// unknown-authority error where the profile has no authority.
    pub fn authority_identity(&self) -> (r: Result<&str, IdentityError>)
        ensures
            match r {
                Ok(text) => self@.config.authority == Some(text@),
                Err(e) => self@.config.authority is None && e == IdentityError::UnknownAuthority,
            },
    {
        match self.config.authority() {
            Ok(authority) => Ok(authority.identity_str()),
            Err(e) => Err(e),
        }
    }

    /// The identifiers of the identities the profile trusts besides its
    /// authority, in the order in which they were added.
    pub fn trusted_authorities(&self) -> (list: Vec<Identifier>)
        ensures
            identifier_views(list@) == identifiers_of(self@.config.trusted_authorities),
    {
        self.config.trusted_authorities()
    }

    /// The printed form of a profile: its name on a line of its own.
    pub open spec fn spec_to_string(self) -> Seq<char> {
        "Name: "@ + self@.name + "\n"@
    }

    /// The printed form of a profile.
    pub fn to_string(&self) -> (text: String)
        ensures
            text@ == self.spec_to_string(),
    {
        let mut text = String::from_str("Name: ");
        text.append(self.name.as_str());
        text.append("\n");
        text
    }
}

} // verus!
