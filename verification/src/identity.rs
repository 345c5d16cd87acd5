//! Identities: a stable identifier and the change history it was derived from.

use vstd::prelude::*;
use vstd::std_specs::cmp::PartialEqSpecImpl;
use vstd::string::StringSliceAdditionalSpecFns;
use crate::error::IdentityError;
use crate::hex_text::{hex_decode, hex_encode, is_hex_text, spec_hex_decode, spec_hex_encode};
use crate::vault::{clone_bytes, ct_eq_bytes};

verus! {

/// The stable name of an identity: an opaque byte string.
#[derive(Debug)]
pub struct Identifier {
    bytes: Vec<u8>,
}

impl View for Identifier {
    type V = Seq<u8>;

    closed spec fn view(&self) -> Seq<u8> {
        self.bytes@
    }
}

impl Clone for Identifier {
    fn clone(&self) -> (copy: Self)
        ensures
            copy@ == self@,
    {
        Identifier { bytes: clone_bytes(&self.bytes) }
    }
}

impl PartialEq for Identifier {
    /// Compares the two byte strings in constant time.
    fn eq(&self, o: &Self) -> (same: bool) {
        ct_eq_bytes(self.bytes.as_slice(), o.bytes.as_slice())
    }
}

impl PartialEqSpecImpl for Identifier {
    open spec fn obeys_eq_spec() -> bool {
        true
    }

    open spec fn eq_spec(&self, o: &Self) -> bool {
        self@ == o@
    }
}

impl Eq for Identifier {

}

impl Identifier {
    /// The identifier made of `bytes`.
    pub fn new(bytes: Vec<u8>) -> (id: Self)
        ensures
            id@ == bytes@,
    {
        Identifier { bytes }
    }

    /// The bytes of the identifier.
    pub fn as_bytes(&self) -> (bytes: &[u8])
        ensures
            bytes@ == self@,
    {
        self.bytes.as_slice()
    }

    /// The identifier in lower-case hexadecimal.
    pub fn to_string(&self) -> (text: String)
        ensures
            text@ == spec_hex_encode(self@),
    {
        hex_encode(self.bytes.as_slice())
    }

    /// The identifier that `text` spells in hexadecimal. A text that is not
    /// an even number of hexadecimal digits, or that is empty, is no
    /// identifier.
    pub fn from_hex(text: &str) -> (r: Result<Self, IdentityError>)
        ensures
            match r {
                Ok(id) => {
                    &&& is_hex_text(text.spec_bytes())
                    &&& text.spec_bytes().len() > 0
                    &&& id@ == spec_hex_decode(text.spec_bytes())
                },
                Err(e) => {
                    &&& !(is_hex_text(text.spec_bytes()) && text.spec_bytes().len() > 0)
                    &&& e == IdentityError::InvalidIdentifier
                },
            },
    {
        match hex_decode(text.as_bytes()) {
            Ok(bytes) => {
                if bytes.len() == 0 {
                    Err(IdentityError::InvalidIdentifier)
                } else {
                    Ok(Identifier { bytes })
                }
            },
            Err(e) => {
                proof {
                    match e {
                        crate::hex_text::HexError::InvalidHexCharacter { c, index } => {
                            assert(crate::hex_text::hex_value(text.spec_bytes()[index as int]) is None);
                        },
                        _ => {},
                    }
                }
                Err(IdentityError::InvalidIdentifier)
            },
        }
    }
}

/// What an identity is: its identifier and its exported change history.
pub struct IdentityModel {
    pub identifier: Seq<u8>,
    pub change_history: Seq<u8>,
}

/// A principal: an identifier together with the exported history of its keys.
#[derive(Debug)]
pub struct Identity {
    identifier: Identifier,
    change_history: Vec<u8>,
}

impl View for Identity {
    type V = IdentityModel;

    closed spec fn view(&self) -> IdentityModel {
        IdentityModel { identifier: self.identifier@, change_history: self.change_history@ }
    }
}

impl Clone for Identity {
    fn clone(&self) -> (copy: Self)
        ensures
            copy@ == self@,
    {
        Identity {
            identifier: self.identifier.clone(),
            change_history: clone_bytes(&self.change_history),
        }
    }
}

impl Identity {
    /// The identity named `identifier` with the exported history
    /// `change_history`. An identity has a history: an empty one is refused.
    pub fn new(identifier: Identifier, change_history: Vec<u8>) -> (r: Result<Self, IdentityError>)
        ensures
            match r {
                Ok(identity) => {
                    &&& change_history@.len() > 0
                    &&& identity@.identifier == identifier@
                    &&& identity@.change_history == change_history@
                },
                Err(e) => change_history@.len() == 0 && e == IdentityError::EmptyIdentity,
            },
    {
        if change_history.len() == 0 {
            Err(IdentityError::EmptyIdentity)
        } else {
            Ok(Identity { identifier, change_history })
        }
    }

    /// The identity's identifier.
    pub fn identifier(&self) -> (id: &Identifier)
        ensures
            id@ == self@.identifier,
    {
        &self.identifier
    }

    /// The exported change history.
    pub fn export(&self) -> (bytes: &[u8])
        ensures
            bytes@ == self@.change_history,
    {
        self.change_history.as_slice()
    }
}

/// The models of a list of identities, in order.
pub open spec fn identity_models(identities: Seq<Identity>) -> Seq<IdentityModel> {
    identities.map_values(|i: Identity| i@)
}

/// The identifiers of a list of identities, as a set.
pub open spec fn identifier_set(identities: Seq<IdentityModel>) -> Set<Seq<u8>> {
    Set::new(|id: Seq<u8>| names(identities, id))
}

/// Some identity in the list is named `id`.
pub open spec fn names(identities: Seq<IdentityModel>, id: Seq<u8>) -> bool {
    exists|i: int| 0 <= i < identities.len() && (#[trigger] identities[i]).identifier == id
}

/// No two identities in the list share an identifier.
pub open spec fn distinct_identifiers(identities: Seq<IdentityModel>) -> bool {
    forall|i: int, j: int|
        0 <= i < j < identities.len() ==> (#[trigger] identities[i]).identifier != (
        #[trigger] identities[j]).identifier
}

/// The list with every identity dropped whose identifier an earlier one
/// carries: the first of each name stays, in the order of the list.
pub open spec fn first_of_each_name(identities: Seq<IdentityModel>) -> Seq<IdentityModel>
    decreases identities.len(),
{
    if identities.len() == 0 {
        Seq::empty()
    } else {
        let earlier = first_of_each_name(identities.drop_last());
        if names(earlier, identities.last().identifier) {
            earlier
        } else {
            earlier.push(identities.last())
        }
    }
}

/// Dropping repeated names leaves no name twice and loses no name.
pub proof fn lemma_first_of_each_name(identities: Seq<IdentityModel>)
    ensures
        distinct_identifiers(first_of_each_name(identities)),
        forall|id: Seq<u8>|
            names(first_of_each_name(identities), id) <==> names(identities, id),
        first_of_each_name(identities).len() <= identities.len(),
    decreases identities.len(),
{
    if identities.len() > 0 {
        let init = identities.drop_last();
        let last = identities.last();
        lemma_first_of_each_name(init);
        let earlier = first_of_each_name(init);
        let out = first_of_each_name(identities);
        assert forall|id: Seq<u8>| names(out, id) <==> names(identities, id) by {
            if names(out, id) {
                let i = choose|i: int| 0 <= i < out.len() && (#[trigger] out[i]).identifier == id;
                if i < earlier.len() {
                    assert(earlier[i].identifier == id);
                    assert(names(earlier, id));
                    assert(names(init, id));
                    let k = choose|k: int| 0 <= k < init.len() && (#[trigger] init[k]).identifier == id;
                    assert(identities[k].identifier == id);
                } else {
                    assert(identities[identities.len() - 1].identifier == id);
                }
            }
            if names(identities, id) {
                let k = choose|k: int|
                    0 <= k < identities.len() && (#[trigger] identities[k]).identifier == id;
                if k < init.len() {
                    assert(init[k].identifier == id);
                    assert(names(init, id));
                    assert(names(earlier, id));
                    let i = choose|i: int|
                        0 <= i < earlier.len() && (#[trigger] earlier[i]).identifier == id;
                    assert(out[i].identifier == id);
                } else {
                    if names(earlier, last.identifier) {
                    } else {
                        assert(out[out.len() - 1].identifier == id);
                    }
                }
            }
        }
        assert(distinct_identifiers(out)) by {
            if !names(earlier, last.identifier) {
                assert forall|i: int, j: int| 0 <= i < j < out.len() implies (#[trigger] out[i]).identifier
                    != (#[trigger] out[j]).identifier by {
                    if j < earlier.len() {
                        assert(earlier[i].identifier != earlier[j].identifier);
                    } else {
                        assert(earlier[i].identifier != last.identifier);
                    }
                }
            }
        }
    }
}

} // verus!
