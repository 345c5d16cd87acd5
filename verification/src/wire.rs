//! The shape in which models travel: a list of numbered fields. The numbers
//! are what peers agree on; the order of the list is not.

use vstd::prelude::*;
use crate::byte_map::ByteMap;

verus! {

/// What a field holds, as a plain value.
pub enum FieldValue {
    /// A byte string.
    Bytes(Seq<u8>),
    /// A text string.
    Text(Seq<char>),
    /// A truth value.
    Bool(bool),
    /// An unsigned number.
    Unsigned(u64),
    /// A map from byte strings to byte strings, in the order of its entries.
    Entries(Seq<(Seq<u8>, Seq<u8>)>),
    /// The null value, which stands for a value that is not there.
    Null,
    /// A value of a kind that no model here reads.
    Other,
}

/// A numbered field, as a plain value.
pub struct FieldModel {
    pub number: u64,
    pub value: FieldValue,
}

/// What a field holds.
#[derive(Debug)]
pub enum Value {
    /// A byte string.
    Bytes(Vec<u8>),
    /// A text string.
    Text(String),
    /// A truth value.
    Bool(bool),
    /// An unsigned number.
    Unsigned(u64),
    /// A map from byte strings to byte strings.
    Entries(ByteMap),
    /// The null value, which stands for a value that is not there.
    Null,
    /// A value of a kind that no model here reads.
    Other,
}

impl View for Value {
    type V = FieldValue;

    open spec fn view(&self) -> FieldValue {
        match self {
            Value::Bytes(bytes) => FieldValue::Bytes(bytes@),
            Value::Text(text) => FieldValue::Text(text@),
            Value::Bool(b) => FieldValue::Bool(*b),
            Value::Unsigned(n) => FieldValue::Unsigned(*n),
            Value::Entries(map) => FieldValue::Entries(map@),
            Value::Null => FieldValue::Null,
            Value::Other => FieldValue::Other,
        }
    }
}

/// A numbered field of a model.
#[derive(Debug)]
pub struct Field {
    pub number: u64,
    pub value: Value,
}

impl View for Field {
    type V = FieldModel;

    open spec fn view(&self) -> FieldModel {
        FieldModel { number: self.number, value: self.value@ }
    }
}

/// Why a list of fields is not the model asked for.
#[derive(Clone, Copy, Debug, PartialEq, Eq, Structural)]
pub enum WireError {
    /// The list has no field of this number, and the model needs one.
    Missing { number: u64 },
    /// The field of this number holds a value of another kind than the model's.
    WrongType { number: u64 },
}

/// The plain values of a list of fields, in order.
pub open spec fn wire_fields(fields: Seq<Field>) -> Seq<FieldModel> {
    fields.map_values(|f: Field| f@)
}

/// The value under `number`: that of the last field of that number, if there is one.
pub open spec fn field_at(fields: Seq<FieldModel>, number: u64) -> Option<FieldValue>
    decreases fields.len(),
{
    if fields.len() == 0 {
        None
    } else if fields.last().number == number {
        Some(fields.last().value)
    } else {
        field_at(fields.drop_last(), number)
    }
}

impl Field {
    /// The field `number` holding a byte string.
    pub fn bytes(number: u64, bytes: Vec<u8>) -> (field: Field)
        ensures
            field@ == (FieldModel { number, value: FieldValue::Bytes(bytes@) }),
    {
        Field { number, value: Value::Bytes(bytes) }
    }

    /// The field `number` holding a text.
    pub fn text(number: u64, text: String) -> (field: Field)
        ensures
            field@ == (FieldModel { number, value: FieldValue::Text(text@) }),
    {
        Field { number, value: Value::Text(text) }
    }

    /// The field `number` holding a truth value.
    pub fn boolean(number: u64, b: bool) -> (field: Field)
        ensures
            field@ == (FieldModel { number, value: FieldValue::Bool(b) }),
    {
        Field { number, value: Value::Bool(b) }
    }

    /// The field `number` holding an unsigned number.
    pub fn unsigned(number: u64, n: u64) -> (field: Field)
        ensures
            field@ == (FieldModel { number, value: FieldValue::Unsigned(n) }),
    {
        Field { number, value: Value::Unsigned(n) }
    }

    /// The field `number` holding a map.
    pub fn entries(number: u64, map: ByteMap) -> (field: Field)
        ensures
            field@ == (FieldModel { number, value: FieldValue::Entries(map@) }),
    {
        Field { number, value: Value::Entries(map) }
    }

    /// The field `number` holding the null value.
    pub fn null(number: u64) -> (field: Field)
        ensures
            field@ == (FieldModel { number, value: FieldValue::Null }),
    {
        Field { number, value: Value::Null }
    }

    /// The field `number` holding a value that no model here reads.
    pub fn other(number: u64) -> (field: Field)
        ensures
            field@ == (FieldModel { number, value: FieldValue::Other }),
    {
        Field { number, value: Value::Other }
    }

    /// The byte string the field holds, if it holds one.
    pub fn as_bytes(&self) -> (r: Option<&Vec<u8>>)
        ensures
            match r {
                Some(bytes) => self@.value == FieldValue::Bytes(bytes@),
                None => !(self@.value is Bytes),
            },
    {
        match &self.value {
            Value::Bytes(bytes) => Some(bytes),
            _ => None,
        }
    }

    /// The text the field holds, if it holds one.
    pub fn as_text(&self) -> (r: Option<&String>)
        ensures
            match r {
                Some(text) => self@.value == FieldValue::Text(text@),
                None => !(self@.value is Text),
            },
    {
        match &self.value {
            Value::Text(text) => Some(text),
            _ => None,
        }
    }

    /// The truth value the field holds, if it holds one.
    pub fn as_bool(&self) -> (r: Option<bool>)
        ensures
            match r {
                Some(b) => self@.value == FieldValue::Bool(b),
                None => !(self@.value is Bool),
            },
    {
        match &self.value {
            Value::Bool(b) => Some(*b),
            _ => None,
        }
    }

    /// The map the field holds, if it holds one.
    pub fn as_entries(&self) -> (r: Option<&ByteMap>)
        ensures
            match r {
                Some(map) => self@.value == FieldValue::Entries(map@),
                None => !(self@.value is Entries),
            },
    {
        match &self.value {
            Value::Entries(map) => Some(map),
            _ => None,
        }
    }

    /// Whether the field holds the null value.
    pub fn is_null(&self) -> (yes: bool)
        ensures
            yes == (self@.value is Null),
    {
        match &self.value {
            Value::Null => true,
            _ => false,
        }
    }

    /// The unsigned number the field holds, if it holds one.
    pub fn as_unsigned(&self) -> (r: Option<u64>)
        ensures
            match r {
                Some(n) => self@.value == FieldValue::Unsigned(n),
                None => !(self@.value is Unsigned),
            },
    {
        match &self.value {
            Value::Unsigned(n) => Some(*n),
            _ => None,
        }
    }
}

/// The last field numbered `number`, if the list has one.
pub fn find_field(fields: &Vec<Field>, number: u64) -> (r: Option<&Field>)
    ensures
        match r {
            Some(field) => field@.number == number && field_at(wire_fields(fields@), number) == Some(
                field@.value,
            ),
            None => field_at(wire_fields(fields@), number) is None,
        },
{
    let mut i: usize = fields.len();
    assert(wire_fields(fields@).take(fields.len() as int) =~= wire_fields(fields@));
    while i > 0
        invariant
            i <= fields.len(),
            field_at(wire_fields(fields@), number) == field_at(
                wire_fields(fields@).take(i as int),
                number,
            ),
        decreases i,
    {
        let ghost upto = wire_fields(fields@).take(i as int);
        assert(upto.last() == fields@[i - 1]@);
        assert(upto.drop_last() =~= wire_fields(fields@).take(i - 1));
        i = i - 1;
        if fields[i].number == number {
            return Some(&fields[i]);
        }
    }
    assert(wire_fields(fields@).take(0) =~= Seq::<FieldModel>::empty());
    None
}

/// The field at place `i` is the one found under its number when no later
/// field carries that number.
pub proof fn lemma_field_at_hit(fields: Seq<FieldModel>, i: int, number: u64)
    requires
        0 <= i < fields.len(),
        fields[i].number == number,
        forall|j: int| i < j < fields.len() ==> (#[trigger] fields[j]).number != number,
    ensures
        field_at(fields, number) == Some(fields[i].value),
    decreases fields.len(),
{
    if i < fields.len() - 1 {
        assert(fields[fields.len() - 1].number != number);
        lemma_field_at_hit(fields.drop_last(), i, number);
    }
}

/// Nothing is found under a number that no field carries.
pub proof fn lemma_field_at_miss(fields: Seq<FieldModel>, number: u64)
    requires
        forall|j: int| 0 <= j < fields.len() ==> (#[trigger] fields[j]).number != number,
    ensures
        field_at(fields, number) is None,
    decreases fields.len(),
{
    if fields.len() > 0 {
        assert(fields[fields.len() - 1].number != number);
        lemma_field_at_miss(fields.drop_last(), number);
    }
}

} // verus!
