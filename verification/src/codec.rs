//! Lists of numbered fields as bytes: one CBOR map from field number to value.

use vstd::prelude::*;
use crate::byte_map::{spec_put, ByteMap};
use crate::cbor::{
    bool_at,
    bytes_at,
    info_at,
    item_head,
    major_at,
    map_at,
    null_at,
    read_bool,
    read_bytes,
    read_map_head,
    read_null,
    read_text,
    read_unsigned,
    skip_item,
    skipped_to,
    spec_encode_bool,
    spec_encode_bytes,
    spec_encode_null,
    spec_encode_text,
    text_at,
    unsigned_at,
    write_bool,
    write_bytes,
    write_map_head,
    write_null,
    write_text,
    write_unsigned,
    DecodeError,
};
use crate::wire::{wire_fields, Field, FieldModel, FieldValue, Value, WireError};

verus! {

/// The entries of a map, one after the other: each key and each value as a byte string.
pub open spec fn encode_pairs(pairs: Seq<(Seq<u8>, Seq<u8>)>) -> Seq<u8>
    decreases pairs.len(),
{
    if pairs.len() == 0 {
        Seq::empty()
    } else {
        encode_pairs(pairs.drop_last()) + spec_encode_bytes(pairs.last().0) + spec_encode_bytes(
            pairs.last().1,
        )
    }
}

/// The bytes of one value. A value of a kind that no model reads is written
/// as null, as the null value itself is.
pub open spec fn encode_value(value: FieldValue) -> Seq<u8> {
    match value {
        FieldValue::Bytes(bytes) => spec_encode_bytes(bytes),
        FieldValue::Text(text) => spec_encode_text(text),
        FieldValue::Bool(b) => spec_encode_bool(b),
        FieldValue::Unsigned(n) => item_head(0, n as nat),
        FieldValue::Entries(pairs) => item_head(5, pairs.len()) + encode_pairs(pairs),
        FieldValue::Null => spec_encode_null(),
        FieldValue::Other => spec_encode_null(),
    }
}

/// The fields one after the other: each number, then its value.
pub open spec fn encode_field_list(fields: Seq<FieldModel>) -> Seq<u8>
    decreases fields.len(),
{
    if fields.len() == 0 {
        Seq::empty()
    } else {
        encode_field_list(fields.drop_last()) + item_head(0, fields.last().number as nat)
            + encode_value(fields.last().value)
    }
}

/// The bytes of a list of fields: the head of a map with as many entries as
/// there are fields, then the fields in the order of the list.
pub open spec fn spec_encode_fields(fields: Seq<FieldModel>) -> Seq<u8> {
    item_head(5, fields.len()) + encode_field_list(fields)
}

/// The map that results from putting the pairs into an empty one, in order.
pub open spec fn put_all(pairs: Seq<(Seq<u8>, Seq<u8>)>) -> Seq<(Seq<u8>, Seq<u8>)>
    decreases pairs.len(),
{
    if pairs.len() == 0 {
        Seq::empty()
    } else {
        spec_put(put_all(pairs.drop_last()), pairs.last().0, pairs.last().1)
    }
}

/// The number of entries that are left after one was read.
pub open spec fn one_less(remaining: Option<nat>) -> Option<nat> {
    match remaining {
        Some(n) => Some((n - 1) as nat),
        None => None,
    }
}

/// The entries of a map are all read at `pos`: none is left of a map of
/// definite length, or the break of one of indefinite length stands there.
pub open spec fn at_end(input: Seq<u8>, pos: int, remaining: Option<nat>) -> bool {
    match remaining {
        Some(n) => n == 0,
        None => 0 <= pos < input.len() && input[pos] == 0xff,
    }
}

/// The place after the entries of a map that are all read at `pos`.
pub open spec fn end_place(pos: int, remaining: Option<nat>) -> int {
    match remaining {
        Some(_) => pos,
        None => pos + 1,
    }
}

/// The pairs of byte strings that stand at `pos` as the entries of a map of
/// which `remaining` are left to read, and the place after the map.
pub open spec fn pairs_from(
    input: Seq<u8>,
    pos: int,
    remaining: Option<nat>,
) -> Option<(Seq<(Seq<u8>, Seq<u8>)>, int)>
    decreases input.len() - pos,
{
    if at_end(input, pos, remaining) {
        Some((Seq::empty(), end_place(pos, remaining)))
    } else {
        match bytes_at(input, pos) {
            Some((key, after_key)) => match bytes_at(input, after_key) {
                Some((value, next)) => if pos < next <= input.len() {
                    match pairs_from(input, next, one_less(remaining)) {
                        Some((rest, end)) => Some((seq![(key, value)] + rest, end)),
                        None => None,
                    }
                } else {
                    None
                },
                None => None,
            },
            None => None,
        }
    }
}

/// The map from byte strings to byte strings that starts at `pos`, and the
/// place after it.
pub open spec fn entries_at(input: Seq<u8>, pos: int) -> Option<(Seq<(Seq<u8>, Seq<u8>)>, int)> {
    match map_at(input, pos) {
        Some((len, start)) => match pairs_from(input, start, len) {
            Some((pairs, end)) => Some((put_all(pairs), end)),
            None => None,
        },
        None => None,
    }
}

/// The value that starts at `pos`, and the place after it. An unsigned
/// number, a truth value, the null value, a byte string, a text and a map
/// of byte strings are read as what they are; any other item is passed
/// over whole.
pub open spec fn value_at(input: Seq<u8>, pos: int) -> Option<(FieldValue, int)> {
    if !(0 <= pos < input.len()) {
        None
    } else if major_at(input, pos) == 0 {
        match unsigned_at(input, pos) {
            Some((n, end)) => Some((FieldValue::Unsigned(n as u64), end)),
            None => None,
        }
    } else if input[pos] == 0xf4 || input[pos] == 0xf5 {
        match bool_at(input, pos) {
            Some((b, end)) => Some((FieldValue::Bool(b), end)),
            None => None,
        }
    } else if input[pos] == 0xf6 {
        match null_at(input, pos) {
            Some(end) => Some((FieldValue::Null, end)),
            None => None,
        }
    } else if major_at(input, pos) == 2 && info_at(input, pos) != 31 {
        match bytes_at(input, pos) {
            Some((bytes, end)) => Some((FieldValue::Bytes(bytes), end)),
            None => None,
        }
    } else if major_at(input, pos) == 3 && info_at(input, pos) != 31 {
        match text_at(input, pos) {
            Some((text, end)) => Some((FieldValue::Text(text), end)),
            None => None,
        }
    } else if major_at(input, pos) == 5 && entries_at(input, pos) is Some {
        Some((FieldValue::Entries(entries_at(input, pos).unwrap().0), entries_at(input, pos).unwrap().1))
    } else {
        match skipped_to(input, pos) {
            Some(end) => if pos < end <= input.len() {
                Some((FieldValue::Other, end))
            } else {
                None
            },
            None => None,
        }
    }
}

/// The fields that stand at `pos` as the entries of a map of which
/// `remaining` are left to read, and the place after the map.
pub open spec fn fields_from(
    input: Seq<u8>,
    pos: int,
    remaining: Option<nat>,
) -> Option<(Seq<FieldModel>, int)>
    decreases input.len() - pos,
{
    if at_end(input, pos, remaining) {
        Some((Seq::empty(), end_place(pos, remaining)))
    } else {
        match unsigned_at(input, pos) {
            Some((number, after_number)) => match value_at(input, after_number) {
                Some((value, next)) => if pos < next <= input.len() {
                    match fields_from(input, next, one_less(remaining)) {
                        Some((rest, end)) => Some(
                            (seq![FieldModel { number: number as u64, value }] + rest, end),
                        ),
                        None => None,
                    }
                } else {
                    None
                },
                None => None,
            },
            None => None,
        }
    }
}

/// The list of fields that `input` begins with, written as one map from
/// field number to value. What follows the map is ignored.
pub open spec fn spec_decode_fields(input: Seq<u8>) -> Option<Seq<FieldModel>> {
    match map_at(input, 0) {
        Some((len, start)) => match fields_from(input, start, len) {
            Some((fields, _)) => Some(fields),
            None => None,
        },
        None => None,
    }
}

/// Writes the entries of `map` behind `out`.
fn encode_entries(out: Vec<u8>, map: &ByteMap) -> (r: Vec<u8>)
    ensures
        r@ == out@ + item_head(5, map@.len()) + encode_pairs(map@),
{
    let ghost start = out@;
    let mut out = write_map_head(out, map.len() as u64);
    let mut i: usize = 0;
    assert(map@.take(0) =~= Seq::<(Seq<u8>, Seq<u8>)>::empty());
    assert(out@ =~= start + item_head(5, map@.len()) + encode_pairs(map@.take(0)));
    while i < map.len()
        invariant
            i <= map@.len(),
            out@ == start + item_head(5, map@.len()) + encode_pairs(map@.take(i as int)),
        decreases map@.len() - i,
    {
        let ghost before = out@;
        let ghost upto = map@.take(i + 1);
        assert(upto.drop_last() =~= map@.take(i as int));
        assert(upto.last() == map@[i as int]);
        out = write_bytes(out, map.key(i).as_slice());
        out = write_bytes(out, map.value(i).as_slice());
        assert(out@ =~= start + item_head(5, map@.len()) + encode_pairs(upto));
        i = i + 1;
    }
    assert(map@.take(map@.len() as int) =~= map@);
    out
}

/// Writes `value` behind `out`.
fn encode_one_value(out: Vec<u8>, value: &Value) -> (r: Vec<u8>)
    ensures
        r@ == out@ + encode_value(value@),
{
    match value {
        Value::Bytes(bytes) => write_bytes(out, bytes.as_slice()),
        Value::Text(text) => write_text(out, text.as_str()),
        Value::Bool(b) => write_bool(out, *b),
        Value::Unsigned(n) => write_unsigned(out, *n),
        Value::Entries(map) => {
            let ghost start = out@;
            let r = encode_entries(out, map);
            assert(r@ =~= start + (item_head(5, map@.len()) + encode_pairs(map@)));
            r
        },
        Value::Null => write_null(out),
        Value::Other => write_null(out),
    }
}

/// The bytes of a list of fields: one map from field number to value, with
/// the fields in the order of the list.
pub fn encode_fields(fields: &Vec<Field>) -> (out: Vec<u8>)
    ensures
        out@ == spec_encode_fields(wire_fields(fields@)),
{
    let ghost all = wire_fields(fields@);
    let mut out = write_map_head(Vec::new(), fields.len() as u64);
    let mut i: usize = 0;
    assert(all.take(0) =~= Seq::<FieldModel>::empty());
    assert(out@ =~= item_head(5, all.len()) + encode_field_list(all.take(0)));
    while i < fields.len()
        invariant
            i <= fields.len(),
            all == wire_fields(fields@),
            out@ == item_head(5, all.len()) + encode_field_list(all.take(i as int)),
        decreases fields.len() - i,
    {
        let ghost upto = all.take(i + 1);
        assert(upto.drop_last() =~= all.take(i as int));
        assert(upto.last() == fields@[i as int]@);
        out = write_unsigned(out, fields[i].number);
        out = encode_one_value(out, &fields[i].value);
        assert(out@ =~= item_head(5, all.len()) + encode_field_list(upto));
        i = i + 1;
    }
    assert(all.take(all.len() as int) =~= all);
    out
}

/// The number of entries left, as a plain value.
pub open spec fn left(remaining: Option<u64>) -> Option<nat> {
    match remaining {
        Some(n) => Some(n as nat),
        None => None,
    }
}

/// Reads the map of byte strings that starts at `pos`.
pub fn decode_entries(input: &[u8], pos: usize) -> (r: Option<(ByteMap, usize)>)
    ensures
        match r {
            Some((map, end)) => entries_at(input@, pos as int) == Some((map@, end as int)) && end
                <= input@.len(),
            None => entries_at(input@, pos as int) is None,
        },
{
    let (len, start) = match read_map_head(input, pos) {
        Ok(head) => head,
        Err(_) => {
            return None;
        },
    };
    let mut map = ByteMap::new();
    let mut remaining = len;
    let mut at = start;
    let ghost mut seen: Seq<(Seq<u8>, Seq<u8>)> = Seq::empty();
    assert(seen + Seq::<(Seq<u8>, Seq<u8>)>::empty() =~= seen);
    loop
        invariant
            map_at(input@, pos as int) == Some((left(len), start as int)),
            at <= input@.len(),
            map@ == put_all(seen),
            pairs_from(input@, start as int, left(len)) == match pairs_from(
                input@,
                at as int,
                left(remaining),
            ) {
                Some((rest, end)) => Some((seen + rest, end)),
                None => None,
            },
        decreases input@.len() - at,
    {
        let done = match remaining {
            Some(n) => n == 0,
            None => at < input.len() && input[at] == 0xff,
        };
        if done {
            let end = match remaining {
                Some(_) => at,
                None => at + 1,
            };
            assert(seen + Seq::<(Seq<u8>, Seq<u8>)>::empty() =~= seen);
            return Some((map, end));
        }
        let (key, after_key) = match read_bytes(input, at) {
            Ok(read) => read,
            Err(_) => {
                return None;
            },
        };
        let (value, next) = match read_bytes(input, after_key) {
            Ok(read) => read,
            Err(_) => {
                return None;
            },
        };
        proof {
            let tail = pairs_from(input@, next as int, one_less(left(remaining)));
            assert(at < next <= input@.len());
            assert(pairs_from(input@, at as int, left(remaining)) == match tail {
                Some((rest, end)) => Some((seq![(key@, value@)] + rest, end)),
                None => None,
            });
            match tail {
                Some((rest, end)) => {
                    assert(seen + (seq![(key@, value@)] + rest) =~= seen.push((key@, value@)) + rest);
                },
                None => {},
            }
            assert(seen.push((key@, value@)).drop_last() =~= seen);
            seen = seen.push((key@, value@));
        }
        map.put(key, value);
        remaining = match remaining {
            Some(n) => Some(n - 1),
            None => None,
        };
        at = next;
    }
}

/// The entries of a map end within the input.
proof fn lemma_pairs_end(input: Seq<u8>, pos: int, remaining: Option<nat>)
    requires
        0 <= pos <= input.len(),
    ensures
        pairs_from(input, pos, remaining) is Some ==> pos <= pairs_from(
            input,
            pos,
            remaining,
        ).unwrap().1 <= input.len(),
    decreases input.len() - pos,
{
    if !at_end(input, pos, remaining) {
        match bytes_at(input, pos) {
            Some((key, after_key)) => match bytes_at(input, after_key) {
                Some((value, next)) => {
                    if pos < next <= input.len() {
                        lemma_pairs_end(input, next, one_less(remaining));
                    }
                },
                None => {},
            },
            None => {},
        }
    }
}

/// A map of byte strings ends behind its start and within the input.
proof fn lemma_entries_end(input: Seq<u8>, pos: int)
    ensures
        entries_at(input, pos) is Some ==> pos < entries_at(input, pos).unwrap().1 <= input.len(),
{
    match map_at(input, pos) {
        Some((len, start)) => {
            lemma_pairs_end(input, start, len);
        },
        None => {},
    }
}

/// Reads the value that starts at `pos`: what it is, and the place after it.
pub fn decode_value(input: &[u8], pos: usize) -> (r: Option<(Value, usize)>)
    ensures
        match r {
            Some((value, end)) => value_at(input@, pos as int) == Some((value@, end as int)) && pos
                < end <= input@.len(),
            None => value_at(input@, pos as int) is None,
        },
{
    if pos >= input.len() {
        return None;
    }
    let first = input[pos];
    let major = first / 32;
    let info = first % 32;
    if major == 0 {
        match read_unsigned(input, pos) {
            Ok((n, end)) => Some((Value::Unsigned(n), end)),
            Err(_) => None,
        }
    } else if first == 0xf4 || first == 0xf5 {
        match read_bool(input, pos) {
            Ok((b, end)) => Some((Value::Bool(b), end)),
            Err(_) => None,
        }
    } else if first == 0xf6 {
        match read_null(input, pos) {
            Ok(end) => Some((Value::Null, end)),
            Err(_) => None,
        }
    } else if major == 2 && info != 31 {
        match read_bytes(input, pos) {
            Ok((bytes, end)) => Some((Value::Bytes(bytes), end)),
            Err(_) => None,
        }
    } else if major == 3 && info != 31 {
        match read_text(input, pos) {
            Ok((text, end)) => Some((Value::Text(text), end)),
            Err(_) => None,
        }
    } else {
        if major == 5 {
            match decode_entries(input, pos) {
                Some((map, end)) => {
                    proof {
                        lemma_entries_end(input@, pos as int);
                    }
                    return Some((Value::Entries(map), end));
                },
                None => {},
            }
        }
        match skip_item(input, pos) {
            Ok(end) => Some((Value::Other, end)),
            Err(_) => None,
        }
    }
}

/// The list of fields that `input` begins with, written as one map from
/// field number to value; an error where it begins with no such map.
pub fn decode_fields(input: &[u8]) -> (r: Result<Vec<Field>, DecodeError>)
    ensures
        match spec_decode_fields(input@) {
            Some(fields) => r is Ok && wire_fields(r.unwrap()@) == fields,
            None => r == Err::<Vec<Field>, DecodeError>(DecodeError::Malformed),
        },
{
    let (len, start) = match read_map_head(input, 0) {
        Ok(head) => head,
        Err(_) => {
            return Err(DecodeError::Malformed);
        },
    };
    let mut fields: Vec<Field> = Vec::new();
    let mut remaining = len;
    let mut at = start;
    assert(wire_fields(fields@) =~= Seq::<FieldModel>::empty());
    loop
        invariant
            map_at(input@, 0) == Some((left(len), start as int)),
            at <= input@.len(),
            fields_from(input@, start as int, left(len)) == match fields_from(
                input@,
                at as int,
                left(remaining),
            ) {
                Some((rest, end)) => Some((wire_fields(fields@) + rest, end)),
                None => None,
            },
        decreases input@.len() - at,
    {
        let done = match remaining {
            Some(n) => n == 0,
            None => at < input.len() && input[at] == 0xff,
        };
        if done {
            assert(wire_fields(fields@) + Seq::<FieldModel>::empty() =~= wire_fields(fields@));
            return Ok(fields);
        }
        let (number, after_number) = match read_unsigned(input, at) {
            Ok(read) => read,
            Err(_) => {
                return Err(DecodeError::Malformed);
            },
        };
        let (value, next) = match decode_value(input, after_number) {
            Some(read) => read,
            None => {
                return Err(DecodeError::Malformed);
            },
        };
        proof {
            let seen = wire_fields(fields@);
            let one = FieldModel { number, value: value@ };
            let tail = fields_from(input@, next as int, one_less(left(remaining)));
            assert(fields_from(input@, at as int, left(remaining)) == match tail {
                Some((rest, end)) => Some((seq![one] + rest, end)),
                None => None,
            });
            match tail {
                Some((rest, end)) => {
                    assert(seen + (seq![one] + rest) =~= seen.push(one) + rest);
                },
                None => {},
            }
        }
        let ghost before = wire_fields(fields@);
        fields.push(Field { number, value });
        assert(wire_fields(fields@) =~= before.push(FieldModel { number, value: value@ }));
        remaining = match remaining {
            Some(n) => Some(n - 1),
            None => None,
        };
        at = next;
    }
}

/// Why bytes are not the model asked for.
#[derive(Clone, Copy, Debug, PartialEq, Eq, Structural)]
pub enum CodecError {
    /// The bytes do not begin with a map from field number to value.
    Malformed,
    /// The map has no field of this number, and the model needs one.
    Missing { number: u64 },
    /// The field of this number holds a value of another kind than the model's.
    WrongType { number: u64 },
}

/// The error of the codec that stands for a shortcoming of the fields.
pub open spec fn shape_error(e: WireError) -> CodecError {
    match e {
        WireError::Missing { number } => CodecError::Missing { number },
        WireError::WrongType { number } => CodecError::WrongType { number },
    }
}

/// The error of the codec that stands for a shortcoming of the fields.
pub fn codec_error(e: WireError) -> (r: CodecError)
    ensures
        r == shape_error(e),
{
    match e {
        WireError::Missing { number } => CodecError::Missing { number },
        WireError::WrongType { number } => CodecError::WrongType { number },
    }
}

} // verus!
