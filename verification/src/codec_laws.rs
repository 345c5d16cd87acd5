//! What is written is read back: a list of fields, turned into bytes and
//! read again, is the same list.

use vstd::prelude::*;
use vstd::utf8::{encode_utf8, encode_utf8_decode_utf8, encode_utf8_valid_utf8};
use crate::byte_map::{distinct_keys, lemma_place_of, place_of};
use crate::cbor::{
    bool_at,
    bytes_at,
    info_at,
    item_head,
    lemma_bytes_at_encoding,
    lemma_head_round_trip,
    lemma_payload_round_trip,
    major_at,
    map_at,
    null_at,
    pow256,
    spec_encode_bytes,
    spec_encode_text,
    text_at,
    unsigned_at,
};
use crate::codec::{
    encode_field_list,
    encode_pairs,
    encode_value,
    entries_at,
    fields_from,
    pairs_from,
    put_all,
    spec_decode_fields,
    spec_encode_fields,
    value_at,
};
use crate::wire::{FieldModel, FieldValue};

verus! {

/// The bytes of one entry of a map of byte strings.
pub open spec fn encode_pair(pair: (Seq<u8>, Seq<u8>)) -> Seq<u8> {
    spec_encode_bytes(pair.0) + spec_encode_bytes(pair.1)
}

/// The bytes of one field.
pub open spec fn encode_field(field: FieldModel) -> Seq<u8> {
    item_head(0, field.number as nat) + encode_value(field.value)
}

/// Every key and every value of the pairs is of a length that a head can carry.
pub open spec fn pairs_fit(pairs: Seq<(Seq<u8>, Seq<u8>)>) -> bool {
    forall|i: int|
        0 <= i < pairs.len() ==> (#[trigger] pairs[i]).0.len() < pow256(8) && pairs[i].1.len()
            < pow256(8)
}

/// The value is one that is read back as it was written: its lengths are
/// such as a head can carry, the keys of a map are all different, and it is
/// of a kind that the models read.
pub open spec fn value_fits(value: FieldValue) -> bool {
    match value {
        FieldValue::Bytes(bytes) => bytes.len() < pow256(8),
        FieldValue::Text(text) => encode_utf8(text).len() < pow256(8),
        FieldValue::Bool(_) => true,
        FieldValue::Unsigned(_) => true,
        FieldValue::Entries(pairs) => pairs.len() < pow256(8) && pairs_fit(pairs) && distinct_keys(
            pairs,
        ),
        FieldValue::Null => true,
        FieldValue::Other => false,
    }
}

/// Every field of the list holds a value that is read back as it was written.
pub open spec fn fields_fit(fields: Seq<FieldModel>) -> bool {
    fields.len() < pow256(8) && forall|i: int|
        0 <= i < fields.len() ==> value_fits((#[trigger] fields[i]).value)
}

/// The bytes of a list of pairs begin with those of its first pair.
pub proof fn lemma_encode_pairs_front(first: (Seq<u8>, Seq<u8>), tail: Seq<(Seq<u8>, Seq<u8>)>)
    ensures
        encode_pairs(seq![first] + tail) == encode_pair(first) + encode_pairs(tail),
    decreases tail.len(),
{
    let all = seq![first] + tail;
    if tail.len() == 0 {
        assert(all.drop_last() =~= Seq::<(Seq<u8>, Seq<u8>)>::empty());
        assert(all.last() == first);
        assert(encode_pairs(all.drop_last()) =~= Seq::<u8>::empty());
        assert(encode_pairs(tail) =~= Seq::<u8>::empty());
        assert(encode_pairs(all) =~= encode_pairs(all.drop_last()) + encode_pair(first));
        assert(encode_pairs(all) =~= encode_pair(first) + encode_pairs(tail));
    } else {
        lemma_encode_pairs_front(first, tail.drop_last());
        assert(all.drop_last() =~= seq![first] + tail.drop_last());
        assert(all.last() == tail.last());
        let init = encode_pairs(tail.drop_last());
        let last = encode_pair(tail.last());
        assert(encode_pairs(all.drop_last()) == encode_pair(first) + init);
        assert(encode_pairs(tail) =~= init + last);
        assert(encode_pairs(all) =~= encode_pairs(all.drop_last()) + last);
        assert(encode_pairs(all) =~= encode_pair(first) + encode_pairs(tail));
    }
}

/// The bytes of a list of fields begin with those of its first field.
pub proof fn lemma_encode_fields_front(first: FieldModel, tail: Seq<FieldModel>)
    ensures
        encode_field_list(seq![first] + tail) == encode_field(first) + encode_field_list(tail),
    decreases tail.len(),
{
    let all = seq![first] + tail;
    if tail.len() == 0 {
        assert(all.drop_last() =~= Seq::<FieldModel>::empty());
        assert(all.last() == first);
        assert(encode_field_list(all.drop_last()) =~= Seq::<u8>::empty());
        assert(encode_field_list(tail) =~= Seq::<u8>::empty());
        assert(encode_field_list(all) =~= encode_field_list(all.drop_last()) + encode_field(first));
        assert(encode_field_list(all) =~= encode_field(first) + encode_field_list(tail));
    } else {
        lemma_encode_fields_front(first, tail.drop_last());
        assert(all.drop_last() =~= seq![first] + tail.drop_last());
        assert(all.last() == tail.last());
        let init = encode_field_list(tail.drop_last());
        let last = encode_field(tail.last());
        assert(encode_field_list(all.drop_last()) == encode_field(first) + init);
        assert(encode_field_list(tail) =~= init + last);
        assert(encode_field_list(all) =~= encode_field_list(all.drop_last()) + last);
        assert(encode_field_list(all) =~= encode_field(first) + encode_field_list(tail));
    }
}

/// Pairs with different keys make the map that lists them in their order.
pub proof fn lemma_put_all_of_distinct(pairs: Seq<(Seq<u8>, Seq<u8>)>)
    requires
        distinct_keys(pairs),
    ensures
        put_all(pairs) == pairs,
    decreases pairs.len(),
{
    if pairs.len() > 0 {
        let init = pairs.drop_last();
        assert(distinct_keys(init)) by {
            assert forall|i: int, j: int| 0 <= i < j < init.len() implies (#[trigger] init[i]).0 != (
            #[trigger] init[j]).0 by {
                assert(pairs[i].0 != pairs[j].0);
            }
        }
        lemma_put_all_of_distinct(init);
        lemma_place_of(init, pairs.last().0);
        if place_of(init, pairs.last().0) is Some {
            let i = place_of(init, pairs.last().0).unwrap();
            assert(pairs[i].0 != pairs[pairs.len() - 1].0);
        }
        assert(init.push(pairs.last()) =~= pairs);
    }
}

/// One entry of a map of byte strings is read back from its bytes: first
/// the key, then the value.
#[verifier::rlimit(50)]
proof fn lemma_pair_round_trip(pair: (Seq<u8>, Seq<u8>), before: Seq<u8>, rest: Seq<u8>)
    requires
        pair.0.len() < pow256(8),
        pair.1.len() < pow256(8),
    ensures
        bytes_at(before + encode_pair(pair) + rest, before.len() as int) == Some(
            (pair.0, (before.len() + spec_encode_bytes(pair.0).len()) as int),
        ),
        bytes_at(
            before + encode_pair(pair) + rest,
            (before.len() + spec_encode_bytes(pair.0).len()) as int,
        ) == Some((pair.1, (before.len() + encode_pair(pair).len()) as int)),
        encode_pair(pair).len() >= 2,
        (before + encode_pair(pair) + rest).len() == before.len() + encode_pair(pair).len()
            + rest.len(),
{
    let input = before + encode_pair(pair) + rest;
    let key = spec_encode_bytes(pair.0);
    let value = spec_encode_bytes(pair.1);
    assert(input =~= before + key + (value + rest));
    lemma_payload_round_trip(2, pair.0, before, value + rest);
    assert(input =~= (before + key) + value + rest);
    lemma_payload_round_trip(2, pair.1, before + key, rest);
}

/// The entries of a map of byte strings are read back from their bytes,
/// whatever stands before and behind them.
#[verifier::rlimit(50)]
pub proof fn lemma_pairs_round_trip(
    pairs: Seq<(Seq<u8>, Seq<u8>)>,
    before: Seq<u8>,
    rest: Seq<u8>,
)
    requires
        pairs_fit(pairs),
    ensures
        pairs_from(before + encode_pairs(pairs) + rest, before.len() as int, Some(pairs.len()))
            == Some((pairs, (before.len() + encode_pairs(pairs).len()) as int)),
    decreases pairs.len(),
{
    let input = before + encode_pairs(pairs) + rest;
    let pos = before.len() as int;
    if pairs.len() == 0 {
        assert(encode_pairs(pairs) =~= Seq::<u8>::empty());
    } else {
        let first = pairs[0];
        let tail = pairs.drop_first();
        assert(seq![first] + tail =~= pairs);
        lemma_encode_pairs_front(first, tail);
        let one = encode_pair(first);
        let behind = encode_pairs(tail) + rest;
        assert(input =~= before + one + behind);
        lemma_pair_round_trip(first, before, behind);
        let after_key = pos + spec_encode_bytes(first.0).len();
        let next = pos + one.len();
        assert(pairs_fit(tail)) by {
            assert forall|i: int| 0 <= i < tail.len() implies (#[trigger] tail[i]).0.len() < pow256(8)
                && tail[i].1.len() < pow256(8) by {
                assert(tail[i] == pairs[i + 1]);
            }
        }
        assert(input =~= (before + one) + encode_pairs(tail) + rest);
        lemma_pairs_round_trip(tail, before + one, rest);
        assert(pairs_from(input, next, Some(tail.len())) == Some(
            (tail, (next + encode_pairs(tail).len()) as int),
        ));
    }
}

/// Every number of 64 bits is below 256 to the power 8.
pub proof fn lemma_u64_fits(n: u64)
    ensures
        (n as nat) < pow256(8),
        pow256(8) == 0x1_0000_0000_0000_0000,
{
    reveal_with_fuel(pow256, 9);
}

/// A byte string is read back as a value from its bytes.
proof fn lemma_bytes_value(bytes: Seq<u8>, before: Seq<u8>, rest: Seq<u8>)
    requires
        bytes.len() < pow256(8),
    ensures
        value_at(before + spec_encode_bytes(bytes) + rest, before.len() as int) == Some(
            (FieldValue::Bytes(bytes), (before.len() + spec_encode_bytes(bytes).len()) as int),
        ),
        spec_encode_bytes(bytes).len() >= 1,
{
    lemma_payload_round_trip(2, bytes, before, rest);
}

/// A text is read back as a value from its bytes.
proof fn lemma_text_value(text: Seq<char>, before: Seq<u8>, rest: Seq<u8>)
    requires
        encode_utf8(text).len() < pow256(8),
    ensures
        value_at(before + spec_encode_text(text) + rest, before.len() as int) == Some(
            (FieldValue::Text(text), (before.len() + spec_encode_text(text).len()) as int),
        ),
        spec_encode_text(text).len() >= 1,
{
    encode_utf8_valid_utf8(text);
    encode_utf8_decode_utf8(text);
    lemma_payload_round_trip(3, encode_utf8(text), before, rest);
}

/// An unsigned number is read back as a value from its bytes.
proof fn lemma_unsigned_value(n: u64, before: Seq<u8>, rest: Seq<u8>)
    ensures
        value_at(before + item_head(0, n as nat) + rest, before.len() as int) == Some(
            (FieldValue::Unsigned(n), (before.len() + item_head(0, n as nat).len()) as int),
        ),
        item_head(0, n as nat).len() >= 1,
{
    lemma_u64_fits(n);
    lemma_head_round_trip(0, n as nat, before, rest);
}

/// A truth value and the null value are read back from their one byte.
proof fn lemma_simple_value(value: FieldValue, before: Seq<u8>, rest: Seq<u8>)
    requires
        value is Bool || value is Null,
    ensures
        value_at(before + encode_value(value) + rest, before.len() as int) == Some(
            (value, (before.len() + encode_value(value).len()) as int),
        ),
        encode_value(value).len() == 1,
{
    let input = before + encode_value(value) + rest;
    let pos = before.len() as int;
    assert(input[pos] == encode_value(value)[0]);
}

/// A map of byte strings with different keys is read back as a value from its bytes.
#[verifier::rlimit(50)]
proof fn lemma_entries_value(pairs: Seq<(Seq<u8>, Seq<u8>)>, before: Seq<u8>, rest: Seq<u8>)
    requires
        pairs.len() < pow256(8),
        pairs_fit(pairs),
        distinct_keys(pairs),
    ensures
        value_at(
            before + (item_head(5, pairs.len()) + encode_pairs(pairs)) + rest,
            before.len() as int,
        ) == Some(
            (
                FieldValue::Entries(pairs),
                (before.len() + item_head(5, pairs.len()).len() + encode_pairs(pairs).len()) as int,
            ),
        ),
        item_head(5, pairs.len()).len() >= 1,
{
    let head = item_head(5, pairs.len());
    let input = before + (head + encode_pairs(pairs)) + rest;
    let pos = before.len() as int;
    assert(input =~= before + head + (encode_pairs(pairs) + rest));
    lemma_head_round_trip(5, pairs.len(), before, encode_pairs(pairs) + rest);
    assert(input =~= (before + head) + encode_pairs(pairs) + rest);
    lemma_pairs_round_trip(pairs, before + head, rest);
    lemma_put_all_of_distinct(pairs);
    let start = pos + head.len();
    assert(map_at(input, pos) == Some((Some(pairs.len()), start)));
    assert(entries_at(input, pos) == Some((pairs, (start + encode_pairs(pairs).len()) as int)));
    assert(input[pos] == head[0]);
}

/// A value is read back from its bytes, whatever stands before and behind it.
pub proof fn lemma_value_round_trip(value: FieldValue, before: Seq<u8>, rest: Seq<u8>)
    requires
        value_fits(value),
    ensures
        value_at(before + encode_value(value) + rest, before.len() as int) == Some(
            (value, (before.len() + encode_value(value).len()) as int),
        ),
        encode_value(value).len() >= 1,
{
    match value {
        FieldValue::Bytes(bytes) => {
            lemma_bytes_value(bytes, before, rest);
        },
        FieldValue::Text(text) => {
            lemma_text_value(text, before, rest);
        },
        FieldValue::Bool(b) => {
            lemma_simple_value(value, before, rest);
        },
        FieldValue::Unsigned(n) => {
            lemma_unsigned_value(n, before, rest);
        },
        FieldValue::Null => {
            lemma_simple_value(value, before, rest);
        },
        FieldValue::Entries(pairs) => {
            lemma_entries_value(pairs, before, rest);
        },
        FieldValue::Other => {},
    }
}

/// One field is read back from its bytes: first its number, then its value.
#[verifier::rlimit(50)]
proof fn lemma_field_round_trip(field: FieldModel, before: Seq<u8>, rest: Seq<u8>)
    requires
        value_fits(field.value),
    ensures
        unsigned_at(before + encode_field(field) + rest, before.len() as int) == Some(
            (field.number as nat, (before.len() + item_head(0, field.number as nat).len()) as int),
        ),
        value_at(
            before + encode_field(field) + rest,
            (before.len() + item_head(0, field.number as nat).len()) as int,
        ) == Some((field.value, (before.len() + encode_field(field).len()) as int)),
        encode_field(field).len() >= 2,
        (before + encode_field(field) + rest).len() == before.len() + encode_field(field).len()
            + rest.len(),
{
    let input = before + encode_field(field) + rest;
    let number = item_head(0, field.number as nat);
    let value = encode_value(field.value);
    assert(input =~= before + number + (value + rest));
    lemma_u64_fits(field.number);
    lemma_head_round_trip(0, field.number as nat, before, value + rest);
    assert(input =~= (before + number) + value + rest);
    lemma_value_round_trip(field.value, before + number, rest);
}

/// The fields of a map are read back from their bytes, whatever stands
/// before and behind them.
#[verifier::rlimit(50)]
pub proof fn lemma_field_list_round_trip(fields: Seq<FieldModel>, before: Seq<u8>, rest: Seq<u8>)
    requires
        forall|i: int| 0 <= i < fields.len() ==> value_fits((#[trigger] fields[i]).value),
    ensures
        fields_from(
            before + encode_field_list(fields) + rest,
            before.len() as int,
            Some(fields.len()),
        ) == Some((fields, (before.len() + encode_field_list(fields).len()) as int)),
    decreases fields.len(),
{
    let input = before + encode_field_list(fields) + rest;
    let pos = before.len() as int;
    if fields.len() == 0 {
        assert(encode_field_list(fields) =~= Seq::<u8>::empty());
    } else {
        let first = fields[0];
        let tail = fields.drop_first();
        assert(seq![first] + tail =~= fields);
        lemma_encode_fields_front(first, tail);
        let one = encode_field(first);
        let behind = encode_field_list(tail) + rest;
        assert(input =~= before + one + behind);
        lemma_field_round_trip(first, before, behind);
        let next = pos + one.len();
        assert forall|i: int| 0 <= i < tail.len() implies value_fits((#[trigger] tail[i]).value) by {
            assert(tail[i] == fields[i + 1]);
        }
        assert(input =~= (before + one) + encode_field_list(tail) + rest);
        lemma_field_list_round_trip(tail, before + one, rest);
        assert(fields_from(input, next, Some(tail.len())) == Some(
            (tail, (next + encode_field_list(tail).len()) as int),
        ));
        assert(FieldModel { number: (first.number as nat) as u64, value: first.value } == first);
    }
}

/// A list of fields is read back from its own bytes, whatever follows them:
/// every field with its number and its value, in the order of the list.
pub proof fn lemma_fields_round_trip(fields: Seq<FieldModel>, rest: Seq<u8>)
    requires
        fields_fit(fields),
    ensures
        spec_decode_fields(spec_encode_fields(fields) + rest) == Some(fields),
{
    let head = item_head(5, fields.len());
    let input = spec_encode_fields(fields) + rest;
    let empty = Seq::<u8>::empty();
    assert(input =~= empty + head + (encode_field_list(fields) + rest));
    lemma_head_round_trip(5, fields.len(), empty, encode_field_list(fields) + rest);
    assert(input =~= (empty + head) + encode_field_list(fields) + rest);
    lemma_field_list_round_trip(fields, empty + head, rest);
    assert(map_at(input, 0) == Some((Some(fields.len()), head.len() as int)));
}

} // verus!
