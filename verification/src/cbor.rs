//! CBOR items as bytes: the head that carries a number, the items that the
//! models here are made of, and the calls that write and read them.

use vstd::prelude::*;
use vstd::utf8::{decode_utf8, encode_utf8, valid_utf8};

verus! {

/// The number that `bytes` spell in big-endian order.
pub open spec fn be_value(bytes: Seq<u8>) -> nat
    decreases bytes.len(),
{
    if bytes.len() == 0 {
        0
    } else {
        be_value(bytes.drop_last()) * 256 + bytes.last() as nat
    }
}

/// The `width` low bytes of `n` in big-endian order.
pub open spec fn be_bytes(n: nat, width: nat) -> Seq<u8>
    decreases width,
{
    if width == 0 {
        Seq::empty()
    } else {
        be_bytes(n / 256, (width - 1) as nat).push((n % 256) as u8)
    }
}

/// The head of an item of the major type `major` that carries the number
/// `n`, in the shortest form that holds `n`: the major type in the three
/// high bits of the first byte, and in its five low bits either `n` itself
/// or the code for the width of the bytes that follow and spell `n`.
pub open spec fn item_head(major: nat, n: nat) -> Seq<u8> {
    if n <= 0x17 {
        seq![(major * 32 + n) as u8]
    } else if n <= 0xff {
        seq![(major * 32 + 24) as u8, n as u8]
    } else if n <= 0xffff {
        seq![(major * 32 + 25) as u8] + be_bytes(n, 2)
    } else if n <= 0xffff_ffff {
        seq![(major * 32 + 26) as u8] + be_bytes(n, 4)
    } else {
        seq![(major * 32 + 27) as u8] + be_bytes(n, 8)
    }
}

/// The encoding of `data` as one byte string of definite length.
pub open spec fn spec_encode_bytes(data: Seq<u8>) -> Seq<u8> {
    item_head(2, data.len()) + data
}

/// The encoding of `text` as one text string of definite length.
pub open spec fn spec_encode_text(text: Seq<char>) -> Seq<u8> {
    item_head(3, encode_utf8(text).len()) + encode_utf8(text)
}

/// The encoding of a truth value.
pub open spec fn spec_encode_bool(b: bool) -> Seq<u8> {
    if b {
        seq![0xf5u8]
    } else {
        seq![0xf4u8]
    }
}

/// The encoding of the null value.
pub open spec fn spec_encode_null() -> Seq<u8> {
    seq![0xf6u8]
}

/// The major type of the item that starts at `pos`.
pub open spec fn major_at(input: Seq<u8>, pos: int) -> nat {
    (input[pos] / 32) as nat
}

/// The five low bits of the first byte of the item that starts at `pos`.
pub open spec fn info_at(input: Seq<u8>, pos: int) -> nat {
    (input[pos] % 32) as nat
}

/// The number that the head at `pos` carries, and the place after the head.
/// The number may be spelt in any width the format allows, not only the
/// shortest; there is no number where the head breaks off or its five low
/// bits are above 27.
pub open spec fn head_value(input: Seq<u8>, pos: int) -> Option<(nat, int)> {
    if !(0 <= pos < input.len()) {
        None
    } else if info_at(input, pos) <= 0x17 {
        Some((info_at(input, pos), pos + 1))
    } else if info_at(input, pos) == 0x18 {
        if pos + 2 <= input.len() {
            Some((input[pos + 1] as nat, pos + 2))
        } else {
            None
        }
    } else if info_at(input, pos) == 0x19 {
        if pos + 3 <= input.len() {
            Some((be_value(input.subrange(pos + 1, pos + 3)), pos + 3))
        } else {
            None
        }
    } else if info_at(input, pos) == 0x1a {
        if pos + 5 <= input.len() {
            Some((be_value(input.subrange(pos + 1, pos + 5)), pos + 5))
        } else {
            None
        }
    } else if info_at(input, pos) == 0x1b {
        if pos + 9 <= input.len() {
            Some((be_value(input.subrange(pos + 1, pos + 9)), pos + 9))
        } else {
            None
        }
    } else {
        None
    }
}

/// The unsigned number that starts at `pos`, and the place after it.
pub open spec fn unsigned_at(input: Seq<u8>, pos: int) -> Option<(nat, int)> {
    if 0 <= pos < input.len() && major_at(input, pos) == 0 {
        head_value(input, pos)
    } else {
        None
    }
}

/// The `n` bytes that follow the head of the item at `pos`, and the place
/// after them, where the item has the major type `major` and a definite length.
pub open spec fn payload_at(input: Seq<u8>, pos: int, major: nat) -> Option<(Seq<u8>, int)> {
    if 0 <= pos < input.len() && major_at(input, pos) == major {
        match head_value(input, pos) {
            Some((n, start)) => if start + n <= input.len() {
                Some((input.subrange(start, start + n), start + n))
            } else {
                None
            },
            None => None,
        }
    } else {
        None
    }
}

/// The byte string of definite length that starts at `pos`, and the place after it.
pub open spec fn bytes_at(input: Seq<u8>, pos: int) -> Option<(Seq<u8>, int)> {
    payload_at(input, pos, 2)
}

/// The text string of definite length that starts at `pos`, and the place
/// after it. Bytes that are not valid UTF-8 are no text.
pub open spec fn text_at(input: Seq<u8>, pos: int) -> Option<(Seq<char>, int)> {
    match payload_at(input, pos, 3) {
        Some((bytes, end)) => if valid_utf8(bytes) {
            Some((decode_utf8(bytes), end))
        } else {
            None
        },
        None => None,
    }
}

/// The truth value at `pos`, and the place after it.
pub open spec fn bool_at(input: Seq<u8>, pos: int) -> Option<(bool, int)> {
    if 0 <= pos < input.len() && input[pos] == 0xf4 {
        Some((false, pos + 1))
    } else if 0 <= pos < input.len() && input[pos] == 0xf5 {
        Some((true, pos + 1))
    } else {
        None
    }
}

/// The null value stands at `pos`; the place after it.
pub open spec fn null_at(input: Seq<u8>, pos: int) -> Option<int> {
    if 0 <= pos < input.len() && input[pos] == 0xf6 {
        Some(pos + 1)
    } else {
        None
    }
}

/// The head of the map that starts at `pos`: the number of its entries, or
/// nothing where the map goes on until a break, and the place after the head.
pub open spec fn map_at(input: Seq<u8>, pos: int) -> Option<(Option<nat>, int)> {
    if 0 <= pos < input.len() && major_at(input, pos) == 5 {
        if info_at(input, pos) == 31 {
            Some((None, pos + 1))
        } else {
            match head_value(input, pos) {
                Some((n, end)) => Some((Some(n), end)),
                None => None,
            }
        }
    } else {
        None
    }
}

/// The place after the item that starts at `pos`, whatever kind of item it
/// is and whatever it holds within, if a whole item starts there.
pub uninterp spec fn skipped_to(input: Seq<u8>, pos: int) -> Option<int>;

/// The byte string of definite length that `input` begins with, if it begins
/// with one. What follows the string is ignored.
pub open spec fn leading_bytes(input: Seq<u8>) -> Option<Seq<u8>> {
    match bytes_at(input, 0) {
        Some((bytes, _)) => Some(bytes),
        None => None,
    }
}

/// The input does not hold what was to be read from it.
#[derive(Clone, Copy, Debug, PartialEq, Eq, Structural)]
pub enum DecodeError {
    /// The bytes are cut short, or are not of the kind that was expected.
    Malformed,
}

#[verifier::external_type_specification]
#[verifier::external_body]
pub struct ExCborDecodeError(minicbor::decode::Error);

/// Calls `minicbor::Encoder::u64` on a writer that holds `out`: the bytes
/// written are the shortest head of major type 0 that carries `n`.
#[verifier::external_body]
pub(crate) fn write_unsigned(out: Vec<u8>, n: u64) -> (r: Vec<u8>)
    ensures
        r@ == out@ + item_head(0, n as nat),
{
    let mut e = minicbor::Encoder::new(out);
    let _ = e.u64(n);
    e.into_writer()
}

/// Calls `minicbor::Encoder::bytes` on a writer that holds `out`: the bytes
/// written are the shortest head of major type 2 that carries the length of
/// `data`, then `data`.
#[verifier::external_body]
pub(crate) fn write_bytes(out: Vec<u8>, data: &[u8]) -> (r: Vec<u8>)
    ensures
        r@ == out@ + spec_encode_bytes(data@),
{
    let mut e = minicbor::Encoder::new(out);
    let _ = e.bytes(data);
    e.into_writer()
}

/// Calls `minicbor::Encoder::str` on a writer that holds `out`: the bytes
/// written are the shortest head of major type 3 that carries the number of
/// bytes of the text in UTF-8, then those bytes.
#[verifier::external_body]
pub(crate) fn write_text(out: Vec<u8>, text: &str) -> (r: Vec<u8>)
    ensures
        r@ == out@ + spec_encode_text(text@),
{
    let mut e = minicbor::Encoder::new(out);
    let _ = e.str(text);
    e.into_writer()
}

/// Calls `minicbor::Encoder::bool` on a writer that holds `out`: one byte is
/// written, 0xf5 for true and 0xf4 for false.
#[verifier::external_body]
pub(crate) fn write_bool(out: Vec<u8>, b: bool) -> (r: Vec<u8>)
    ensures
        r@ == out@ + spec_encode_bool(b),
{
    let mut e = minicbor::Encoder::new(out);
    let _ = e.bool(b);
    e.into_writer()
}

/// Calls `minicbor::Encoder::null` on a writer that holds `out`: the one
/// byte 0xf6 is written.
#[verifier::external_body]
pub(crate) fn write_null(out: Vec<u8>) -> (r: Vec<u8>)
    ensures
        r@ == out@ + spec_encode_null(),
{
    let mut e = minicbor::Encoder::new(out);
    let _ = e.null();
    e.into_writer()
}

/// Calls `minicbor::Encoder::map` on a writer that holds `out`: the bytes
/// written are the shortest head of major type 5 that carries `len`, the
/// number of entries that are to follow.
#[verifier::external_body]
pub(crate) fn write_map_head(out: Vec<u8>, len: u64) -> (r: Vec<u8>)
    ensures
        r@ == out@ + item_head(5, len as nat),
{
    let mut e = minicbor::Encoder::new(out);
    let _ = e.map(len);
    e.into_writer()
}

/// Calls `minicbor::Decoder::u64` at the place `pos` of `input`: it reads a
/// head of major type 0 in any width and gives the number it carries.
#[verifier::external_body]
pub(crate) fn read_unsigned(
    input: &[u8],
    pos: usize,
) -> (r: Result<(u64, usize), minicbor::decode::Error>)
    ensures
        match r {
            Ok((n, end)) => unsigned_at(input@, pos as int) == Some((n as nat, end as int)),
            Err(_) => unsigned_at(input@, pos as int) is None,
        },
{
    let mut d = minicbor::Decoder::new(input);
    d.set_position(pos);
    let n = d.u64()?;
    Ok((n, d.position()))
}

/// Calls `minicbor::Decoder::bytes` at the place `pos` of `input`: it reads
/// one byte string of definite length, whose bytes must all be there.
#[verifier::external_body]
pub(crate) fn read_bytes(
    input: &[u8],
    pos: usize,
) -> (r: Result<(Vec<u8>, usize), minicbor::decode::Error>)
    ensures
        match r {
            Ok((bytes, end)) => bytes_at(input@, pos as int) == Some((bytes@, end as int)),
            Err(_) => bytes_at(input@, pos as int) is None,
        },
{
    let mut d = minicbor::Decoder::new(input);
    d.set_position(pos);
    let bytes = d.bytes()?.to_vec();
    Ok((bytes, d.position()))
}

/// Calls `minicbor::Decoder::str` at the place `pos` of `input`: it reads
/// one text string of definite length, whose bytes must all be there and be
/// valid UTF-8.
#[verifier::external_body]
pub(crate) fn read_text(
    input: &[u8],
    pos: usize,
) -> (r: Result<(String, usize), minicbor::decode::Error>)
    ensures
        match r {
            Ok((text, end)) => text_at(input@, pos as int) == Some((text@, end as int)),
            Err(_) => text_at(input@, pos as int) is None,
        },
{
    let mut d = minicbor::Decoder::new(input);
    d.set_position(pos);
    let text = d.str()?.to_owned();
    Ok((text, d.position()))
}

/// Calls `minicbor::Decoder::bool` at the place `pos` of `input`: it reads
/// the byte 0xf4 as false and 0xf5 as true, and nothing else.
#[verifier::external_body]
pub(crate) fn read_bool(
    input: &[u8],
    pos: usize,
) -> (r: Result<(bool, usize), minicbor::decode::Error>)
    ensures
        match r {
            Ok((b, end)) => bool_at(input@, pos as int) == Some((b, end as int)),
            Err(_) => bool_at(input@, pos as int) is None,
        },
{
    let mut d = minicbor::Decoder::new(input);
    d.set_position(pos);
    let b = d.bool()?;
    Ok((b, d.position()))
}

/// Calls `minicbor::Decoder::null` at the place `pos` of `input`: it reads
/// the byte 0xf6 and nothing else.
#[verifier::external_body]
pub(crate) fn read_null(input: &[u8], pos: usize) -> (r: Result<usize, minicbor::decode::Error>)
    ensures
        match r {
            Ok(end) => null_at(input@, pos as int) == Some(end as int),
            Err(_) => null_at(input@, pos as int) is None,
        },
{
    let mut d = minicbor::Decoder::new(input);
    d.set_position(pos);
    d.null()?;
    Ok(d.position())
}

/// Calls `minicbor::Decoder::map` at the place `pos` of `input`: it reads
/// the head of a map and gives the number of entries, or nothing where the
/// map is of indefinite length.
#[verifier::external_body]
pub(crate) fn read_map_head(
    input: &[u8],
    pos: usize,
) -> (r: Result<(Option<u64>, usize), minicbor::decode::Error>)
    ensures
        match r {
            Ok((len, end)) => map_at(input@, pos as int) == Some(
                (
                    match len {
                        Some(n) => Some(n as nat),
                        None => None,
                    },
                    end as int,
                ),
            ),
            Err(_) => map_at(input@, pos as int) is None,
        },
{
    let mut d = minicbor::Decoder::new(input);
    d.set_position(pos);
    let len = d.map()?;
    Ok((len, d.position()))
}

/// Calls `minicbor::Decoder::skip` at the place `pos` of `input`: it passes
/// over one whole item, with all that is nested in it, and fails where the
/// input holds none. The place it comes to depends on the input and the
/// place alone; it lies behind `pos` and within the input.
#[verifier::external_body]
pub(crate) fn skip_item(input: &[u8], pos: usize) -> (r: Result<usize, minicbor::decode::Error>)
    ensures
        match r {
            Ok(end) => skipped_to(input@, pos as int) == Some(end as int) && pos < end
                <= input@.len(),
            Err(_) => skipped_to(input@, pos as int) is None,
        },
{
    let mut d = minicbor::Decoder::new(input);
    d.set_position(pos);
    d.skip()?;
    Ok(d.position())
}

/// 256 to the power `n`.
pub open spec fn pow256(n: nat) -> nat
    decreases n,
{
    if n == 0 {
        1
    } else {
        256 * pow256((n - 1) as nat)
    }
}

/// A number spelt in `width` bytes takes `width` bytes.
pub proof fn lemma_be_bytes_len(n: nat, width: nat)
    ensures
        be_bytes(n, width).len() == width,
    decreases width,
{
    if width > 0 {
        lemma_be_bytes_len(n / 256, (width - 1) as nat);
    }
}

/// A number that fits in `width` bytes is read back from them.
pub proof fn lemma_be_round_trip(n: nat, width: nat)
    requires
        n < pow256(width),
    ensures
        be_value(be_bytes(n, width)) == n,
    decreases width,
{
    if width > 0 {
        let init = be_bytes(n / 256, (width - 1) as nat);
        lemma_be_round_trip(n / 256, (width - 1) as nat);
        let all = be_bytes(n, width);
        assert(all.drop_last() =~= init);
        assert(all.last() == (n % 256) as u8);
    }
}

/// The head of a number below 2^64 is read back as that number, whatever
/// major type it stands under and whatever stands before and behind it.
pub proof fn lemma_head_round_trip(major: nat, n: nat, before: Seq<u8>, rest: Seq<u8>)
    requires
        major < 8,
        n < pow256(8),
    ensures
        head_value(before + item_head(major, n) + rest, before.len() as int) == Some(
            (n, (before.len() + item_head(major, n).len()) as int),
        ),
        major_at(before + item_head(major, n) + rest, before.len() as int) == major,
        info_at(before + item_head(major, n) + rest, before.len() as int) <= 27,
        (before + item_head(major, n) + rest)[before.len() as int] == item_head(major, n)[0],
        1 <= item_head(major, n).len() <= 9,
        (before + item_head(major, n) + rest).len() == before.len() + item_head(major, n).len()
            + rest.len(),
{
    reveal_with_fuel(pow256, 9);
    let head = item_head(major, n);
    let input = before + head + rest;
    let pos = before.len() as int;
    if n <= 0x17 {
        assert(input[pos] == head[0]);
    } else if n <= 0xff {
        assert(input[pos] == head[0]);
        assert(input[pos + 1] == head[1]);
    } else if n <= 0xffff {
        lemma_be_bytes_len(n, 2);
        lemma_be_round_trip(n, 2);
        assert(input[pos] == head[0]);
        assert(input.subrange(pos + 1, pos + 3) =~= be_bytes(n, 2));
    } else if n <= 0xffff_ffff {
        lemma_be_bytes_len(n, 4);
        lemma_be_round_trip(n, 4);
        assert(input[pos] == head[0]);
        assert(input.subrange(pos + 1, pos + 5) =~= be_bytes(n, 4));
    } else {
        lemma_be_bytes_len(n, 8);
        lemma_be_round_trip(n, 8);
        assert(input[pos] == head[0]);
        assert(input.subrange(pos + 1, pos + 9) =~= be_bytes(n, 8));
    }
}

/// An item of a definite length is read back whole from its head and its
/// bytes, whatever stands before and behind it.
pub proof fn lemma_payload_round_trip(major: nat, data: Seq<u8>, before: Seq<u8>, rest: Seq<u8>)
    requires
        major < 8,
        data.len() < pow256(8),
    ensures
        payload_at(before + (item_head(major, data.len()) + data) + rest, before.len() as int, major)
            == Some((data, (before.len() + item_head(major, data.len()).len() + data.len()) as int)),
        major_at(before + (item_head(major, data.len()) + data) + rest, before.len() as int)
            == major,
        info_at(before + (item_head(major, data.len()) + data) + rest, before.len() as int) <= 27,
        (before + (item_head(major, data.len()) + data) + rest)[before.len() as int] == item_head(
            major,
            data.len(),
        )[0],
        (before + (item_head(major, data.len()) + data) + rest).len() == before.len() + item_head(
            major,
            data.len(),
        ).len() + data.len() + rest.len(),
{
    let head = item_head(major, data.len());
    let input = before + (head + data) + rest;
    let pos = before.len() as int;
    assert(input =~= before + head + (data + rest));
    lemma_head_round_trip(major, data.len(), before, data + rest);
    let start = pos + head.len();
    assert(input.subrange(start, start + data.len()) =~= data);
}

/// A byte string is read back whole from its encoding, whatever stands
/// before and behind it.
pub proof fn lemma_bytes_at_encoding(data: Seq<u8>, before: Seq<u8>, rest: Seq<u8>)
    requires
        data.len() < pow256(8),
    ensures
        bytes_at(before + spec_encode_bytes(data) + rest, before.len() as int) == Some(
            (data, (before.len() + spec_encode_bytes(data).len()) as int),
        ),
{
    lemma_payload_round_trip(2, data, before, rest);
}

/// A key written as a byte string is read back as the same bytes, whatever
/// follows it in the input.
pub proof fn lemma_leading_bytes_of_encoding(data: Seq<u8>, rest: Seq<u8>)
    requires
        data.len() < pow256(8),
    ensures
        leading_bytes(spec_encode_bytes(data) + rest) == Some(data),
{
    lemma_bytes_at_encoding(data, Seq::empty(), rest);
    assert(Seq::<u8>::empty() + spec_encode_bytes(data) + rest =~= spec_encode_bytes(data) + rest);
}

} // verus!
