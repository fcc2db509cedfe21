//! The snapshot byte codec.
//!
//! A snapshot carries the whole store as bytes.  This module defines that
//! byte format — little-endian integers, length-prefixed strings of 32-bit
//! character codes, tagged values, tagged slots — as spec functions, and
//! proves that decoding inverts encoding
//! ([`lemma_store_codec_round_trip`]).  The executable encoder and decoder
//! are verified against the same spec functions, so two stores with equal
//! models encode to identical bytes.

use vstd::bytes::{
    lemma_auto_spec_u32_to_from_le_bytes, lemma_auto_spec_u64_to_from_le_bytes,
    spec_u32_from_le_bytes, spec_u32_to_le_bytes, spec_u64_from_le_bytes, spec_u64_to_le_bytes,
    u32_from_le_bytes, u32_to_le_bytes, u64_from_le_bytes, u64_to_le_bytes,
};
use vstd::prelude::*;
use vstd::slice::slice_subrange;

use crate::tuple::Tuple;
use crate::types::{Types, ValueModel};
use crate::vec_store::{StoreModel, TupleModel, VecStore};

verus! {

/// The value tag bytes of the format.
pub const TAG_BOOLEAN: u8 = 0;

pub const TAG_INTEGER: u8 = 1;

pub const TAG_FLOAT: u8 = 2;

pub const TAG_STRING: u8 = 3;

/// The slot tag bytes of the format.
pub const TAG_TOMBSTONE: u8 = 0;

pub const TAG_OCCUPIED: u8 = 1;

/// Whether a 32-bit code is a Unicode scalar value, so a `char`.
pub open spec fn valid_char_value(x: u32) -> bool {
    x < 0xD800 || (0xE000 <= x && x <= 0x10FFFF)
}

/// Relies on char::from_u32: it returns the character with the given code
/// exactly when the code is a Unicode scalar value, and nothing otherwise.
pub assume_specification[ char::from_u32 ](x: u32) -> (r: Option<char>)
    ensures
        r is Some <==> valid_char_value(x),
        (r matches Some(c) ==> c == (x as char)),
;

/// Relies on String::push: it appends exactly the given character.
#[verifier::external_body]
fn string_push_char(s: &mut String, c: char)
    ensures
        final(s)@ == old(s)@.push(c),
{
    s.push(c);
}

// ---------------------------------------------------------------------------
// The format, as spec functions.
// ---------------------------------------------------------------------------
/// A string's characters, each as its 32-bit code in little-endian order.
pub open spec fn enc_chars(s: Seq<char>) -> Seq<u8>
    decreases s.len(),
{
    if s.len() == 0 {
        Seq::empty()
    } else {
        spec_u32_to_le_bytes(s[0] as u32) + enc_chars(s.drop_first())
    }
}

/// One value: a tag byte, then the payload.
pub open spec fn enc_value(v: ValueModel) -> Seq<u8> {
    match v {
        ValueModel::Boolean(b) => seq![TAG_BOOLEAN, (if b { 1u8 } else { 0u8 })],
        ValueModel::Integer(i) => seq![TAG_INTEGER] + spec_u64_to_le_bytes(i as u64),
        ValueModel::Float(bits) => seq![TAG_FLOAT] + spec_u64_to_le_bytes(bits),
        ValueModel::String(s) => seq![TAG_STRING] + spec_u64_to_le_bytes(s.len() as u64)
            + enc_chars(s),
    }
}

/// A tuple's values in order.
pub open spec fn enc_values(t: Seq<ValueModel>) -> Seq<u8>
    decreases t.len(),
{
    if t.len() == 0 {
        Seq::empty()
    } else {
        enc_value(t[0]) + enc_values(t.drop_first())
    }
}

/// One tuple: its arity, then its values.
pub open spec fn enc_tuple(t: TupleModel) -> Seq<u8> {
    spec_u64_to_le_bytes(t.len() as u64) + enc_values(t)
}

/// One slot: a tombstone marker, or an occupied marker and the tuple.
pub open spec fn enc_slot(slot: Option<TupleModel>) -> Seq<u8> {
    match slot {
        None => seq![TAG_TOMBSTONE],
        Some(t) => seq![TAG_OCCUPIED] + enc_tuple(t),
    }
}

/// The slots in order.
pub open spec fn enc_slots(slots: Seq<Option<TupleModel>>) -> Seq<u8>
    decreases slots.len(),
{
    if slots.len() == 0 {
        Seq::empty()
    } else {
        enc_slot(slots[0]) + enc_slots(slots.drop_first())
    }
}

/// The whole store: slot count, compaction margin, then the slots.
pub open spec fn spec_encode_store(m: StoreModel) -> Seq<u8> {
    spec_u64_to_le_bytes(m.slots.len() as u64) + spec_u32_to_le_bytes(m.compact_margin)
        + enc_slots(m.slots)
}

/// Whether a value's string payload is small enough for its length prefix.
pub open spec fn value_bounded(v: ValueModel) -> bool {
    match v {
        ValueModel::String(s) => s.len() <= u64::MAX,
        _ => true,
    }
}

/// Whether a tuple and all its values fit the format's length prefixes.
pub open spec fn tuple_bounded(t: TupleModel) -> bool {
    &&& t.len() <= u64::MAX
    &&& forall|i: int| 0 <= i < t.len() ==> value_bounded(#[trigger] t[i])
}

/// Whether a store and all its tuples fit the format's length prefixes.
pub open spec fn store_bounded(m: StoreModel) -> bool {
    &&& m.slots.len() <= u64::MAX
    &&& forall|i: int|
        0 <= i < m.slots.len() ==> (#[trigger] m.slots[i] matches Some(t) ==> tuple_bounded(t))
}

// ---------------------------------------------------------------------------
// The decoders, as spec functions.  Each consumes a prefix of the input and
// hands back the rest.
// ---------------------------------------------------------------------------
pub open spec fn dec_u8(s: Seq<u8>) -> Option<(u8, Seq<u8>)> {
    if s.len() >= 1 {
        Some((s[0], s.drop_first()))
    } else {
        None
    }
}

pub open spec fn dec_u32(s: Seq<u8>) -> Option<(u32, Seq<u8>)> {
    if s.len() >= 4 {
        Some((spec_u32_from_le_bytes(s.take(4)), s.skip(4)))
    } else {
        None
    }
}

pub open spec fn dec_u64(s: Seq<u8>) -> Option<(u64, Seq<u8>)> {
    if s.len() >= 8 {
        Some((spec_u64_from_le_bytes(s.take(8)), s.skip(8)))
    } else {
        None
    }
}

pub open spec fn dec_chars(s: Seq<u8>, n: nat) -> Option<(Seq<char>, Seq<u8>)>
    decreases n,
{
    if n == 0 {
        Some((Seq::empty(), s))
    } else {
        match dec_u32(s) {
            None => None,
            Some((x, rest)) => if valid_char_value(x) {
                match dec_chars(rest, (n - 1) as nat) {
                    None => None,
                    Some((cs, tail)) => Some((seq![x as char] + cs, tail)),
                }
            } else {
                None
            },
        }
    }
}

pub open spec fn dec_value(s: Seq<u8>) -> Option<(ValueModel, Seq<u8>)> {
    match dec_u8(s) {
        None => None,
        Some((tag, rest)) => if tag == TAG_BOOLEAN {
            match dec_u8(rest) {
                None => None,
                Some((b, tail)) => Some((ValueModel::Boolean(b == 1), tail)),
            }
        } else if tag == TAG_INTEGER {
            match dec_u64(rest) {
                None => None,
                Some((x, tail)) => Some((ValueModel::Integer(x as i64), tail)),
            }
        } else if tag == TAG_FLOAT {
            match dec_u64(rest) {
                None => None,
                Some((x, tail)) => Some((ValueModel::Float(x), tail)),
            }
        } else if tag == TAG_STRING {
            match dec_u64(rest) {
                None => None,
                Some((n, tail)) => match dec_chars(tail, n as nat) {
                    None => None,
                    Some((cs, tail2)) => Some((ValueModel::String(cs), tail2)),
                },
            }
        } else {
            None
        },
    }
}

pub open spec fn dec_values(s: Seq<u8>, n: nat) -> Option<(Seq<ValueModel>, Seq<u8>)>
    decreases n,
{
    if n == 0 {
        Some((Seq::empty(), s))
    } else {
        match dec_value(s) {
            None => None,
            Some((v, rest)) => match dec_values(rest, (n - 1) as nat) {
                None => None,
                Some((vs, tail)) => Some((seq![v] + vs, tail)),
            },
        }
    }
}

pub open spec fn dec_tuple(s: Seq<u8>) -> Option<(TupleModel, Seq<u8>)> {
    match dec_u64(s) {
        None => None,
        Some((n, rest)) => dec_values(rest, n as nat),
    }
}

pub open spec fn dec_slot(s: Seq<u8>) -> Option<(Option<TupleModel>, Seq<u8>)> {
    match dec_u8(s) {
        None => None,
        Some((tag, rest)) => if tag == TAG_TOMBSTONE {
            Some((None, rest))
        } else if tag == TAG_OCCUPIED {
            match dec_tuple(rest) {
                None => None,
                Some((t, tail)) => Some((Some(t), tail)),
            }
        } else {
            None
        },
    }
}

pub open spec fn dec_slots(s: Seq<u8>, n: nat) -> Option<(Seq<Option<TupleModel>>, Seq<u8>)>
    decreases n,
{
    if n == 0 {
        Some((Seq::empty(), s))
    } else {
        match dec_slot(s) {
            None => None,
            Some((slot, rest)) => match dec_slots(rest, (n - 1) as nat) {
                None => None,
                Some((slots, tail)) => Some((seq![slot] + slots, tail)),
            },
        }
    }
}

/// The whole store; trailing bytes are refused.
pub open spec fn spec_decode_store(s: Seq<u8>) -> Option<StoreModel> {
    match dec_u64(s) {
        None => None,
        Some((n, rest)) => match dec_u32(rest) {
            None => None,
            Some((margin, rest2)) => match dec_slots(rest2, n as nat) {
                None => None,
                Some((slots, tail)) => if tail.len() == 0 {
                    Some(StoreModel { slots, compact_margin: margin })
                } else {
                    None
                },
            },
        },
    }
}

// ---------------------------------------------------------------------------
// Decoding inverts encoding.
// ---------------------------------------------------------------------------
proof fn lemma_dec_u8(b: u8, rest: Seq<u8>)
    ensures
        dec_u8(seq![b] + rest) == Some((b, rest)),
{
    assert((seq![b] + rest).drop_first() =~= rest);
}

proof fn lemma_dec_u32(x: u32, rest: Seq<u8>)
    ensures
        dec_u32(spec_u32_to_le_bytes(x) + rest) == Some((x, rest)),
{
    lemma_auto_spec_u32_to_from_le_bytes();
    let s = spec_u32_to_le_bytes(x) + rest;
    assert(s.take(4) =~= spec_u32_to_le_bytes(x));
    assert(s.skip(4) =~= rest);
}

proof fn lemma_dec_u64(x: u64, rest: Seq<u8>)
    ensures
        dec_u64(spec_u64_to_le_bytes(x) + rest) == Some((x, rest)),
{
    lemma_auto_spec_u64_to_from_le_bytes();
    let s = spec_u64_to_le_bytes(x) + rest;
    assert(s.take(8) =~= spec_u64_to_le_bytes(x));
    assert(s.skip(8) =~= rest);
}

/// Every `char` is a Unicode scalar value, and its code casts back to it.
proof fn lemma_char_code(c: char)
    ensures
        valid_char_value(c as u32),
        ((c as u32) as char) == c,
{
}

proof fn lemma_dec_chars(cs: Seq<char>, rest: Seq<u8>)
    ensures
        dec_chars(enc_chars(cs) + rest, cs.len()) == Some((cs, rest)),
    decreases cs.len(),
{
    if cs.len() == 0 {
        assert(enc_chars(cs) + rest =~= rest);
    } else {
        let c = cs[0];
        lemma_char_code(c);
        let tail_chars = cs.drop_first();
        assert(enc_chars(cs) + rest =~= spec_u32_to_le_bytes(c as u32) + (enc_chars(tail_chars)
            + rest));
        lemma_dec_u32(c as u32, enc_chars(tail_chars) + rest);
        lemma_dec_chars(tail_chars, rest);
        assert(seq![c] + tail_chars =~= cs);
    }
}

proof fn lemma_dec_value(v: ValueModel, rest: Seq<u8>)
    requires
        value_bounded(v),
    ensures
        dec_value(enc_value(v) + rest) == Some((v, rest)),
{
    match v {
        ValueModel::Boolean(b) => {
            let payload = if b {
                1u8
            } else {
                0u8
            };
            assert(enc_value(v) + rest =~= seq![TAG_BOOLEAN] + (seq![payload] + rest));
            lemma_dec_u8(TAG_BOOLEAN, seq![payload] + rest);
            lemma_dec_u8(payload, rest);
        },
        ValueModel::Integer(i) => {
            assert(enc_value(v) + rest =~= seq![TAG_INTEGER] + (spec_u64_to_le_bytes(i as u64)
                + rest));
            lemma_dec_u8(TAG_INTEGER, spec_u64_to_le_bytes(i as u64) + rest);
            lemma_dec_u64(i as u64, rest);
            assert(((i as u64) as i64) == i) by (bit_vector);
        },
        ValueModel::Float(bits) => {
            assert(enc_value(v) + rest =~= seq![TAG_FLOAT] + (spec_u64_to_le_bytes(bits) + rest));
            lemma_dec_u8(TAG_FLOAT, spec_u64_to_le_bytes(bits) + rest);
            lemma_dec_u64(bits, rest);
        },
        ValueModel::String(s) => {
            let len_bytes = spec_u64_to_le_bytes(s.len() as u64);
            assert(enc_value(v) + rest =~= seq![TAG_STRING] + (len_bytes + (enc_chars(s) + rest)));
            lemma_dec_u8(TAG_STRING, len_bytes + (enc_chars(s) + rest));
            lemma_dec_u64(s.len() as u64, enc_chars(s) + rest);
            lemma_dec_chars(s, rest);
            assert((s.len() as u64) as nat == s.len());
        },
    }
}

proof fn lemma_dec_values(t: Seq<ValueModel>, rest: Seq<u8>)
    requires
        forall|i: int| 0 <= i < t.len() ==> value_bounded(#[trigger] t[i]),
    ensures
        dec_values(enc_values(t) + rest, t.len()) == Some((t, rest)),
    decreases t.len(),
{
    if t.len() > 0 {
        let v = t[0];
        let tail_values = t.drop_first();
        assert(enc_values(t) + rest =~= enc_value(v) + (enc_values(tail_values) + rest));
        lemma_dec_value(v, enc_values(tail_values) + rest);
        assert(forall|i: int|
            0 <= i < tail_values.len() ==> value_bounded(#[trigger] tail_values[i]));
        lemma_dec_values(tail_values, rest);
        assert(seq![v] + tail_values =~= t);
    } else {
        assert(enc_values(t) + rest =~= rest);
    }
}

proof fn lemma_dec_tuple(t: TupleModel, rest: Seq<u8>)
    requires
        tuple_bounded(t),
    ensures
        dec_tuple(enc_tuple(t) + rest) == Some((t, rest)),
{
    assert(enc_tuple(t) + rest =~= spec_u64_to_le_bytes(t.len() as u64) + (enc_values(t) + rest));
    lemma_dec_u64(t.len() as u64, enc_values(t) + rest);
    lemma_dec_values(t, rest);
    assert((t.len() as u64) as nat == t.len());
}

proof fn lemma_dec_slot(slot: Option<TupleModel>, rest: Seq<u8>)
    requires
        slot matches Some(t) ==> tuple_bounded(t),
    ensures
        dec_slot(enc_slot(slot) + rest) == Some((slot, rest)),
{
    match slot {
        None => {
            lemma_dec_u8(TAG_TOMBSTONE, rest);
            assert(enc_slot(slot) + rest =~= seq![TAG_TOMBSTONE] + rest);
        },
        Some(t) => {
            assert(enc_slot(slot) + rest =~= seq![TAG_OCCUPIED] + (enc_tuple(t) + rest));
            lemma_dec_u8(TAG_OCCUPIED, enc_tuple(t) + rest);
            lemma_dec_tuple(t, rest);
        },
    }
}

proof fn lemma_dec_slots(slots: Seq<Option<TupleModel>>, rest: Seq<u8>)
    requires
        forall|i: int|
            0 <= i < slots.len() ==> (#[trigger] slots[i] matches Some(t) ==> tuple_bounded(t)),
    ensures
        dec_slots(enc_slots(slots) + rest, slots.len()) == Some((slots, rest)),
    decreases slots.len(),
{
    if slots.len() > 0 {
        let slot = slots[0];
        let tail_slots = slots.drop_first();
        assert(enc_slots(slots) + rest =~= enc_slot(slot) + (enc_slots(tail_slots) + rest));
        lemma_dec_slot(slot, enc_slots(tail_slots) + rest);
        assert(forall|i: int|
            0 <= i < tail_slots.len() ==> (#[trigger] tail_slots[i] matches Some(t)
                ==> tuple_bounded(t)));
        lemma_dec_slots(tail_slots, rest);
        assert(seq![slot] + tail_slots =~= slots);
    } else {
        assert(enc_slots(slots) + rest =~= rest);
    }
}

// ---------------------------------------------------------------------------
// The executable encoder.
// ---------------------------------------------------------------------------
fn push_u8(out: &mut Vec<u8>, x: u8)
    ensures
        final(out)@ == old(out)@ + seq![x],
{
    out.push(x);
    proof {
        assert(out@ =~= old(out)@ + seq![x]);
    }
}

fn push_u32(out: &mut Vec<u8>, x: u32)
    ensures
        final(out)@ == old(out)@ + spec_u32_to_le_bytes(x),
{
    let bytes = u32_to_le_bytes(x);
    let mut i: usize = 0;
    while i < bytes.len()
        invariant
            i <= bytes@.len(),
            bytes@ == spec_u32_to_le_bytes(x),
            out@ == old(out)@ + bytes@.take(i as int),
        decreases bytes@.len() - i,
    {
        out.push(bytes[i]);
        proof {
            assert(bytes@.take(i + 1) =~= bytes@.take(i as int).push(bytes@[i as int]));
            assert(out@ =~= old(out)@ + bytes@.take(i + 1));
        }
        i += 1;
    }
    proof {
        assert(bytes@.take(bytes@.len() as int) =~= bytes@);
    }
}

fn push_u64(out: &mut Vec<u8>, x: u64)
    ensures
        final(out)@ == old(out)@ + spec_u64_to_le_bytes(x),
{
    let bytes = u64_to_le_bytes(x);
    let mut i: usize = 0;
    while i < bytes.len()
        invariant
            i <= bytes@.len(),
            bytes@ == spec_u64_to_le_bytes(x),
            out@ == old(out)@ + bytes@.take(i as int),
        decreases bytes@.len() - i,
    {
        out.push(bytes[i]);
        proof {
            assert(bytes@.take(i + 1) =~= bytes@.take(i as int).push(bytes@[i as int]));
            assert(out@ =~= old(out)@ + bytes@.take(i + 1));
        }
        i += 1;
    }
    proof {
        assert(bytes@.take(bytes@.len() as int) =~= bytes@);
    }
}

/// Appending one character extends the encoding at its end.
proof fn lemma_enc_chars_snoc(s: Seq<char>, c: char)
    ensures
        enc_chars(s.push(c)) == enc_chars(s) + spec_u32_to_le_bytes(c as u32),
    decreases s.len(),
{
    lemma_auto_spec_u32_to_from_le_bytes();
    let pushed = s.push(c);
    if s.len() == 0 {
        assert(pushed.drop_first() =~= Seq::<char>::empty());
        assert(enc_chars(pushed.drop_first()) =~= Seq::<u8>::empty());
        assert(enc_chars(pushed) =~= enc_chars(s) + spec_u32_to_le_bytes(c as u32));
    } else {
        assert(pushed.drop_first() =~= s.drop_first().push(c));
        lemma_enc_chars_snoc(s.drop_first(), c);
        assert(enc_chars(pushed) == spec_u32_to_le_bytes(s[0] as u32) + enc_chars(
            pushed.drop_first(),
        ));
        assert(spec_u32_to_le_bytes(s[0] as u32) + (enc_chars(s.drop_first())
            + spec_u32_to_le_bytes(c as u32)) =~= (spec_u32_to_le_bytes(s[0] as u32) + enc_chars(
            s.drop_first(),
        )) + spec_u32_to_le_bytes(c as u32));
        assert(enc_chars(pushed) =~= enc_chars(s) + spec_u32_to_le_bytes(c as u32));
    }
}

/// Appending one value extends the encoding at its end.
proof fn lemma_enc_values_snoc(t: Seq<ValueModel>, v: ValueModel)
    ensures
        enc_values(t.push(v)) == enc_values(t) + enc_value(v),
    decreases t.len(),
{
    lemma_auto_spec_u32_to_from_le_bytes();
    lemma_auto_spec_u64_to_from_le_bytes();
    let pushed = t.push(v);
    if t.len() == 0 {
        assert(pushed.drop_first() =~= Seq::<ValueModel>::empty());
        assert(enc_values(pushed.drop_first()) =~= Seq::<u8>::empty());
        assert(enc_values(pushed) =~= enc_values(t) + enc_value(v));
    } else {
        assert(pushed.drop_first() =~= t.drop_first().push(v));
        lemma_enc_values_snoc(t.drop_first(), v);
        assert(enc_values(pushed) == enc_value(t[0]) + enc_values(pushed.drop_first()));
        assert(enc_value(t[0]) + (enc_values(t.drop_first()) + enc_value(v)) =~= (enc_value(t[0])
            + enc_values(t.drop_first())) + enc_value(v));
        assert(enc_values(pushed) =~= enc_values(t) + enc_value(v));
    }
}

/// Appending one slot extends the encoding at its end.
proof fn lemma_enc_slots_snoc(slots: Seq<Option<TupleModel>>, slot: Option<TupleModel>)
    ensures
        enc_slots(slots.push(slot)) == enc_slots(slots) + enc_slot(slot),
    decreases slots.len(),
{
    lemma_auto_spec_u32_to_from_le_bytes();
    lemma_auto_spec_u64_to_from_le_bytes();
    let pushed = slots.push(slot);
    if slots.len() == 0 {
        assert(pushed.drop_first() =~= Seq::<Option<TupleModel>>::empty());
        assert(enc_slots(pushed.drop_first()) =~= Seq::<u8>::empty());
        assert(enc_slots(pushed) =~= enc_slots(slots) + enc_slot(slot));
    } else {
        assert(pushed.drop_first() =~= slots.drop_first().push(slot));
        lemma_enc_slots_snoc(slots.drop_first(), slot);
        assert(enc_slots(pushed) == enc_slot(slots[0]) + (enc_slots(slots.drop_first())
            + enc_slot(slot)));
        assert(enc_slot(slots[0]) + (enc_slots(slots.drop_first()) + enc_slot(slot)) =~= (enc_slot(
            slots[0],
        ) + enc_slots(slots.drop_first())) + enc_slot(slot));
    }
}

fn encode_value(out: &mut Vec<u8>, value: &Types)
    ensures
        final(out)@ == old(out)@ + enc_value(value@),
        value_bounded(value@),
{
    match value {
        Types::Boolean(b) => {
            push_u8(out, TAG_BOOLEAN);
            push_u8(
                out,
                if *b {
                    1u8
                } else {
                    0u8
                },
            );
            proof {
                assert(out@ =~= old(out)@ + enc_value(value@));
            }
        },
        Types::Integer(i) => {
            push_u8(out, TAG_INTEGER);
            push_u64(out, *i as u64);
            proof {
                assert(out@ =~= old(out)@ + enc_value(value@));
            }
        },
        Types::Float(bits) => {
            push_u8(out, TAG_FLOAT);
            push_u64(out, *bits);
            proof {
                assert(out@ =~= old(out)@ + enc_value(value@));
            }
        },
        Types::String(s) => {
            push_u8(out, TAG_STRING);
            let char_count = s.as_str().unicode_len();
            push_u64(out, char_count as u64);
            let ghost mid = out@;
            let mut i: usize = 0;
            while i < char_count
                invariant
                    i <= char_count,
                    char_count == s@.len(),
                    out@ == mid + enc_chars(s@.take(i as int)),
                decreases char_count - i,
            {
                let c = s.as_str().get_char(i);
                push_u32(out, c as u32);
                proof {
                    lemma_enc_chars_snoc(s@.take(i as int), c);
                    assert(s@.take(i + 1) =~= s@.take(i as int).push(c));
                    assert(out@ =~= mid + enc_chars(s@.take(i + 1)));
                }
                i += 1;
            }
            proof {
                assert(s@.take(s@.len() as int) =~= s@);
                assert(out@ =~= old(out)@ + enc_value(value@));
            }
        },
    }
}

fn encode_tuple(out: &mut Vec<u8>, tuple: &Tuple)
    ensures
        final(out)@ == old(out)@ + enc_tuple(tuple@),
        tuple_bounded(tuple@),
{
    let arity = tuple.len();
    push_u64(out, arity as u64);
    let ghost mid = out@;
    let mut i: usize = 0;
    while i < arity
        invariant
            i <= arity,
            arity == tuple@.len(),
            out@ == mid + enc_values(tuple@.take(i as int)),
            forall|j: int| 0 <= j < i ==> value_bounded(#[trigger] tuple@[j]),
        decreases arity - i,
    {
        encode_value(out, tuple.get(i));
        proof {
            lemma_enc_values_snoc(tuple@.take(i as int), tuple@[i as int]);
            assert(tuple@.take(i + 1) =~= tuple@.take(i as int).push(tuple@[i as int]));
            assert(out@ =~= mid + enc_values(tuple@.take(i + 1)));
        }
        i += 1;
    }
    proof {
        assert(tuple@.take(tuple@.len() as int) =~= tuple@);
    }
}

fn encode_slot(out: &mut Vec<u8>, slot: &Option<Tuple>)
    ensures
        final(out)@ == old(out)@ + enc_slot(slot.deep_view()),
        (slot.deep_view() matches Some(t) ==> tuple_bounded(t)),
{
    match slot {
        None => {
            push_u8(out, TAG_TOMBSTONE);
            proof {
                assert(out@ =~= old(out)@ + enc_slot(slot.deep_view()));
            }
        },
        Some(tuple) => {
            push_u8(out, TAG_OCCUPIED);
            encode_tuple(out, tuple);
            proof {
                assert(out@ =~= old(out)@ + enc_slot(slot.deep_view()));
            }
        },
    }
}

/// Encodes the whole store into the snapshot byte format.
pub fn encode_store(store: &VecStore) -> (r: Vec<u8>)
    ensures
        r@ == spec_encode_store(store@),
        store_bounded(store@),
{
    let mut out: Vec<u8> = Vec::new();
    let total = store.num_slots();
    push_u64(&mut out, total as u64);
    push_u32(&mut out, store.compact_margin());
    let ghost mid = out@;
    let mut i: usize = 0;
    while i < total
        invariant
            i <= total,
            total == store@.slots.len(),
            out@ == mid + enc_slots(store@.slots.take(i as int)),
            forall|j: int|
                0 <= j < i ==> (#[trigger] store@.slots[j] matches Some(t) ==> tuple_bounded(t)),
        decreases total - i,
    {
        encode_slot(&mut out, store.slot_at(i));
        proof {
            lemma_enc_slots_snoc(store@.slots.take(i as int), store@.slots[i as int]);
            assert(store@.slots.take(i + 1) =~= store@.slots.take(i as int).push(
                store@.slots[i as int],
            ));
            assert(out@ =~= mid + enc_slots(store@.slots.take(i + 1)));
        }
        i += 1;
    }
    proof {
        assert(store@.slots.take(store@.slots.len() as int) =~= store@.slots);
        assert(out@ =~= spec_encode_store(store@));
    }
    out
}

// ---------------------------------------------------------------------------
// The executable decoder.  Each reader consumes bytes from a cursor and is
// verified against the spec decoder on the remaining input.
// ---------------------------------------------------------------------------
fn read_u8(bytes: &Vec<u8>, pos: usize) -> (r: Option<(u8, usize)>)
    requires
        pos <= bytes@.len(),
    ensures
        match r {
            Some((b, end)) => pos <= end <= bytes@.len() && dec_u8(bytes@.skip(pos as int))
                == Some((b, bytes@.skip(end as int))),
            None => dec_u8(bytes@.skip(pos as int)) is None,
        },
{
    if bytes.len() - pos >= 1 {
        proof {
            assert(bytes@.skip(pos as int).drop_first() =~= bytes@.skip(pos + 1));
        }
        Some((bytes[pos], pos + 1))
    } else {
        None
    }
}

fn read_u32(bytes: &Vec<u8>, pos: usize) -> (r: Option<(u32, usize)>)
    requires
        pos <= bytes@.len(),
    ensures
        match r {
            Some((x, end)) => pos <= end <= bytes@.len() && dec_u32(bytes@.skip(pos as int))
                == Some((x, bytes@.skip(end as int))),
            None => dec_u32(bytes@.skip(pos as int)) is None,
        },
{
    if bytes.len() - pos >= 4 {
        let chunk = slice_subrange(bytes.as_slice(), pos, pos + 4);
        let x = u32_from_le_bytes(chunk);
        proof {
            assert(bytes@.skip(pos as int).take(4) =~= bytes@.subrange(pos as int, pos + 4));
            assert(bytes@.skip(pos as int).skip(4) =~= bytes@.skip(pos + 4));
        }
        Some((x, pos + 4))
    } else {
        None
    }
}

fn read_u64(bytes: &Vec<u8>, pos: usize) -> (r: Option<(u64, usize)>)
    requires
        pos <= bytes@.len(),
    ensures
        match r {
            Some((x, end)) => pos <= end <= bytes@.len() && dec_u64(bytes@.skip(pos as int))
                == Some((x, bytes@.skip(end as int))),
            None => dec_u64(bytes@.skip(pos as int)) is None,
        },
{
    if bytes.len() - pos >= 8 {
        let chunk = slice_subrange(bytes.as_slice(), pos, pos + 8);
        let x = u64_from_le_bytes(chunk);
        proof {
            assert(bytes@.skip(pos as int).take(8) =~= bytes@.subrange(pos as int, pos + 8));
            assert(bytes@.skip(pos as int).skip(8) =~= bytes@.skip(pos + 8));
        }
        Some((x, pos + 8))
    } else {
        None
    }
}

fn decode_chars(bytes: &Vec<u8>, pos: usize, n: u64) -> (r: Option<(String, usize)>)
    requires
        pos <= bytes@.len(),
    ensures
        match r {
            Some((s, end)) => pos <= end <= bytes@.len() && dec_chars(
                bytes@.skip(pos as int),
                n as nat,
            ) == Some((s@, bytes@.skip(end as int))),
            None => dec_chars(bytes@.skip(pos as int), n as nat) is None,
        },
{
    let mut acc = String::new();
    let mut cur = pos;
    let mut i: u64 = 0;
    while i < n
        invariant
            i <= n,
            pos <= cur <= bytes@.len(),
            dec_chars(bytes@.skip(pos as int), n as nat) == (match dec_chars(
                bytes@.skip(cur as int),
                (n - i) as nat,
            ) {
                Some((cs, tail)) => Some::<(Seq<char>, Seq<u8>)>((acc@ + cs, tail)),
                None => None::<(Seq<char>, Seq<u8>)>,
            }),
        decreases n - i,
    {
        match read_u32(bytes, cur) {
            None => {
                proof {
                    assert(dec_chars(bytes@.skip(cur as int), (n - i) as nat) is None);
                }
                return None;
            },
            Some((x, next)) => {
                match char::from_u32(x) {
                    None => {
                        proof {
                            assert(dec_chars(bytes@.skip(cur as int), (n - i) as nat) is None);
                        }
                        return None;
                    },
                    Some(c) => {
                        let ghost acc_pre = acc@;
                        string_push_char(&mut acc, c);
                        proof {
                            assert(forall|cs: Seq<char>|
                                acc_pre + (seq![c] + cs) =~= (#[trigger] (acc@ + cs)));
                        }
                        cur = next;
                    },
                }
            },
        }
        i += 1;
    }
    proof {
        assert(acc@ + Seq::<char>::empty() =~= acc@);
    }
    Some((acc, cur))
}

fn decode_value(bytes: &Vec<u8>, pos: usize) -> (r: Option<(Types, usize)>)
    requires
        pos <= bytes@.len(),
    ensures
        match r {
            Some((v, end)) => pos <= end <= bytes@.len() && dec_value(bytes@.skip(pos as int))
                == Some((v@, bytes@.skip(end as int))),
            None => dec_value(bytes@.skip(pos as int)) is None,
        },
{
    match read_u8(bytes, pos) {
        None => None,
        Some((tag, after_tag)) => {
            if tag == TAG_BOOLEAN {
                match read_u8(bytes, after_tag) {
                    None => None,
                    Some((b, end)) => Some((Types::Boolean(b == 1), end)),
                }
            } else if tag == TAG_INTEGER {
                match read_u64(bytes, after_tag) {
                    None => None,
                    Some((x, end)) => Some((Types::Integer(x as i64), end)),
                }
            } else if tag == TAG_FLOAT {
                match read_u64(bytes, after_tag) {
                    None => None,
                    Some((x, end)) => Some((Types::Float(x), end)),
                }
            } else if tag == TAG_STRING {
                match read_u64(bytes, after_tag) {
                    None => None,
                    Some((n, after_len)) => match decode_chars(bytes, after_len, n) {
                        None => None,
                        Some((s, end)) => Some((Types::String(s), end)),
                    },
                }
            } else {
                None
            }
        },
    }
}

fn decode_tuple(bytes: &Vec<u8>, pos: usize) -> (r: Option<(Tuple, usize)>)
    requires
        pos <= bytes@.len(),
    ensures
        match r {
            Some((t, end)) => pos <= end <= bytes@.len() && dec_tuple(bytes@.skip(pos as int))
                == Some((t@, bytes@.skip(end as int))),
            None => dec_tuple(bytes@.skip(pos as int)) is None,
        },
{
    match read_u64(bytes, pos) {
        None => None,
        Some((n, after_len)) => {
            let mut values: Vec<Types> = Vec::new();
            let mut cur = after_len;
            let mut i: u64 = 0;
            while i < n
                invariant
                    i <= n,
                    pos <= after_len <= cur <= bytes@.len(),
                    dec_u64(bytes@.skip(pos as int)) == Some((n, bytes@.skip(after_len as int))),
                    dec_values(bytes@.skip(after_len as int), n as nat) == (match dec_values(
                        bytes@.skip(cur as int),
                        (n - i) as nat,
                    ) {
                        Some((vs, tail)) => Some::<(Seq<ValueModel>, Seq<u8>)>(
                            (values.deep_view() + vs, tail),
                        ),
                        None => None::<(Seq<ValueModel>, Seq<u8>)>,
                    }),
                decreases n - i,
            {
                match decode_value(bytes, cur) {
                    None => {
                        proof {
                            assert(dec_values(bytes@.skip(cur as int), (n - i) as nat) is None);
                        }
                        return None;
                    },
                    Some((v, next)) => {
                        let ghost values_pre = values.deep_view();
                        values.push(v);
                        proof {
                            assert(forall|vs: Seq<ValueModel>|
                                values_pre + (seq![v@] + vs) =~= (#[trigger] (values.deep_view()
                                    + vs)));
                        }
                        cur = next;
                    },
                }
                i += 1;
            }
            proof {
                assert(values.deep_view() + Seq::<ValueModel>::empty() =~= values.deep_view());
            }
            let tuple = Tuple::from_values(values);
            Some((tuple, cur))
        },
    }
}

fn decode_slot(bytes: &Vec<u8>, pos: usize) -> (r: Option<(Option<Tuple>, usize)>)
    requires
        pos <= bytes@.len(),
    ensures
        match r {
            Some((slot, end)) => pos <= end <= bytes@.len() && dec_slot(bytes@.skip(pos as int))
                == Some((slot.deep_view(), bytes@.skip(end as int))),
            None => dec_slot(bytes@.skip(pos as int)) is None,
        },
{
    match read_u8(bytes, pos) {
        None => None,
        Some((tag, after_tag)) => {
            if tag == TAG_TOMBSTONE {
                Some((None, after_tag))
            } else if tag == TAG_OCCUPIED {
                match decode_tuple(bytes, after_tag) {
                    None => None,
                    Some((t, end)) => Some((Some(t), end)),
                }
            } else {
                None
            }
        },
    }
}

/// Decodes a whole store from the snapshot byte format; `None` exactly when
/// the bytes are not a complete, well-formed encoding.
pub fn decode_store(bytes: &Vec<u8>) -> (r: Option<VecStore>)
    ensures
        match r {
            Some(store) => spec_decode_store(bytes@) == Some(store@),
            None => spec_decode_store(bytes@) is None,
        },
{
    proof {
        assert(bytes@.skip(0) =~= bytes@);
    }
    match read_u64(bytes, 0) {
        None => None,
        Some((n, after_count)) => {
            match read_u32(bytes, after_count) {
                None => None,
                Some((margin, after_margin)) => {
                    let mut slots: Vec<Option<Tuple>> = Vec::new();
                    let mut cur = after_margin;
                    let mut i: u64 = 0;
                    while i < n
                        invariant
                            i <= n,
                            after_count <= after_margin <= cur <= bytes@.len(),
                            dec_u64(bytes@) == Some((n, bytes@.skip(after_count as int))),
                            dec_u32(bytes@.skip(after_count as int)) == Some(
                                (margin, bytes@.skip(after_margin as int)),
                            ),
                            dec_slots(bytes@.skip(after_margin as int), n as nat) == (match
                                dec_slots(bytes@.skip(cur as int), (n - i) as nat) {
                                Some((ss, tail)) => Some::<(Seq<Option<TupleModel>>, Seq<u8>)>(
                                    (slots.deep_view() + ss, tail),
                                ),
                                None => None::<(Seq<Option<TupleModel>>, Seq<u8>)>,
                            }),
                        decreases n - i,
                    {
                        match decode_slot(bytes, cur) {
                            None => {
                                proof {
                                    assert(dec_slots(
                                        bytes@.skip(cur as int),
                                        (n - i) as nat,
                                    ) is None);
                                }
                                return None;
                            },
                            Some((slot, next)) => {
                                let ghost slots_pre = slots.deep_view();
                                let ghost slot_model = slot.deep_view();
                                slots.push(slot);
                                proof {
                                    assert(forall|ss: Seq<Option<TupleModel>>|
                                        slots_pre + (seq![slot_model] + ss) =~= (#[trigger] (
                                        slots.deep_view() + ss)));
                                }
                                cur = next;
                            },
                        }
                        i += 1;
                    }
                    proof {
                        assert(slots.deep_view() + Seq::<Option<TupleModel>>::empty()
                            =~= slots.deep_view());
                    }
                    if cur == bytes.len() {
                        proof {
                            assert(bytes@.skip(cur as int).len() == 0);
                        }
                        Some(VecStore::from_parts(slots, margin))
                    } else {
                        proof {
                            assert(bytes@.skip(cur as int).len() != 0);
                        }
                        None
                    }
                },
            }
        },
    }
}

/// Decoding inverts encoding: a store that fits the format's length
/// prefixes comes back from its own bytes unchanged.
pub proof fn lemma_store_codec_round_trip(m: StoreModel)
    requires
        store_bounded(m),
    ensures
        spec_decode_store(spec_encode_store(m)) == Some(m),
{
    let n_bytes = spec_u64_to_le_bytes(m.slots.len() as u64);
    let margin_bytes = spec_u32_to_le_bytes(m.compact_margin);
    let body = enc_slots(m.slots);
    assert(spec_encode_store(m) =~= n_bytes + (margin_bytes + body));
    lemma_dec_u64(m.slots.len() as u64, margin_bytes + body);
    lemma_dec_u32(m.compact_margin, body);
    assert(body =~= body + Seq::<u8>::empty());
    lemma_dec_slots(m.slots, Seq::empty());
    assert((m.slots.len() as u64) as nat == m.slots.len());
}

} // verus!
