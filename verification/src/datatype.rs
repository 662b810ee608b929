//! The typed PTP datatype codec: the 23 standard datatype codes (scalars,
//! arrays of scalars, and strings), their payload encoding and the
//! tag-dispatched decoder.

use vstd::prelude::*;
use crate::error::{Error, ErrorView, eof_message, invalid_utf16_message};
use crate::reader::Reader;
use crate::utf16::{encode_utf16, encode_str_utf16};
use crate::wire::{sp_i8, sp_u8, sp_i16, sp_u16, sp_i32, sp_u32, sp_i64, sp_u64, sp_i128, sp_u128,
    p_i8, p_u8, p_i16, p_u16, p_i32, p_u32, p_i64, p_u64, p_i128, p_u128, e_i8, e_u8, e_i16,
    e_u16, e_i32, e_u32, e_i64, e_u64, e_i128, e_u128, ser_i8, ser_u8, ser_i16, ser_u16, ser_i32,
    ser_u32, ser_i64, ser_u64, ser_i128, ser_u128, ser_str, sp_array, sp_str,
    sp_str_units, flat_encode, push_i8_le, push_u8_le, push_i16_le, push_u16_le, push_i32_le,
    push_u32_le,
    push_i64_le, push_u64_le, push_i128_le, push_u128_le, lemma_flat_encode_push};

verus! {

/// A typed PTP value, as it appears inside datasets such as
/// `DevicePropDesc`.
#[allow(non_camel_case_types)]
#[derive(Debug, PartialEq, Clone)]
pub enum DataType {
    UNDEF,
    INT8(i8),
    UINT8(u8),
    INT16(i16),
    UINT16(u16),
    INT32(i32),
    UINT32(u32),
    INT64(i64),
    UINT64(u64),
    INT128(i128),
    UINT128(u128),
    AINT8(Vec<i8>),
    AUINT8(Vec<u8>),
    AINT16(Vec<i16>),
    AUINT16(Vec<u16>),
    AINT32(Vec<i32>),
    AUINT32(Vec<u32>),
    AINT64(Vec<i64>),
    AUINT64(Vec<u64>),
    AINT128(Vec<i128>),
    AUINT128(Vec<u128>),
    STR(String),
}

/// The mathematical value of a `DataType`.
#[allow(non_camel_case_types)]
pub enum DataTypeView {
    UNDEF,
    INT8(i8),
    UINT8(u8),
    INT16(i16),
    UINT16(u16),
    INT32(i32),
    UINT32(u32),
    INT64(i64),
    UINT64(u64),
    INT128(i128),
    UINT128(u128),
    AINT8(Seq<i8>),
    AUINT8(Seq<u8>),
    AINT16(Seq<i16>),
    AUINT16(Seq<u16>),
    AINT32(Seq<i32>),
    AUINT32(Seq<u32>),
    AINT64(Seq<i64>),
    AUINT64(Seq<u64>),
    AINT128(Seq<i128>),
    AUINT128(Seq<u128>),
    STR(Seq<char>),
}

impl View for DataType {
    type V = DataTypeView;

    open spec fn view(&self) -> DataTypeView {
        match self {
            DataType::UNDEF => DataTypeView::UNDEF,
            DataType::INT8(v) => DataTypeView::INT8(*v),
            DataType::UINT8(v) => DataTypeView::UINT8(*v),
            DataType::INT16(v) => DataTypeView::INT16(*v),
            DataType::UINT16(v) => DataTypeView::UINT16(*v),
            DataType::INT32(v) => DataTypeView::INT32(*v),
            DataType::UINT32(v) => DataTypeView::UINT32(*v),
            DataType::INT64(v) => DataTypeView::INT64(*v),
            DataType::UINT64(v) => DataTypeView::UINT64(*v),
            DataType::INT128(v) => DataTypeView::INT128(*v),
            DataType::UINT128(v) => DataTypeView::UINT128(*v),
            DataType::AINT8(v) => DataTypeView::AINT8(v@),
            DataType::AUINT8(v) => DataTypeView::AUINT8(v@),
            DataType::AINT16(v) => DataTypeView::AINT16(v@),
            DataType::AUINT16(v) => DataTypeView::AUINT16(v@),
            DataType::AINT32(v) => DataTypeView::AINT32(v@),
            DataType::AUINT32(v) => DataTypeView::AUINT32(v@),
            DataType::AINT64(v) => DataTypeView::AINT64(v@),
            DataType::AUINT64(v) => DataTypeView::AUINT64(v@),
            DataType::AINT128(v) => DataTypeView::AINT128(v@),
            DataType::AUINT128(v) => DataTypeView::AUINT128(v@),
            DataType::STR(v) => DataTypeView::STR(v@),
        }
    }
}

/// The PTP datatype code of a value: 0x0001-0x000A for the scalars,
/// 0x4001-0x400A for their arrays, 0xFFFF for strings, 0x0000 for Undef.
pub open spec fn spec_tag(v: DataTypeView) -> u16 {
    match v {
        DataTypeView::UNDEF => 0x0000,
        DataTypeView::INT8(_) => 0x0001,
        DataTypeView::UINT8(_) => 0x0002,
        DataTypeView::INT16(_) => 0x0003,
        DataTypeView::UINT16(_) => 0x0004,
        DataTypeView::INT32(_) => 0x0005,
        DataTypeView::UINT32(_) => 0x0006,
        DataTypeView::INT64(_) => 0x0007,
        DataTypeView::UINT64(_) => 0x0008,
        DataTypeView::INT128(_) => 0x0009,
        DataTypeView::UINT128(_) => 0x000A,
        DataTypeView::AINT8(_) => 0x4001,
        DataTypeView::AUINT8(_) => 0x4002,
        DataTypeView::AINT16(_) => 0x4003,
        DataTypeView::AUINT16(_) => 0x4004,
        DataTypeView::AINT32(_) => 0x4005,
        DataTypeView::AUINT32(_) => 0x4006,
        DataTypeView::AINT64(_) => 0x4007,
        DataTypeView::AUINT64(_) => 0x4008,
        DataTypeView::AINT128(_) => 0x4009,
        DataTypeView::AUINT128(_) => 0x400A,
        DataTypeView::STR(_) => 0xFFFF,
    }
}

/// A value the wire format can carry: array counts fit the u32 count
/// field, string texts fit the one-byte unit count.
pub open spec fn spec_wf(v: DataTypeView) -> bool {
    match v {
        DataTypeView::AINT8(x) => x.len() <= 0xFFFFFFFF,
        DataTypeView::AUINT8(x) => x.len() <= 0xFFFFFFFF,
        DataTypeView::AINT16(x) => x.len() <= 0xFFFFFFFF,
        DataTypeView::AUINT16(x) => x.len() <= 0xFFFFFFFF,
        DataTypeView::AINT32(x) => x.len() <= 0xFFFFFFFF,
        DataTypeView::AUINT32(x) => x.len() <= 0xFFFFFFFF,
        DataTypeView::AINT64(x) => x.len() <= 0xFFFFFFFF,
        DataTypeView::AUINT64(x) => x.len() <= 0xFFFFFFFF,
        DataTypeView::AINT128(x) => x.len() <= 0xFFFFFFFF,
        DataTypeView::AUINT128(x) => x.len() <= 0xFFFFFFFF,
        DataTypeView::STR(cs) => encode_utf16(cs).len() <= 254,
        _ => true,
    }
}

/// The payload bytes of a value (no tag prefix): scalars in little
/// endian, arrays as a u32 count and the elements, strings as their
/// length-prefixed UTF-16 form, and nothing for Undef.
pub open spec fn spec_encode(v: DataTypeView) -> Seq<u8>
    recommends
        spec_wf(v),
{
    match v {
        DataTypeView::UNDEF => Seq::empty(),
        DataTypeView::INT8(x) => ser_i8(x),
        DataTypeView::UINT8(x) => ser_u8(x),
        DataTypeView::INT16(x) => ser_i16(x),
        DataTypeView::UINT16(x) => ser_u16(x),
        DataTypeView::INT32(x) => ser_i32(x),
        DataTypeView::UINT32(x) => ser_u32(x),
        DataTypeView::INT64(x) => ser_i64(x),
        DataTypeView::UINT64(x) => ser_u64(x),
        DataTypeView::INT128(x) => ser_i128(x),
        DataTypeView::UINT128(x) => ser_u128(x),
        DataTypeView::AINT8(x) => ser_u32(x.len() as u32) + flat_encode(x, e_i8()),
        DataTypeView::AUINT8(x) => ser_u32(x.len() as u32) + flat_encode(x, e_u8()),
        DataTypeView::AINT16(x) => ser_u32(x.len() as u32) + flat_encode(x, e_i16()),
        DataTypeView::AUINT16(x) => ser_u32(x.len() as u32) + flat_encode(x, e_u16()),
        DataTypeView::AINT32(x) => ser_u32(x.len() as u32) + flat_encode(x, e_i32()),
        DataTypeView::AUINT32(x) => ser_u32(x.len() as u32) + flat_encode(x, e_u32()),
        DataTypeView::AINT64(x) => ser_u32(x.len() as u32) + flat_encode(x, e_i64()),
        DataTypeView::AUINT64(x) => ser_u32(x.len() as u32) + flat_encode(x, e_u64()),
        DataTypeView::AINT128(x) => ser_u32(x.len() as u32) + flat_encode(x, e_i128()),
        DataTypeView::AUINT128(x) => ser_u32(x.len() as u32) + flat_encode(x, e_u128()),
        DataTypeView::STR(cs) => ser_str(cs),
    }
}

/// The tag-dispatched decoder at the specification level: which value a
/// given datatype code reads at a position. An unknown code reads
/// nothing and yields Undef.
pub open spec fn sp_datatype(kind: u16, s: Seq<u8>, i: int) -> Option<(DataTypeView, int)> {
    if kind == 0x0001 {
        match sp_i8(s, i) {
            Some((v, j)) => Some((DataTypeView::INT8(v), j)),
            None => None,
        }
    } else if kind == 0x0002 {
        match sp_u8(s, i) {
            Some((v, j)) => Some((DataTypeView::UINT8(v), j)),
            None => None,
        }
    } else if kind == 0x0003 {
        match sp_i16(s, i) {
            Some((v, j)) => Some((DataTypeView::INT16(v), j)),
            None => None,
        }
    } else if kind == 0x0004 {
        match sp_u16(s, i) {
            Some((v, j)) => Some((DataTypeView::UINT16(v), j)),
            None => None,
        }
    } else if kind == 0x0005 {
        match sp_i32(s, i) {
            Some((v, j)) => Some((DataTypeView::INT32(v), j)),
            None => None,
        }
    } else if kind == 0x0006 {
        match sp_u32(s, i) {
            Some((v, j)) => Some((DataTypeView::UINT32(v), j)),
            None => None,
        }
    } else if kind == 0x0007 {
        match sp_i64(s, i) {
            Some((v, j)) => Some((DataTypeView::INT64(v), j)),
            None => None,
        }
    } else if kind == 0x0008 {
        match sp_u64(s, i) {
            Some((v, j)) => Some((DataTypeView::UINT64(v), j)),
            None => None,
        }
    } else if kind == 0x0009 {
        match sp_i128(s, i) {
            Some((v, j)) => Some((DataTypeView::INT128(v), j)),
            None => None,
        }
    } else if kind == 0x000A {
        match sp_u128(s, i) {
            Some((v, j)) => Some((DataTypeView::UINT128(v), j)),
            None => None,
        }
    } else if kind == 0x4001 {
        match sp_array(s, i, p_i8()) {
            Some((v, j)) => Some((DataTypeView::AINT8(v), j)),
            None => None,
        }
    } else if kind == 0x4002 {
        match sp_array(s, i, p_u8()) {
            Some((v, j)) => Some((DataTypeView::AUINT8(v), j)),
            None => None,
        }
    } else if kind == 0x4003 {
        match sp_array(s, i, p_i16()) {
            Some((v, j)) => Some((DataTypeView::AINT16(v), j)),
            None => None,
        }
    } else if kind == 0x4004 {
        match sp_array(s, i, p_u16()) {
            Some((v, j)) => Some((DataTypeView::AUINT16(v), j)),
            None => None,
        }
    } else if kind == 0x4005 {
        match sp_array(s, i, p_i32()) {
            Some((v, j)) => Some((DataTypeView::AINT32(v), j)),
            None => None,
        }
    } else if kind == 0x4006 {
        match sp_array(s, i, p_u32()) {
            Some((v, j)) => Some((DataTypeView::AUINT32(v), j)),
            None => None,
        }
    } else if kind == 0x4007 {
        match sp_array(s, i, p_i64()) {
            Some((v, j)) => Some((DataTypeView::AINT64(v), j)),
            None => None,
        }
    } else if kind == 0x4008 {
        match sp_array(s, i, p_u64()) {
            Some((v, j)) => Some((DataTypeView::AUINT64(v), j)),
            None => None,
        }
    } else if kind == 0x4009 {
        match sp_array(s, i, p_i128()) {
            Some((v, j)) => Some((DataTypeView::AINT128(v), j)),
            None => None,
        }
    } else if kind == 0x400A {
        match sp_array(s, i, p_u128()) {
            Some((v, j)) => Some((DataTypeView::AUINT128(v), j)),
            None => None,
        }
    } else if kind == 0xFFFF {
        match sp_str(s, i) {
            Some((v, j)) => Some((DataTypeView::STR(v), j)),
            None => None,
        }
    } else {
        Some((DataTypeView::UNDEF, i))
    }
}

#[verifier::loop_isolation(false)]
fn encode_vec_i8(out: &mut Vec<u8>, val: &Vec<i8>)
    requires
        val@.len() <= 0xFFFFFFFF,
    ensures
        final(out)@ == old(out)@ + ser_u32(val@.len() as u32) + flat_encode(val@, e_i8()),
{
    push_u32_le(out, val.len() as u32);
    let ghost base = out@;
    let mut k: usize = 0;
    proof {
        assert(out@ =~= base + flat_encode(val@.take(0), e_i8()));
    }
    while k < val.len()
        invariant
            k <= val@.len(),
            out@ == base + flat_encode(val@.take(k as int), e_i8()),
        decreases val@.len() - k,
    {
        push_i8_le(out, val[k]);
        proof {
            lemma_flat_encode_push(val@.take(k as int), val@[k as int], e_i8());
            assert(val@.take(k as int).push(val@[k as int]) =~= val@.take(k + 1));
            assert(out@ =~= base + flat_encode(val@.take(k + 1), e_i8()));
        }
        k = k + 1;
    }
    proof {
        assert(val@.take(val@.len() as int) =~= val@);
    }
}

#[verifier::loop_isolation(false)]
fn encode_vec_u8(out: &mut Vec<u8>, val: &Vec<u8>)
    requires
        val@.len() <= 0xFFFFFFFF,
    ensures
        final(out)@ == old(out)@ + ser_u32(val@.len() as u32) + flat_encode(val@, e_u8()),
{
    push_u32_le(out, val.len() as u32);
    let ghost base = out@;
    let mut k: usize = 0;
    proof {
        assert(out@ =~= base + flat_encode(val@.take(0), e_u8()));
    }
    while k < val.len()
        invariant
            k <= val@.len(),
            out@ == base + flat_encode(val@.take(k as int), e_u8()),
        decreases val@.len() - k,
    {
        push_u8_le(out, val[k]);
        proof {
            lemma_flat_encode_push(val@.take(k as int), val@[k as int], e_u8());
            assert(val@.take(k as int).push(val@[k as int]) =~= val@.take(k + 1));
            assert(out@ =~= base + flat_encode(val@.take(k + 1), e_u8()));
        }
        k = k + 1;
    }
    proof {
        assert(val@.take(val@.len() as int) =~= val@);
    }
}

#[verifier::loop_isolation(false)]
fn encode_vec_i16(out: &mut Vec<u8>, val: &Vec<i16>)
    requires
        val@.len() <= 0xFFFFFFFF,
    ensures
        final(out)@ == old(out)@ + ser_u32(val@.len() as u32) + flat_encode(val@, e_i16()),
{
    push_u32_le(out, val.len() as u32);
    let ghost base = out@;
    let mut k: usize = 0;
    proof {
        assert(out@ =~= base + flat_encode(val@.take(0), e_i16()));
    }
    while k < val.len()
        invariant
            k <= val@.len(),
            out@ == base + flat_encode(val@.take(k as int), e_i16()),
        decreases val@.len() - k,
    {
        push_i16_le(out, val[k]);
        proof {
            lemma_flat_encode_push(val@.take(k as int), val@[k as int], e_i16());
            assert(val@.take(k as int).push(val@[k as int]) =~= val@.take(k + 1));
            assert(out@ =~= base + flat_encode(val@.take(k + 1), e_i16()));
        }
        k = k + 1;
    }
    proof {
        assert(val@.take(val@.len() as int) =~= val@);
    }
}

#[verifier::loop_isolation(false)]
fn encode_vec_u16(out: &mut Vec<u8>, val: &Vec<u16>)
    requires
        val@.len() <= 0xFFFFFFFF,
    ensures
        final(out)@ == old(out)@ + ser_u32(val@.len() as u32) + flat_encode(val@, e_u16()),
{
    push_u32_le(out, val.len() as u32);
    let ghost base = out@;
    let mut k: usize = 0;
    proof {
        assert(out@ =~= base + flat_encode(val@.take(0), e_u16()));
    }
    while k < val.len()
        invariant
            k <= val@.len(),
            out@ == base + flat_encode(val@.take(k as int), e_u16()),
        decreases val@.len() - k,
    {
        push_u16_le(out, val[k]);
        proof {
            lemma_flat_encode_push(val@.take(k as int), val@[k as int], e_u16());
            assert(val@.take(k as int).push(val@[k as int]) =~= val@.take(k + 1));
            assert(out@ =~= base + flat_encode(val@.take(k + 1), e_u16()));
        }
        k = k + 1;
    }
    proof {
        assert(val@.take(val@.len() as int) =~= val@);
    }
}

#[verifier::loop_isolation(false)]
fn encode_vec_i32(out: &mut Vec<u8>, val: &Vec<i32>)
    requires
        val@.len() <= 0xFFFFFFFF,
    ensures
        final(out)@ == old(out)@ + ser_u32(val@.len() as u32) + flat_encode(val@, e_i32()),
{
    push_u32_le(out, val.len() as u32);
    let ghost base = out@;
    let mut k: usize = 0;
    proof {
        assert(out@ =~= base + flat_encode(val@.take(0), e_i32()));
    }
    while k < val.len()
        invariant
            k <= val@.len(),
            out@ == base + flat_encode(val@.take(k as int), e_i32()),
        decreases val@.len() - k,
    {
        push_i32_le(out, val[k]);
        proof {
            lemma_flat_encode_push(val@.take(k as int), val@[k as int], e_i32());
            assert(val@.take(k as int).push(val@[k as int]) =~= val@.take(k + 1));
            assert(out@ =~= base + flat_encode(val@.take(k + 1), e_i32()));
        }
        k = k + 1;
    }
    proof {
        assert(val@.take(val@.len() as int) =~= val@);
    }
}

#[verifier::loop_isolation(false)]
fn encode_vec_u32(out: &mut Vec<u8>, val: &Vec<u32>)
    requires
        val@.len() <= 0xFFFFFFFF,
    ensures
        final(out)@ == old(out)@ + ser_u32(val@.len() as u32) + flat_encode(val@, e_u32()),
{
    push_u32_le(out, val.len() as u32);
    let ghost base = out@;
    let mut k: usize = 0;
    proof {
        assert(out@ =~= base + flat_encode(val@.take(0), e_u32()));
    }
    while k < val.len()
        invariant
            k <= val@.len(),
            out@ == base + flat_encode(val@.take(k as int), e_u32()),
        decreases val@.len() - k,
    {
        push_u32_le(out, val[k]);
        proof {
            lemma_flat_encode_push(val@.take(k as int), val@[k as int], e_u32());
            assert(val@.take(k as int).push(val@[k as int]) =~= val@.take(k + 1));
            assert(out@ =~= base + flat_encode(val@.take(k + 1), e_u32()));
        }
        k = k + 1;
    }
    proof {
        assert(val@.take(val@.len() as int) =~= val@);
    }
}

#[verifier::loop_isolation(false)]
fn encode_vec_i64(out: &mut Vec<u8>, val: &Vec<i64>)
    requires
        val@.len() <= 0xFFFFFFFF,
    ensures
        final(out)@ == old(out)@ + ser_u32(val@.len() as u32) + flat_encode(val@, e_i64()),
{
    push_u32_le(out, val.len() as u32);
    let ghost base = out@;
    let mut k: usize = 0;
    proof {
        assert(out@ =~= base + flat_encode(val@.take(0), e_i64()));
    }
    while k < val.len()
        invariant
            k <= val@.len(),
            out@ == base + flat_encode(val@.take(k as int), e_i64()),
        decreases val@.len() - k,
    {
        push_i64_le(out, val[k]);
        proof {
            lemma_flat_encode_push(val@.take(k as int), val@[k as int], e_i64());
            assert(val@.take(k as int).push(val@[k as int]) =~= val@.take(k + 1));
            assert(out@ =~= base + flat_encode(val@.take(k + 1), e_i64()));
        }
        k = k + 1;
    }
    proof {
        assert(val@.take(val@.len() as int) =~= val@);
    }
}

#[verifier::loop_isolation(false)]
fn encode_vec_u64(out: &mut Vec<u8>, val: &Vec<u64>)
    requires
        val@.len() <= 0xFFFFFFFF,
    ensures
        final(out)@ == old(out)@ + ser_u32(val@.len() as u32) + flat_encode(val@, e_u64()),
{
    push_u32_le(out, val.len() as u32);
    let ghost base = out@;
    let mut k: usize = 0;
    proof {
        assert(out@ =~= base + flat_encode(val@.take(0), e_u64()));
    }
    while k < val.len()
        invariant
            k <= val@.len(),
            out@ == base + flat_encode(val@.take(k as int), e_u64()),
        decreases val@.len() - k,
    {
        push_u64_le(out, val[k]);
        proof {
            lemma_flat_encode_push(val@.take(k as int), val@[k as int], e_u64());
            assert(val@.take(k as int).push(val@[k as int]) =~= val@.take(k + 1));
            assert(out@ =~= base + flat_encode(val@.take(k + 1), e_u64()));
        }
        k = k + 1;
    }
    proof {
        assert(val@.take(val@.len() as int) =~= val@);
    }
}

#[verifier::loop_isolation(false)]
fn encode_vec_i128(out: &mut Vec<u8>, val: &Vec<i128>)
    requires
        val@.len() <= 0xFFFFFFFF,
    ensures
        final(out)@ == old(out)@ + ser_u32(val@.len() as u32) + flat_encode(val@, e_i128()),
{
    push_u32_le(out, val.len() as u32);
    let ghost base = out@;
    let mut k: usize = 0;
    proof {
        assert(out@ =~= base + flat_encode(val@.take(0), e_i128()));
    }
    while k < val.len()
        invariant
            k <= val@.len(),
            out@ == base + flat_encode(val@.take(k as int), e_i128()),
        decreases val@.len() - k,
    {
        push_i128_le(out, val[k]);
        proof {
            lemma_flat_encode_push(val@.take(k as int), val@[k as int], e_i128());
            assert(val@.take(k as int).push(val@[k as int]) =~= val@.take(k + 1));
            assert(out@ =~= base + flat_encode(val@.take(k + 1), e_i128()));
        }
        k = k + 1;
    }
    proof {
        assert(val@.take(val@.len() as int) =~= val@);
    }
}

#[verifier::loop_isolation(false)]
fn encode_vec_u128(out: &mut Vec<u8>, val: &Vec<u128>)
    requires
        val@.len() <= 0xFFFFFFFF,
    ensures
        final(out)@ == old(out)@ + ser_u32(val@.len() as u32) + flat_encode(val@, e_u128()),
{
    push_u32_le(out, val.len() as u32);
    let ghost base = out@;
    let mut k: usize = 0;
    proof {
        assert(out@ =~= base + flat_encode(val@.take(0), e_u128()));
    }
    while k < val.len()
        invariant
            k <= val@.len(),
            out@ == base + flat_encode(val@.take(k as int), e_u128()),
        decreases val@.len() - k,
    {
        push_u128_le(out, val[k]);
        proof {
            lemma_flat_encode_push(val@.take(k as int), val@[k as int], e_u128());
            assert(val@.take(k as int).push(val@[k as int]) =~= val@.take(k + 1));
            assert(out@ =~= base + flat_encode(val@.take(k + 1), e_u128()));
        }
        k = k + 1;
    }
    proof {
        assert(val@.take(val@.len() as int) =~= val@);
    }
}

/// Appends the length-prefixed UTF-16 form of a string: empty text is a
/// single zero byte; otherwise the unit count plus one, the units, and a
/// zero terminator unit.
#[verifier::loop_isolation(false)]
fn encode_string(out: &mut Vec<u8>, val: &String)
    requires
        encode_utf16(val@).len() <= 254,
    ensures
        final(out)@ == old(out)@ + ser_str(val@),
{
    let units = encode_str_utf16(val.as_str());
    if units.len() == 0 {
        push_u8_le(out, 0);
        proof {
            assert(ser_str(val@) =~= ser_u8(0u8));
        }
    } else {
        push_u8_le(out, (units.len() + 1) as u8);
        let ghost base = out@;
        let mut k: usize = 0;
        proof {
            assert(out@ =~= base + flat_encode(units@.take(0), e_u16()));
        }
        while k < units.len()
            invariant
                k <= units@.len(),
                out@ == base + flat_encode(units@.take(k as int), e_u16()),
            decreases units@.len() - k,
        {
            push_u16_le(out, units[k]);
            proof {
                lemma_flat_encode_push(units@.take(k as int), units@[k as int], e_u16());
                assert(units@.take(k as int).push(units@[k as int]) =~= units@.take(k + 1));
                assert(out@ =~= base + flat_encode(units@.take(k + 1), e_u16()));
            }
            k = k + 1;
        }
        push_u8_le(out, 0);
        push_u8_le(out, 0);
        proof {
            assert(units@.take(units@.len() as int) =~= units@);
            assert(final(out)@ =~= old(out)@ + ser_str(val@));
        }
    }
}

impl DataType {
    /// The payload bytes of this value, with no tag prefix.
    pub fn encode(&self) -> (out: Vec<u8>)
        requires
            spec_wf(self@),
        ensures
            out@ == spec_encode(self@),
    {
        let mut out: Vec<u8> = Vec::new();
        match self {
            DataType::UNDEF => {
                proof {
                    assert(out@ =~= spec_encode(self@));
                }
            },
            DataType::INT8(v) => {
                push_i8_le(&mut out, *v);
                proof {
                    assert(out@ =~= spec_encode(self@));
                }
            },
            DataType::UINT8(v) => {
                push_u8_le(&mut out, *v);
                proof {
                    assert(out@ =~= spec_encode(self@));
                }
            },
            DataType::INT16(v) => {
                push_i16_le(&mut out, *v);
                proof {
                    assert(out@ =~= spec_encode(self@));
                }
            },
            DataType::UINT16(v) => {
                push_u16_le(&mut out, *v);
                proof {
                    assert(out@ =~= spec_encode(self@));
                }
            },
            DataType::INT32(v) => {
                push_i32_le(&mut out, *v);
                proof {
                    assert(out@ =~= spec_encode(self@));
                }
            },
            DataType::UINT32(v) => {
                push_u32_le(&mut out, *v);
                proof {
                    assert(out@ =~= spec_encode(self@));
                }
            },
            DataType::INT64(v) => {
                push_i64_le(&mut out, *v);
                proof {
                    assert(out@ =~= spec_encode(self@));
                }
            },
            DataType::UINT64(v) => {
                push_u64_le(&mut out, *v);
                proof {
                    assert(out@ =~= spec_encode(self@));
                }
            },
            DataType::INT128(v) => {
                push_i128_le(&mut out, *v);
                proof {
                    assert(out@ =~= spec_encode(self@));
                }
            },
            DataType::UINT128(v) => {
                push_u128_le(&mut out, *v);
                proof {
                    assert(out@ =~= spec_encode(self@));
                }
            },
            DataType::AINT8(v) => {
                encode_vec_i8(&mut out, v);
                proof {
                    assert(out@ =~= spec_encode(self@));
                }
            },
            DataType::AUINT8(v) => {
                encode_vec_u8(&mut out, v);
                proof {
                    assert(out@ =~= spec_encode(self@));
                }
            },
            DataType::AINT16(v) => {
                encode_vec_i16(&mut out, v);
                proof {
                    assert(out@ =~= spec_encode(self@));
                }
            },
            DataType::AUINT16(v) => {
                encode_vec_u16(&mut out, v);
                proof {
                    assert(out@ =~= spec_encode(self@));
                }
            },
            DataType::AINT32(v) => {
                encode_vec_i32(&mut out, v);
                proof {
                    assert(out@ =~= spec_encode(self@));
                }
            },
            DataType::AUINT32(v) => {
                encode_vec_u32(&mut out, v);
                proof {
                    assert(out@ =~= spec_encode(self@));
                }
            },
            DataType::AINT64(v) => {
                encode_vec_i64(&mut out, v);
                proof {
                    assert(out@ =~= spec_encode(self@));
                }
            },
            DataType::AUINT64(v) => {
                encode_vec_u64(&mut out, v);
                proof {
                    assert(out@ =~= spec_encode(self@));
                }
            },
            DataType::AINT128(v) => {
                encode_vec_i128(&mut out, v);
                proof {
                    assert(out@ =~= spec_encode(self@));
                }
            },
            DataType::AUINT128(v) => {
                encode_vec_u128(&mut out, v);
                proof {
                    assert(out@ =~= spec_encode(self@));
                }
            },
            DataType::STR(v) => {
                encode_string(&mut out, v);
                proof {
                    assert(out@ =~= spec_encode(self@));
                }
            },
        }
        out
    }

    /// Reads the value a datatype code dictates. Unknown codes consume
    /// nothing and yield Undef, so that vendor-private codes do not stop
    /// a dataset decode.
    pub fn read_type<'a>(kind: u16, reader: &mut Reader<'a>) -> (r: Result<DataType, Error>)
        requires
            old(reader).wf(),
        ensures
            final(reader).wf(),
            final(reader).data() == old(reader).data(),
            match r {
                Ok(v) => sp_datatype(kind, final(reader).data(), old(reader).position()) == Some(
                    (v@, final(reader).position()),
                ),
                Err(e) => sp_datatype(kind, final(reader).data(), old(reader).position()) is None
                    && e@ == ErrorView::Malformed(
                    if kind == 0xFFFF && sp_str_units(
                        final(reader).data(),
                        old(reader).position(),
                    ) is Some {
                        invalid_utf16_message()
                    } else {
                        eof_message()
                    },
                ),
            },
    {
        match kind {
            0x0001 => match reader.read_ptp_i8() {
                Ok(v) => Ok(DataType::INT8(v)),
                Err(e) => Err(e),
            },
            0x0002 => match reader.read_ptp_u8() {
                Ok(v) => Ok(DataType::UINT8(v)),
                Err(e) => Err(e),
            },
            0x0003 => match reader.read_ptp_i16() {
                Ok(v) => Ok(DataType::INT16(v)),
                Err(e) => Err(e),
            },
            0x0004 => match reader.read_ptp_u16() {
                Ok(v) => Ok(DataType::UINT16(v)),
                Err(e) => Err(e),
            },
            0x0005 => match reader.read_ptp_i32() {
                Ok(v) => Ok(DataType::INT32(v)),
                Err(e) => Err(e),
            },
            0x0006 => match reader.read_ptp_u32() {
                Ok(v) => Ok(DataType::UINT32(v)),
                Err(e) => Err(e),
            },
            0x0007 => match reader.read_ptp_i64() {
                Ok(v) => Ok(DataType::INT64(v)),
                Err(e) => Err(e),
            },
            0x0008 => match reader.read_ptp_u64() {
                Ok(v) => Ok(DataType::UINT64(v)),
                Err(e) => Err(e),
            },
            0x0009 => match reader.read_ptp_i128() {
                Ok(v) => Ok(DataType::INT128(v)),
                Err(e) => Err(e),
            },
            0x000A => match reader.read_ptp_u128() {
                Ok(v) => Ok(DataType::UINT128(v)),
                Err(e) => Err(e),
            },
            0x4001 => match reader.read_ptp_i8_vec() {
                Ok(v) => Ok(DataType::AINT8(v)),
                Err(e) => Err(e),
            },
            0x4002 => match reader.read_ptp_u8_vec() {
                Ok(v) => Ok(DataType::AUINT8(v)),
                Err(e) => Err(e),
            },
            0x4003 => match reader.read_ptp_i16_vec() {
                Ok(v) => Ok(DataType::AINT16(v)),
                Err(e) => Err(e),
            },
            0x4004 => match reader.read_ptp_u16_vec() {
                Ok(v) => Ok(DataType::AUINT16(v)),
                Err(e) => Err(e),
            },
            0x4005 => match reader.read_ptp_i32_vec() {
                Ok(v) => Ok(DataType::AINT32(v)),
                Err(e) => Err(e),
            },
            0x4006 => match reader.read_ptp_u32_vec() {
                Ok(v) => Ok(DataType::AUINT32(v)),
                Err(e) => Err(e),
            },
            0x4007 => match reader.read_ptp_i64_vec() {
                Ok(v) => Ok(DataType::AINT64(v)),
                Err(e) => Err(e),
            },
            0x4008 => match reader.read_ptp_u64_vec() {
                Ok(v) => Ok(DataType::AUINT64(v)),
                Err(e) => Err(e),
            },
            0x4009 => match reader.read_ptp_i128_vec() {
                Ok(v) => Ok(DataType::AINT128(v)),
                Err(e) => Err(e),
            },
            0x400A => match reader.read_ptp_u128_vec() {
                Ok(v) => Ok(DataType::AUINT128(v)),
                Err(e) => Err(e),
            },
            0xFFFF => match reader.read_ptp_str() {
                Ok(v) => Ok(DataType::STR(v)),
                Err(e) => Err(e),
            },
            _ => Ok(DataType::UNDEF),
        }
    }
}

/// The form field of a device property description: no constraint, a
/// range, or an enumeration of allowed values.
#[derive(Debug)]
pub enum FormData {
    NoForm,
    Range { min_value: DataType, max_value: DataType, step: DataType },
    Enumeration { array: Vec<DataType> },
}

/// The mathematical value of a `FormData`.
pub enum FormDataView {
    NoForm,
    Range { min_value: DataTypeView, max_value: DataTypeView, step: DataTypeView },
    Enumeration { array: Seq<DataTypeView> },
}

impl View for FormData {
    type V = FormDataView;

    open spec fn view(&self) -> FormDataView {
        match self {
            FormData::NoForm => FormDataView::NoForm,
            FormData::Range { min_value, max_value, step } => FormDataView::Range {
                min_value: min_value@,
                max_value: max_value@,
                step: step@,
            },
            FormData::Enumeration { array } => FormDataView::Enumeration {
                array: array@.map_values(|d: DataType| d@),
            },
        }
    }
}

/// The datatype decoder for one fixed code, as a first-class parser.
pub open spec fn p_datatype(kind: u16) -> spec_fn(Seq<u8>, int) -> Option<(DataTypeView, int)> {
    |s: Seq<u8>, i: int| sp_datatype(kind, s, i)
}

/// Law: encoding a well-formed value and then decoding the bytes with
/// the value's own datatype code gives the value back, consuming every
/// byte of the encoding.
pub proof fn lemma_datatype_round_trip(v: DataTypeView)
    requires
        spec_wf(v),
    ensures
        sp_datatype(spec_tag(v), spec_encode(v), 0) == Some((v, spec_encode(v).len() as int)),
{
    crate::wire::lemma_scalar_parser_props();
    let s = spec_encode(v);
    match v {
        DataTypeView::UNDEF => {
            assert(s.len() == 0);
        },
        DataTypeView::INT8(x) => {
            assert(s.subrange(0, s.len() as int) =~= s);
            assert(p_i8()(s, 0) == sp_i8(s, 0));
            assert(e_i8()(x) == ser_i8(x));
            assert(sp_i8(s, 0) == Some((x, s.len() as int)));
        },
        DataTypeView::UINT8(x) => {
            assert(s.subrange(0, s.len() as int) =~= s);
            assert(p_u8()(s, 0) == sp_u8(s, 0));
            assert(e_u8()(x) == ser_u8(x));
            assert(sp_u8(s, 0) == Some((x, s.len() as int)));
        },
        DataTypeView::INT16(x) => {
            assert(s.subrange(0, s.len() as int) =~= s);
            assert(p_i16()(s, 0) == sp_i16(s, 0));
            assert(e_i16()(x) == ser_i16(x));
            assert(sp_i16(s, 0) == Some((x, s.len() as int)));
        },
        DataTypeView::UINT16(x) => {
            assert(s.subrange(0, s.len() as int) =~= s);
            assert(p_u16()(s, 0) == sp_u16(s, 0));
            assert(e_u16()(x) == ser_u16(x));
            assert(sp_u16(s, 0) == Some((x, s.len() as int)));
        },
        DataTypeView::INT32(x) => {
            assert(s.subrange(0, s.len() as int) =~= s);
            assert(p_i32()(s, 0) == sp_i32(s, 0));
            assert(e_i32()(x) == ser_i32(x));
            assert(sp_i32(s, 0) == Some((x, s.len() as int)));
        },
        DataTypeView::UINT32(x) => {
            assert(s.subrange(0, s.len() as int) =~= s);
            assert(p_u32()(s, 0) == sp_u32(s, 0));
            assert(e_u32()(x) == ser_u32(x));
            assert(sp_u32(s, 0) == Some((x, s.len() as int)));
        },
        DataTypeView::INT64(x) => {
            assert(s.subrange(0, s.len() as int) =~= s);
            assert(p_i64()(s, 0) == sp_i64(s, 0));
            assert(e_i64()(x) == ser_i64(x));
            assert(sp_i64(s, 0) == Some((x, s.len() as int)));
        },
        DataTypeView::UINT64(x) => {
            assert(s.subrange(0, s.len() as int) =~= s);
            assert(p_u64()(s, 0) == sp_u64(s, 0));
            assert(e_u64()(x) == ser_u64(x));
            assert(sp_u64(s, 0) == Some((x, s.len() as int)));
        },
        DataTypeView::INT128(x) => {
            assert(s.subrange(0, s.len() as int) =~= s);
            assert(p_i128()(s, 0) == sp_i128(s, 0));
            assert(e_i128()(x) == ser_i128(x));
            assert(sp_i128(s, 0) == Some((x, s.len() as int)));
        },
        DataTypeView::UINT128(x) => {
            assert(s.subrange(0, s.len() as int) =~= s);
            assert(p_u128()(s, 0) == sp_u128(s, 0));
            assert(e_u128()(x) == ser_u128(x));
            assert(sp_u128(s, 0) == Some((x, s.len() as int)));
        },
        DataTypeView::AINT8(xs) => {
            lemma_datatype_array_case::<i8>(s, xs, p_i8(), e_i8());
        },
        DataTypeView::AUINT8(xs) => {
            lemma_datatype_array_case::<u8>(s, xs, p_u8(), e_u8());
        },
        DataTypeView::AINT16(xs) => {
            lemma_datatype_array_case::<i16>(s, xs, p_i16(), e_i16());
        },
        DataTypeView::AUINT16(xs) => {
            lemma_datatype_array_case::<u16>(s, xs, p_u16(), e_u16());
        },
        DataTypeView::AINT32(xs) => {
            lemma_datatype_array_case::<i32>(s, xs, p_i32(), e_i32());
        },
        DataTypeView::AUINT32(xs) => {
            lemma_datatype_array_case::<u32>(s, xs, p_u32(), e_u32());
        },
        DataTypeView::AINT64(xs) => {
            lemma_datatype_array_case::<i64>(s, xs, p_i64(), e_i64());
        },
        DataTypeView::AUINT64(xs) => {
            lemma_datatype_array_case::<u64>(s, xs, p_u64(), e_u64());
        },
        DataTypeView::AINT128(xs) => {
            lemma_datatype_array_case::<i128>(s, xs, p_i128(), e_i128());
        },
        DataTypeView::AUINT128(xs) => {
            lemma_datatype_array_case::<u128>(s, xs, p_u128(), e_u128());
        },
        DataTypeView::STR(cs) => {
            crate::wire::lemma_str_round_trip(cs);
        },
    }
}

/// One array case of the round-trip law: a u32 count and the flat
/// elements parse back to the element sequence.
proof fn lemma_datatype_array_case<T>(
    s: Seq<u8>,
    xs: Seq<T>,
    p: spec_fn(Seq<u8>, int) -> Option<(T, int)>,
    enc: spec_fn(T) -> Seq<u8>,
)
    requires
        crate::wire::parser_reads(p, enc),
        xs.len() <= 0xFFFFFFFF,
        s == ser_u32(xs.len() as u32) + flat_encode(xs, enc),
    ensures
        sp_array(s, 0, p) == Some((xs, s.len() as int)),
{
    let cnt = xs.len() as u32;
    let flat = flat_encode(xs, enc);
    assert(ser_u32(cnt).len() == 4) by {
        vstd::bytes::lemma_auto_spec_u32_to_from_le_bytes();
    }
    assert(s.subrange(0, 4) =~= ser_u32(cnt));
    crate::wire::lemma_sp_u32_reads(s, 0, cnt);
    assert(s.subrange(4, 4 + flat.len() as int) =~= flat);
    crate::wire::lemma_sp_elems_round_trip(s, 4, xs, p, enc);
    assert(cnt as nat == xs.len());
    assert(sp_array(s, 0, p) == Some((xs, s.len() as int)));
}

impl From<i8> for DataType {
    fn from(value: i8) -> (r: DataType) {
        DataType::INT8(value)
    }
}

impl vstd::std_specs::convert::FromSpecImpl<i8> for DataType {
    open spec fn obeys_from_spec() -> bool {
        true
    }

    open spec fn from_spec(value: i8) -> DataType {
        DataType::INT8(value)
    }
}

impl From<u8> for DataType {
    fn from(value: u8) -> (r: DataType) {
        DataType::UINT8(value)
    }
}

impl vstd::std_specs::convert::FromSpecImpl<u8> for DataType {
    open spec fn obeys_from_spec() -> bool {
        true
    }

    open spec fn from_spec(value: u8) -> DataType {
        DataType::UINT8(value)
    }
}

impl From<i16> for DataType {
    fn from(value: i16) -> (r: DataType) {
        DataType::INT16(value)
    }
}

impl vstd::std_specs::convert::FromSpecImpl<i16> for DataType {
    open spec fn obeys_from_spec() -> bool {
        true
    }

    open spec fn from_spec(value: i16) -> DataType {
        DataType::INT16(value)
    }
}

impl From<u16> for DataType {
    fn from(value: u16) -> (r: DataType) {
        DataType::UINT16(value)
    }
}

impl vstd::std_specs::convert::FromSpecImpl<u16> for DataType {
    open spec fn obeys_from_spec() -> bool {
        true
    }

    open spec fn from_spec(value: u16) -> DataType {
        DataType::UINT16(value)
    }
}

impl From<i32> for DataType {
    fn from(value: i32) -> (r: DataType) {
        DataType::INT32(value)
    }
}

impl vstd::std_specs::convert::FromSpecImpl<i32> for DataType {
    open spec fn obeys_from_spec() -> bool {
        true
    }

    open spec fn from_spec(value: i32) -> DataType {
        DataType::INT32(value)
    }
}

impl From<u32> for DataType {
    fn from(value: u32) -> (r: DataType) {
        DataType::UINT32(value)
    }
}

impl vstd::std_specs::convert::FromSpecImpl<u32> for DataType {
    open spec fn obeys_from_spec() -> bool {
        true
    }

    open spec fn from_spec(value: u32) -> DataType {
        DataType::UINT32(value)
    }
}

impl From<i64> for DataType {
    fn from(value: i64) -> (r: DataType) {
        DataType::INT64(value)
    }
}

impl vstd::std_specs::convert::FromSpecImpl<i64> for DataType {
    open spec fn obeys_from_spec() -> bool {
        true
    }

    open spec fn from_spec(value: i64) -> DataType {
        DataType::INT64(value)
    }
}

impl From<u64> for DataType {
    fn from(value: u64) -> (r: DataType) {
        DataType::UINT64(value)
    }
}

impl vstd::std_specs::convert::FromSpecImpl<u64> for DataType {
    open spec fn obeys_from_spec() -> bool {
        true
    }

    open spec fn from_spec(value: u64) -> DataType {
        DataType::UINT64(value)
    }
}

impl From<&str> for DataType {
    /// The string value holding this text.
    fn from(value: &str) -> (r: DataType)
        ensures
            r@ == DataTypeView::STR(value@),
    {
        DataType::STR(value.to_owned())
    }
}

impl vstd::std_specs::convert::FromSpecImpl<&str> for DataType {
    open spec fn obeys_from_spec() -> bool {
        false
    }

    open spec fn from_spec(value: &str) -> DataType {
        vstd::pervasive::arbitrary()
    }
}

impl From<String> for DataType {
    fn from(value: String) -> (r: DataType) {
        DataType::STR(value)
    }
}

impl vstd::std_specs::convert::FromSpecImpl<String> for DataType {
    open spec fn obeys_from_spec() -> bool {
        true
    }

    open spec fn from_spec(value: String) -> DataType {
        DataType::STR(value)
    }
}

} // verus!
