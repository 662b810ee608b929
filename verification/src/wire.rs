//! Byte-level model of the PTP wire format: little-endian scalars,
//! count-prefixed arrays and length-prefixed UTF-16 strings, each as a
//! specification parser over a byte sequence and a start position.
//!
//! A parser takes the whole buffer and a position and yields the parsed
//! value with the position just past it, or `None` when the bytes do not
//! suffice. The lemmas at the end relate parsing to serialization and to
//! truncated or extended buffers; the dataset decoders build on them.

use vstd::prelude::*;
use vstd::bytes::*;
use crate::utf16::decode_utf16;
use crate::utf16::encode_utf16;

verus! {

// ---------------------------------------------------------------------
// Scalar parsers
// ---------------------------------------------------------------------
pub open spec fn sp_u8(s: Seq<u8>, i: int) -> Option<(u8, int)> {
    if 0 <= i && i + 1 <= s.len() {
        Some((s[i], i + 1))
    } else {
        None
    }
}

pub open spec fn sp_u16(s: Seq<u8>, i: int) -> Option<(u16, int)> {
    if 0 <= i && i + 2 <= s.len() {
        Some((spec_u16_from_le_bytes(s.subrange(i, i + 2)), i + 2))
    } else {
        None
    }
}

pub open spec fn sp_u32(s: Seq<u8>, i: int) -> Option<(u32, int)> {
    if 0 <= i && i + 4 <= s.len() {
        Some((spec_u32_from_le_bytes(s.subrange(i, i + 4)), i + 4))
    } else {
        None
    }
}

pub open spec fn sp_u64(s: Seq<u8>, i: int) -> Option<(u64, int)> {
    if 0 <= i && i + 8 <= s.len() {
        Some((spec_u64_from_le_bytes(s.subrange(i, i + 8)), i + 8))
    } else {
        None
    }
}

pub open spec fn sp_u128(s: Seq<u8>, i: int) -> Option<(u128, int)> {
    if 0 <= i && i + 16 <= s.len() {
        Some((spec_u128_from_le_bytes(s.subrange(i, i + 16)), i + 16))
    } else {
        None
    }
}

// Two's-complement views of the signed scalars. Out-of-range `as` casts
// are avoided on purpose: these conversions stay within range.
pub open spec fn i8_of_bits(u: u8) -> i8 {
    if u < 0x80 {
        u as i8
    } else {
        (u - 0x100) as i8
    }
}

pub open spec fn bits_of_i8(v: i8) -> u8 {
    if v >= 0 {
        v as u8
    } else {
        (v + 0x100) as u8
    }
}

pub open spec fn i16_of_bits(u: u16) -> i16 {
    if u < 0x8000 {
        u as i16
    } else {
        (u - 0x10000) as i16
    }
}

pub open spec fn bits_of_i16(v: i16) -> u16 {
    if v >= 0 {
        v as u16
    } else {
        (v + 0x10000) as u16
    }
}

pub open spec fn i32_of_bits(u: u32) -> i32 {
    if u < 0x80000000 {
        u as i32
    } else {
        (u - 0x100000000) as i32
    }
}

pub open spec fn bits_of_i32(v: i32) -> u32 {
    if v >= 0 {
        v as u32
    } else {
        (v + 0x100000000) as u32
    }
}

pub open spec fn i64_of_bits(u: u64) -> i64 {
    if u < 0x8000000000000000 {
        u as i64
    } else {
        (u - 0x10000000000000000) as i64
    }
}

pub open spec fn bits_of_i64(v: i64) -> u64 {
    if v >= 0 {
        v as u64
    } else {
        (v + 0x10000000000000000) as u64
    }
}

pub open spec fn i128_of_bits(u: u128) -> i128 {
    if u < 0x80000000000000000000000000000000 {
        u as i128
    } else {
        (u - 0x100000000000000000000000000000000) as i128
    }
}

pub open spec fn bits_of_i128(v: i128) -> u128 {
    if v >= 0 {
        v as u128
    } else {
        (v + 0x100000000000000000000000000000000) as u128
    }
}

pub fn u8_to_i8(u: u8) -> (r: i8)
    ensures
        r == i8_of_bits(u),
{
    if u < 0x80 {
        u as i8
    } else {
        ((u as i16) - 0x100) as i8
    }
}

pub fn i8_to_u8(v: i8) -> (r: u8)
    ensures
        r == bits_of_i8(v),
{
    if v >= 0 {
        v as u8
    } else {
        ((v as i16) + 0x100) as u8
    }
}

pub fn u16_to_i16(u: u16) -> (r: i16)
    ensures
        r == i16_of_bits(u),
{
    if u < 0x8000 {
        u as i16
    } else {
        ((u as i32) - 0x10000) as i16
    }
}

pub fn i16_to_u16(v: i16) -> (r: u16)
    ensures
        r == bits_of_i16(v),
{
    if v >= 0 {
        v as u16
    } else {
        ((v as i32) + 0x10000) as u16
    }
}

pub fn u32_to_i32(u: u32) -> (r: i32)
    ensures
        r == i32_of_bits(u),
{
    if u < 0x80000000 {
        u as i32
    } else {
        ((u as i64) - 0x100000000) as i32
    }
}

pub fn i32_to_u32(v: i32) -> (r: u32)
    ensures
        r == bits_of_i32(v),
{
    if v >= 0 {
        v as u32
    } else {
        ((v as i64) + 0x100000000) as u32
    }
}

pub fn u64_to_i64(u: u64) -> (r: i64)
    ensures
        r == i64_of_bits(u),
{
    if u < 0x8000000000000000 {
        u as i64
    } else {
        ((u as i128) - 0x10000000000000000) as i64
    }
}

pub fn i64_to_u64(v: i64) -> (r: u64)
    ensures
        r == bits_of_i64(v),
{
    if v >= 0 {
        v as u64
    } else {
        ((v as i128) + 0x10000000000000000) as u64
    }
}

pub fn u128_to_i128(u: u128) -> (r: i128)
    ensures
        r == i128_of_bits(u),
{
    if u < 0x80000000000000000000000000000000 {
        u as i128
    } else {
        let low = (u - 0x80000000000000000000000000000000) as i128;
        low + i128::MIN
    }
}

pub fn i128_to_u128(v: i128) -> (r: u128)
    ensures
        r == bits_of_i128(v),
{
    if v >= 0 {
        v as u128
    } else {
        let low = (v - i128::MIN) as u128;
        low + 0x80000000000000000000000000000000
    }
}

pub open spec fn sp_i8(s: Seq<u8>, i: int) -> Option<(i8, int)> {
    match sp_u8(s, i) {
        Some((v, j)) => Some((i8_of_bits(v), j)),
        None => None,
    }
}

pub open spec fn sp_i16(s: Seq<u8>, i: int) -> Option<(i16, int)> {
    match sp_u16(s, i) {
        Some((v, j)) => Some((i16_of_bits(v), j)),
        None => None,
    }
}

pub open spec fn sp_i32(s: Seq<u8>, i: int) -> Option<(i32, int)> {
    match sp_u32(s, i) {
        Some((v, j)) => Some((i32_of_bits(v), j)),
        None => None,
    }
}

pub open spec fn sp_i64(s: Seq<u8>, i: int) -> Option<(i64, int)> {
    match sp_u64(s, i) {
        Some((v, j)) => Some((i64_of_bits(v), j)),
        None => None,
    }
}

pub open spec fn sp_i128(s: Seq<u8>, i: int) -> Option<(i128, int)> {
    match sp_u128(s, i) {
        Some((v, j)) => Some((i128_of_bits(v), j)),
        None => None,
    }
}

// The same parsers as first-class values, for the array combinator.
pub open spec fn p_u8() -> spec_fn(Seq<u8>, int) -> Option<(u8, int)> {
    |s: Seq<u8>, i: int| sp_u8(s, i)
}

pub open spec fn p_u16() -> spec_fn(Seq<u8>, int) -> Option<(u16, int)> {
    |s: Seq<u8>, i: int| sp_u16(s, i)
}

pub open spec fn p_u32() -> spec_fn(Seq<u8>, int) -> Option<(u32, int)> {
    |s: Seq<u8>, i: int| sp_u32(s, i)
}

pub open spec fn p_u64() -> spec_fn(Seq<u8>, int) -> Option<(u64, int)> {
    |s: Seq<u8>, i: int| sp_u64(s, i)
}

pub open spec fn p_u128() -> spec_fn(Seq<u8>, int) -> Option<(u128, int)> {
    |s: Seq<u8>, i: int| sp_u128(s, i)
}

pub open spec fn p_i8() -> spec_fn(Seq<u8>, int) -> Option<(i8, int)> {
    |s: Seq<u8>, i: int| sp_i8(s, i)
}

pub open spec fn p_i16() -> spec_fn(Seq<u8>, int) -> Option<(i16, int)> {
    |s: Seq<u8>, i: int| sp_i16(s, i)
}

pub open spec fn p_i32() -> spec_fn(Seq<u8>, int) -> Option<(i32, int)> {
    |s: Seq<u8>, i: int| sp_i32(s, i)
}

pub open spec fn p_i64() -> spec_fn(Seq<u8>, int) -> Option<(i64, int)> {
    |s: Seq<u8>, i: int| sp_i64(s, i)
}

pub open spec fn p_i128() -> spec_fn(Seq<u8>, int) -> Option<(i128, int)> {
    |s: Seq<u8>, i: int| sp_i128(s, i)
}

// ---------------------------------------------------------------------
// Scalar serializers (little endian)
// ---------------------------------------------------------------------
pub open spec fn ser_u8(v: u8) -> Seq<u8> {
    seq![v]
}

pub open spec fn ser_u16(v: u16) -> Seq<u8> {
    spec_u16_to_le_bytes(v)
}

pub open spec fn ser_u32(v: u32) -> Seq<u8> {
    spec_u32_to_le_bytes(v)
}

pub open spec fn ser_u64(v: u64) -> Seq<u8> {
    spec_u64_to_le_bytes(v)
}

pub open spec fn ser_u128(v: u128) -> Seq<u8> {
    spec_u128_to_le_bytes(v)
}

pub open spec fn ser_i8(v: i8) -> Seq<u8> {
    ser_u8(bits_of_i8(v))
}

pub open spec fn ser_i16(v: i16) -> Seq<u8> {
    ser_u16(bits_of_i16(v))
}

pub open spec fn ser_i32(v: i32) -> Seq<u8> {
    ser_u32(bits_of_i32(v))
}

pub open spec fn ser_i64(v: i64) -> Seq<u8> {
    ser_u64(bits_of_i64(v))
}

pub open spec fn ser_i128(v: i128) -> Seq<u8> {
    ser_u128(bits_of_i128(v))
}

// The serializers as first-class values.
pub open spec fn e_u8() -> spec_fn(u8) -> Seq<u8> {
    |v: u8| ser_u8(v)
}

pub open spec fn e_u16() -> spec_fn(u16) -> Seq<u8> {
    |v: u16| ser_u16(v)
}

pub open spec fn e_u32() -> spec_fn(u32) -> Seq<u8> {
    |v: u32| ser_u32(v)
}

pub open spec fn e_u64() -> spec_fn(u64) -> Seq<u8> {
    |v: u64| ser_u64(v)
}

pub open spec fn e_u128() -> spec_fn(u128) -> Seq<u8> {
    |v: u128| ser_u128(v)
}

pub open spec fn e_i8() -> spec_fn(i8) -> Seq<u8> {
    |v: i8| ser_i8(v)
}

pub open spec fn e_i16() -> spec_fn(i16) -> Seq<u8> {
    |v: i16| ser_i16(v)
}

pub open spec fn e_i32() -> spec_fn(i32) -> Seq<u8> {
    |v: i32| ser_i32(v)
}

pub open spec fn e_i64() -> spec_fn(i64) -> Seq<u8> {
    |v: i64| ser_i64(v)
}

pub open spec fn e_i128() -> spec_fn(i128) -> Seq<u8> {
    |v: i128| ser_i128(v)
}

// ---------------------------------------------------------------------
// Parser properties
// ---------------------------------------------------------------------
/// Every success lies within the buffer and does not move backwards.
pub open spec fn parser_ok<T>(p: spec_fn(Seq<u8>, int) -> Option<(T, int)>) -> bool {
    forall|s: Seq<u8>, i: int| #[trigger]
        p(s, i) matches Some((v, j)) ==> 0 <= i <= j <= s.len()
}

/// A success depends only on the bytes it consumed: any buffer that
/// carries the same bytes there parses the same way.
pub open spec fn parser_local<T>(p: spec_fn(Seq<u8>, int) -> Option<(T, int)>) -> bool {
    forall|s1: Seq<u8>, s2: Seq<u8>, i: int|
        #![trigger p(s1, i), p(s2, i)]
        (p(s1, i) matches Some((v, j)) && j <= s2.len() && s1.subrange(i, j) == s2.subrange(
            i,
            j,
        )) ==> p(s2, i) == p(s1, i)
}

/// Wherever a buffer carries the serialization of a value, the parser
/// reads exactly that value back.
pub open spec fn parser_reads<T>(
    p: spec_fn(Seq<u8>, int) -> Option<(T, int)>,
    enc: spec_fn(T) -> Seq<u8>,
) -> bool {
    forall|s: Seq<u8>, i: int, v: T|
        #![trigger p(s, i), enc(v)]
        (0 <= i && i + enc(v).len() <= s.len() && s.subrange(i, i + enc(v).len() as int) == enc(
            v,
        )) ==> p(s, i) == Some((v, i + enc(v).len()))
}

/// The little-endian scalar parsers have all four properties.
pub proof fn lemma_scalar_parser_props()
    ensures
        parser_ok(p_u8()),
        parser_local(p_u8()),
        parser_reads(p_u8(), e_u8()),
        parser_ok(p_u16()),
        parser_local(p_u16()),
        parser_reads(p_u16(), e_u16()),
        parser_ok(p_u32()),
        parser_local(p_u32()),
        parser_reads(p_u32(), e_u32()),
        parser_ok(p_u64()),
        parser_local(p_u64()),
        parser_reads(p_u64(), e_u64()),
        parser_ok(p_u128()),
        parser_local(p_u128()),
        parser_reads(p_u128(), e_u128()),
        parser_ok(p_i8()),
        parser_local(p_i8()),
        parser_reads(p_i8(), e_i8()),
        parser_ok(p_i16()),
        parser_local(p_i16()),
        parser_reads(p_i16(), e_i16()),
        parser_ok(p_i32()),
        parser_local(p_i32()),
        parser_reads(p_i32(), e_i32()),
        parser_ok(p_i64()),
        parser_local(p_i64()),
        parser_reads(p_i64(), e_i64()),
        parser_ok(p_i128()),
        parser_local(p_i128()),
        parser_reads(p_i128(), e_i128()),
{
    lemma_auto_spec_u16_to_from_le_bytes();
    lemma_auto_spec_u32_to_from_le_bytes();
    lemma_auto_spec_u64_to_from_le_bytes();
    lemma_auto_spec_u128_to_from_le_bytes();
    assert forall|s1: Seq<u8>, s2: Seq<u8>, i: int|
        (sp_u8(s1, i) matches Some((v, j)) && j <= s2.len() && s1.subrange(i, j) == s2.subrange(
            i,
            j,
        )) implies sp_u8(s2, i) == sp_u8(s1, i) by {
        if sp_u8(s1, i) is Some {
            assert(s1.subrange(i, i + 1)[0] == s1[i]);
            assert(s2.subrange(i, i + 1)[0] == s2[i]);
        }
    }
    assert forall|s1: Seq<u8>, s2: Seq<u8>, i: int|
        (sp_u16(s1, i) matches Some((v, j)) && j <= s2.len() && s1.subrange(i, j) == s2.subrange(
            i,
            j,
        )) implies sp_u16(s2, i) == sp_u16(s1, i) by {}
    assert forall|s1: Seq<u8>, s2: Seq<u8>, i: int|
        (sp_u32(s1, i) matches Some((v, j)) && j <= s2.len() && s1.subrange(i, j) == s2.subrange(
            i,
            j,
        )) implies sp_u32(s2, i) == sp_u32(s1, i) by {}
    assert forall|s1: Seq<u8>, s2: Seq<u8>, i: int|
        (sp_u64(s1, i) matches Some((v, j)) && j <= s2.len() && s1.subrange(i, j) == s2.subrange(
            i,
            j,
        )) implies sp_u64(s2, i) == sp_u64(s1, i) by {}
    assert forall|s1: Seq<u8>, s2: Seq<u8>, i: int|
        (sp_u128(s1, i) matches Some((v, j)) && j <= s2.len() && s1.subrange(i, j) == s2.subrange(
            i,
            j,
        )) implies sp_u128(s2, i) == sp_u128(s1, i) by {}
    assert forall|s: Seq<u8>, i: int, v: u8|
        (0 <= i && i + ser_u8(v).len() <= s.len() && s.subrange(i, i + ser_u8(v).len() as int)
            == ser_u8(v)) implies sp_u8(s, i) == Some((v, i + ser_u8(v).len())) by {
        assert(s.subrange(i, i + 1)[0] == s[i]);
        assert(ser_u8(v)[0] == v);
    }
    assert forall|s: Seq<u8>, i: int, v: u16|
        (0 <= i && i + ser_u16(v).len() <= s.len() && s.subrange(i, i + ser_u16(v).len() as int)
            == ser_u16(v)) implies sp_u16(s, i) == Some((v, i + ser_u16(v).len())) by {}
    assert forall|s: Seq<u8>, i: int, v: u32|
        (0 <= i && i + ser_u32(v).len() <= s.len() && s.subrange(i, i + ser_u32(v).len() as int)
            == ser_u32(v)) implies sp_u32(s, i) == Some((v, i + ser_u32(v).len())) by {}
    assert forall|s: Seq<u8>, i: int, v: u64|
        (0 <= i && i + ser_u64(v).len() <= s.len() && s.subrange(i, i + ser_u64(v).len() as int)
            == ser_u64(v)) implies sp_u64(s, i) == Some((v, i + ser_u64(v).len())) by {}
    assert forall|s: Seq<u8>, i: int, v: u128|
        (0 <= i && i + ser_u128(v).len() <= s.len() && s.subrange(i, i + ser_u128(v).len() as int)
            == ser_u128(v)) implies sp_u128(s, i) == Some((v, i + ser_u128(v).len())) by {}
    assert forall|s: Seq<u8>, i: int, v: i8|
        (0 <= i && i + ser_i8(v).len() <= s.len() && s.subrange(i, i + ser_i8(v).len() as int)
            == ser_i8(v)) implies sp_i8(s, i) == Some((v, i + ser_i8(v).len())) by {
        let u = bits_of_i8(v);
        assert(s.subrange(i, i + ser_u8(u).len() as int) == ser_u8(u));
        assert(s.subrange(i, i + 1)[0] == s[i]);
        assert(ser_u8(u)[0] == u);
        assert(sp_u8(s, i) == Some((u, i + 1)));
        assert(i8_of_bits(u) == v);
    }
    assert forall|s: Seq<u8>, i: int, v: i16|
        (0 <= i && i + ser_i16(v).len() <= s.len() && s.subrange(i, i + ser_i16(v).len() as int)
            == ser_i16(v)) implies sp_i16(s, i) == Some((v, i + ser_i16(v).len())) by {
        let u = bits_of_i16(v);
        assert(s.subrange(i, i + ser_u16(u).len() as int) == ser_u16(u));
        assert(sp_u16(s, i) == Some((u, i + 2)));
        assert(i16_of_bits(u) == v);
    }
    assert forall|s: Seq<u8>, i: int, v: i32|
        (0 <= i && i + ser_i32(v).len() <= s.len() && s.subrange(i, i + ser_i32(v).len() as int)
            == ser_i32(v)) implies sp_i32(s, i) == Some((v, i + ser_i32(v).len())) by {
        let u = bits_of_i32(v);
        assert(s.subrange(i, i + ser_u32(u).len() as int) == ser_u32(u));
        assert(sp_u32(s, i) == Some((u, i + 4)));
        assert(i32_of_bits(u) == v);
    }
    assert forall|s: Seq<u8>, i: int, v: i64|
        (0 <= i && i + ser_i64(v).len() <= s.len() && s.subrange(i, i + ser_i64(v).len() as int)
            == ser_i64(v)) implies sp_i64(s, i) == Some((v, i + ser_i64(v).len())) by {
        let u = bits_of_i64(v);
        assert(s.subrange(i, i + ser_u64(u).len() as int) == ser_u64(u));
        assert(sp_u64(s, i) == Some((u, i + 8)));
        assert(i64_of_bits(u) == v);
    }
    assert forall|s: Seq<u8>, i: int, v: i128|
        (0 <= i && i + ser_i128(v).len() <= s.len() && s.subrange(i, i + ser_i128(v).len() as int)
            == ser_i128(v)) implies sp_i128(s, i) == Some((v, i + ser_i128(v).len())) by {
        let u = bits_of_i128(v);
        assert(s.subrange(i, i + ser_u128(u).len() as int) == ser_u128(u));
        assert(sp_u128(s, i) == Some((u, i + 16)));
        assert(i128_of_bits(u) == v);
    }
}

// ---------------------------------------------------------------------
// Count-prefixed arrays
// ---------------------------------------------------------------------
/// `n` values of one element parser, one after the other.
pub open spec fn sp_elems<T>(
    s: Seq<u8>,
    i: int,
    n: nat,
    p: spec_fn(Seq<u8>, int) -> Option<(T, int)>,
) -> Option<(Seq<T>, int)>
    decreases n,
{
    if n == 0 {
        Some((Seq::empty(), i))
    } else {
        match p(s, i) {
            Some((v, j)) => match sp_elems(s, j, (n - 1) as nat, p) {
                Some((vs, k)) => Some((seq![v] + vs, k)),
                None => None,
            },
            None => None,
        }
    }
}

/// A PTP array: a u32 element count, then that many elements.
pub open spec fn sp_array<T>(
    s: Seq<u8>,
    i: int,
    p: spec_fn(Seq<u8>, int) -> Option<(T, int)>,
) -> Option<(Seq<T>, int)> {
    match sp_u32(s, i) {
        Some((n, j)) => sp_elems(s, j, n as nat, p),
        None => None,
    }
}

pub proof fn lemma_sp_elems_ok<T>(
    s: Seq<u8>,
    i: int,
    n: nat,
    p: spec_fn(Seq<u8>, int) -> Option<(T, int)>,
)
    requires
        parser_ok(p),
    ensures
        sp_elems(s, i, n, p) matches Some((vs, j))
            ==> (i <= j && vs.len() == n && (n > 0 ==> 0 <= i && j <= s.len())),
    decreases n,
{
    if n > 0 {
        match p(s, i) {
            Some((v, j1)) => {
                lemma_sp_elems_ok(s, j1, (n - 1) as nat, p);
            },
            None => {},
        }
    }
}

/// Parsing one more element appends it.
pub proof fn lemma_sp_elems_snoc<T>(
    s: Seq<u8>,
    i: int,
    n: nat,
    p: spec_fn(Seq<u8>, int) -> Option<(T, int)>,
)
    requires
        sp_elems(s, i, n, p) is Some,
        p(s, sp_elems(s, i, n, p).unwrap().1) is Some,
    ensures
        sp_elems(s, i, n + 1, p) == Some(
            (
                sp_elems(s, i, n, p).unwrap().0.push(
                    p(s, sp_elems(s, i, n, p).unwrap().1).unwrap().0,
                ),
                p(s, sp_elems(s, i, n, p).unwrap().1).unwrap().1,
            ),
        ),
    decreases n,
{
    let (vs, j) = sp_elems(s, i, n, p).unwrap();
    let (v, k) = p(s, j).unwrap();
    if n == 0 {
        assert(j == i);
        assert(sp_elems(s, k, 0, p) == Some((Seq::<T>::empty(), k)));
        assert(seq![v] + Seq::<T>::empty() =~= vs.push(v));
    } else {
        let (v0, j0) = p(s, i).unwrap();
        lemma_sp_elems_snoc(s, j0, (n - 1) as nat, p);
        let (vs1, _) = sp_elems(s, j0, (n - 1) as nat, p).unwrap();
        assert(vs =~= seq![v0] + vs1);
        assert(seq![v0] + vs1.push(v) =~= vs.push(v));
    }
}

/// If the parse of some prefix of the elements stalls, the whole array
/// parse fails.
pub proof fn lemma_sp_elems_abort<T>(
    s: Seq<u8>,
    i: int,
    k: nat,
    n: nat,
    p: spec_fn(Seq<u8>, int) -> Option<(T, int)>,
)
    requires
        k < n,
        sp_elems(s, i, k, p) is Some,
        p(s, sp_elems(s, i, k, p).unwrap().1) is None,
    ensures
        sp_elems(s, i, n, p) is None,
    decreases k,
{
    if k == 0 {
        assert(sp_elems(s, i, k, p).unwrap().1 == i);
    } else {
        let (v0, j0) = p(s, i).unwrap();
        lemma_sp_elems_abort(s, j0, (k - 1) as nat, (n - 1) as nat, p);
    }
}

pub proof fn lemma_sp_elems_local<T>(
    s1: Seq<u8>,
    s2: Seq<u8>,
    i: int,
    n: nat,
    p: spec_fn(Seq<u8>, int) -> Option<(T, int)>,
)
    requires
        parser_ok(p),
        parser_local(p),
        sp_elems(s1, i, n, p) is Some,
        sp_elems(s1, i, n, p).unwrap().1 <= s2.len(),
        s1.subrange(i, sp_elems(s1, i, n, p).unwrap().1) == s2.subrange(
            i,
            sp_elems(s1, i, n, p).unwrap().1,
        ),
    ensures
        sp_elems(s2, i, n, p) == sp_elems(s1, i, n, p),
    decreases n,
{
    let (vs, j) = sp_elems(s1, i, n, p).unwrap();
    if n > 0 {
        let (v0, j0) = p(s1, i).unwrap();
        lemma_sp_elems_ok(s1, j0, (n - 1) as nat, p);
        assert(0 <= i <= j0 <= j);
        assert(s1.subrange(i, j0) =~= s2.subrange(i, j0)) by {
            assert forall|x: int| 0 <= x < j0 - i implies #[trigger] s1.subrange(i, j0)[x]
                == s2.subrange(i, j0)[x] by {
                assert(s1.subrange(i, j)[x] == s2.subrange(i, j)[x]);
            }
        }
        assert(p(s2, i) == p(s1, i));
        assert(s1.subrange(j0, j) =~= s2.subrange(j0, j)) by {
            assert forall|x: int| 0 <= x < j - j0 implies #[trigger] s1.subrange(j0, j)[x]
                == s2.subrange(j0, j)[x] by {
                assert(s1.subrange(i, j)[j0 - i + x] == s2.subrange(i, j)[j0 - i + x]);
            }
        }
        lemma_sp_elems_local(s1, s2, j0, (n - 1) as nat, p);
    }
}

/// A subrange of an agreed-on range is itself agreed on.
pub proof fn lemma_subrange_within(s1: Seq<u8>, s2: Seq<u8>, i: int, j: int, a: int, b: int)
    requires
        0 <= i <= a <= b <= j <= s1.len(),
        j <= s2.len(),
        s1.subrange(i, j) == s2.subrange(i, j),
    ensures
        s1.subrange(a, b) == s2.subrange(a, b),
{
    assert forall|x: int| 0 <= x < b - a implies #[trigger] s1.subrange(a, b)[x] == s2.subrange(
        a,
        b,
    )[x] by {
        assert(s1.subrange(i, j)[a - i + x] == s2.subrange(i, j)[a - i + x]);
        assert(s1.subrange(a, b)[x] == s1[a + x]);
        assert(s2.subrange(a, b)[x] == s2[a + x]);
        assert(s1[a + x] == s1.subrange(i, j)[a - i + x]);
        assert(s2[a + x] == s2.subrange(i, j)[a - i + x]);
    }
    assert(s1.subrange(a, b) =~= s2.subrange(a, b));
}

pub proof fn lemma_sp_u8_local(s1: Seq<u8>, s2: Seq<u8>, i: int)
    requires
        sp_u8(s1, i) is Some,
        i + 1 <= s2.len(),
        s1.subrange(i, i + 1) == s2.subrange(i, i + 1),
    ensures
        sp_u8(s2, i) == sp_u8(s1, i),
{
    assert(s1.subrange(i, i + 1)[0] == s1[i]);
    assert(s2.subrange(i, i + 1)[0] == s2[i]);
}

pub proof fn lemma_sp_u16_local(s1: Seq<u8>, s2: Seq<u8>, i: int)
    requires
        sp_u16(s1, i) is Some,
        i + 2 <= s2.len(),
        s1.subrange(i, i + 2) == s2.subrange(i, i + 2),
    ensures
        sp_u16(s2, i) == sp_u16(s1, i),
{
}

pub proof fn lemma_sp_u32_local(s1: Seq<u8>, s2: Seq<u8>, i: int)
    requires
        sp_u32(s1, i) is Some,
        i + 4 <= s2.len(),
        s1.subrange(i, i + 4) == s2.subrange(i, i + 4),
    ensures
        sp_u32(s2, i) == sp_u32(s1, i),
{
}

pub proof fn lemma_sp_u64_local(s1: Seq<u8>, s2: Seq<u8>, i: int)
    requires
        sp_u64(s1, i) is Some,
        i + 8 <= s2.len(),
        s1.subrange(i, i + 8) == s2.subrange(i, i + 8),
    ensures
        sp_u64(s2, i) == sp_u64(s1, i),
{
}

/// An array parse lies within the buffer.
pub proof fn lemma_sp_array_ok<T>(
    s: Seq<u8>,
    i: int,
    p: spec_fn(Seq<u8>, int) -> Option<(T, int)>,
)
    requires
        parser_ok(p),
    ensures
        sp_array(s, i, p) matches Some((vs, j)) ==> 0 <= i && i + 4 <= j <= s.len(),
{
    match sp_u32(s, i) {
        Some((n, j0)) => {
            lemma_sp_elems_ok(s, j0, n as nat, p);
        },
        None => {},
    }
}

/// An array parse depends only on the bytes it consumed.
pub proof fn lemma_sp_array_local<T>(
    s1: Seq<u8>,
    s2: Seq<u8>,
    i: int,
    p: spec_fn(Seq<u8>, int) -> Option<(T, int)>,
)
    requires
        parser_ok(p),
        parser_local(p),
        sp_array(s1, i, p) is Some,
        sp_array(s1, i, p).unwrap().1 <= s2.len(),
        s1.subrange(i, sp_array(s1, i, p).unwrap().1) == s2.subrange(
            i,
            sp_array(s1, i, p).unwrap().1,
        ),
    ensures
        sp_array(s2, i, p) == sp_array(s1, i, p),
{
    let j = sp_array(s1, i, p).unwrap().1;
    let (n, j0) = sp_u32(s1, i).unwrap();
    lemma_sp_array_ok(s1, i, p);
    lemma_sp_elems_ok(s1, j0, n as nat, p);
    lemma_subrange_within(s1, s2, i, j, i, i + 4);
    lemma_sp_u32_local(s1, s2, i);
    lemma_subrange_within(s1, s2, i, j, j0, j);
    lemma_sp_elems_local(s1, s2, j0, n as nat, p);
}

/// A string parse lies within the buffer.
pub proof fn lemma_sp_str_ok(s: Seq<u8>, i: int)
    ensures
        sp_str_units(s, i) matches Some((us, j)) ==> 0 <= i && i + 1 <= j <= s.len(),
        sp_str(s, i) matches Some((cs, j)) ==> 0 <= i && i + 1 <= j <= s.len(),
{
    lemma_scalar_parser_props();
    match sp_u8(s, i) {
        Some((n, j0)) => {
            if n != 0 {
                lemma_sp_elems_ok(s, j0, (n - 1) as nat, p_u16());
            }
        },
        None => {},
    }
}

/// A string parse depends only on the bytes it consumed.
pub proof fn lemma_sp_str_local(s1: Seq<u8>, s2: Seq<u8>, i: int)
    requires
        sp_str_units(s1, i) is Some,
        sp_str_units(s1, i).unwrap().1 <= s2.len(),
        s1.subrange(i, sp_str_units(s1, i).unwrap().1) == s2.subrange(
            i,
            sp_str_units(s1, i).unwrap().1,
        ),
    ensures
        sp_str_units(s2, i) == sp_str_units(s1, i),
        sp_str(s2, i) == sp_str(s1, i),
{
    lemma_scalar_parser_props();
    let j = sp_str_units(s1, i).unwrap().1;
    let (n, j0) = sp_u8(s1, i).unwrap();
    lemma_sp_str_ok(s1, i);
    lemma_subrange_within(s1, s2, i, j, i, i + 1);
    lemma_sp_u8_local(s1, s2, i);
    if n != 0 {
        let (us, k) = sp_elems(s1, j0, (n - 1) as nat, p_u16()).unwrap();
        lemma_sp_elems_ok(s1, j0, (n - 1) as nat, p_u16());
        lemma_subrange_within(s1, s2, i, j, j0, k);
        lemma_sp_elems_local(s1, s2, j0, (n - 1) as nat, p_u16());
        lemma_subrange_within(s1, s2, i, j, k, j);
        lemma_sp_u16_local(s1, s2, k);
    }
}

/// The flat serialization of a sequence of values.
pub open spec fn flat_encode<T>(vs: Seq<T>, enc: spec_fn(T) -> Seq<u8>) -> Seq<u8>
    decreases vs.len(),
{
    if vs.len() == 0 {
        Seq::empty()
    } else {
        enc(vs[0]) + flat_encode(vs.drop_first(), enc)
    }
}

/// Wherever a buffer carries the flat serialization of values, parsing
/// that many elements reads exactly those values back.
pub proof fn lemma_sp_elems_round_trip<T>(
    s: Seq<u8>,
    i: int,
    vs: Seq<T>,
    p: spec_fn(Seq<u8>, int) -> Option<(T, int)>,
    enc: spec_fn(T) -> Seq<u8>,
)
    requires
        parser_reads(p, enc),
        0 <= i,
        i + flat_encode(vs, enc).len() <= s.len(),
        s.subrange(i, i + flat_encode(vs, enc).len() as int) == flat_encode(vs, enc),
    ensures
        sp_elems(s, i, vs.len(), p) == Some((vs, i + flat_encode(vs, enc).len())),
    decreases vs.len(),
{
    if vs.len() == 0 {
        assert(sp_elems(s, i, 0, p) == Some((Seq::<T>::empty(), i)));
        assert(vs =~= Seq::<T>::empty());
    } else {
        let w0 = enc(vs[0]).len() as int;
        let total = flat_encode(vs, enc).len() as int;
        assert(flat_encode(vs, enc) == enc(vs[0]) + flat_encode(vs.drop_first(), enc));
        assert(s.subrange(i, i + w0) =~= enc(vs[0])) by {
            assert forall|x: int| 0 <= x < w0 implies #[trigger] s.subrange(i, i + w0)[x] == enc(
                vs[0],
            )[x] by {
                assert(s.subrange(i, i + total)[x] == flat_encode(vs, enc)[x]);
            }
        }
        assert(p(s, i) == Some((vs[0], i + w0)));
        assert(s.subrange(i + w0, i + total) =~= flat_encode(vs.drop_first(), enc)) by {
            assert forall|x: int| 0 <= x < total - w0 implies s.subrange(i + w0, i + total)[x]
                == flat_encode(vs.drop_first(), enc)[x] by {
                assert(s.subrange(i, i + total)[w0 + x] == flat_encode(vs, enc)[w0 + x]);
            }
        }
        lemma_sp_elems_round_trip(s, i + w0, vs.drop_first(), p, enc);
        assert(seq![vs[0]] + vs.drop_first() =~= vs);
        assert(sp_elems(s, i, vs.len(), p) == Some((vs, i + total)));
    }
}

pub proof fn lemma_sp_u16_reads(s: Seq<u8>, i: int, v: u16)
    requires
        0 <= i,
        i + 2 <= s.len(),
        s.subrange(i, i + 2) == ser_u16(v),
    ensures
        sp_u16(s, i) == Some((v, i + 2)),
{
    lemma_auto_spec_u16_to_from_le_bytes();
    assert(spec_u16_to_le_bytes(v).len() == 2);
    assert(spec_u16_from_le_bytes(spec_u16_to_le_bytes(v)) == v);
}

pub proof fn lemma_sp_u32_reads(s: Seq<u8>, i: int, v: u32)
    requires
        0 <= i,
        i + 4 <= s.len(),
        s.subrange(i, i + 4) == ser_u32(v),
    ensures
        sp_u32(s, i) == Some((v, i + 4)),
{
    lemma_auto_spec_u32_to_from_le_bytes();
    assert(spec_u32_to_le_bytes(v).len() == 4);
    assert(spec_u32_from_le_bytes(spec_u32_to_le_bytes(v)) == v);
}

/// Appending one value appends its serialization.
pub proof fn lemma_flat_encode_push<T>(vs: Seq<T>, x: T, enc: spec_fn(T) -> Seq<u8>)
    ensures
        flat_encode(vs.push(x), enc) == flat_encode(vs, enc) + enc(x),
    decreases vs.len(),
{
    if vs.len() == 0 {
        assert(vs.push(x)[0] == x);
        assert(vs.push(x).drop_first() =~= Seq::<T>::empty());
        assert(flat_encode(vs.push(x), enc) == enc(x) + flat_encode(Seq::<T>::empty(), enc));
        assert(flat_encode(vs.push(x), enc) =~= enc(x));
        assert(flat_encode(vs, enc) + enc(x) =~= enc(x));
    } else {
        assert(vs.push(x)[0] == vs[0]);
        assert(vs.push(x).drop_first() =~= vs.drop_first().push(x));
        lemma_flat_encode_push(vs.drop_first(), x, enc);
        assert(flat_encode(vs.push(x), enc) =~= flat_encode(vs, enc) + enc(x));
    }
}

// Executable serialization of the scalars, appending to a byte vector.
pub fn push_u8_le(out: &mut Vec<u8>, v: u8)
    ensures
        final(out)@ == old(out)@ + ser_u8(v),
{
    out.push(v);
    proof {
        assert(final(out)@ =~= old(out)@ + ser_u8(v));
    }
}

pub fn push_u16_le(out: &mut Vec<u8>, v: u16)
    ensures
        final(out)@ == old(out)@ + ser_u16(v),
{
    let mut b = u16_to_le_bytes(v);
    out.append(&mut b);
}

pub fn push_u32_le(out: &mut Vec<u8>, v: u32)
    ensures
        final(out)@ == old(out)@ + ser_u32(v),
{
    let mut b = u32_to_le_bytes(v);
    out.append(&mut b);
}

pub fn push_u64_le(out: &mut Vec<u8>, v: u64)
    ensures
        final(out)@ == old(out)@ + ser_u64(v),
{
    let mut b = u64_to_le_bytes(v);
    out.append(&mut b);
}

pub fn push_u128_le(out: &mut Vec<u8>, v: u128)
    ensures
        final(out)@ == old(out)@ + ser_u128(v),
{
    let mut b = u128_to_le_bytes(v);
    out.append(&mut b);
}

pub fn push_i8_le(out: &mut Vec<u8>, v: i8)
    ensures
        final(out)@ == old(out)@ + ser_i8(v),
{
    push_u8_le(out, i8_to_u8(v));
}

pub fn push_i16_le(out: &mut Vec<u8>, v: i16)
    ensures
        final(out)@ == old(out)@ + ser_i16(v),
{
    push_u16_le(out, i16_to_u16(v));
}

pub fn push_i32_le(out: &mut Vec<u8>, v: i32)
    ensures
        final(out)@ == old(out)@ + ser_i32(v),
{
    push_u32_le(out, i32_to_u32(v));
}

pub fn push_i64_le(out: &mut Vec<u8>, v: i64)
    ensures
        final(out)@ == old(out)@ + ser_i64(v),
{
    push_u64_le(out, i64_to_u64(v));
}

pub fn push_i128_le(out: &mut Vec<u8>, v: i128)
    ensures
        final(out)@ == old(out)@ + ser_i128(v),
{
    push_u128_le(out, i128_to_u128(v));
}

// ---------------------------------------------------------------------
// Strings
// ---------------------------------------------------------------------
/// The framing of a PTP string: a one-byte count of code units including
/// the terminator, the units of the text, then one terminating unit whose
/// value is not validated. A count of zero stands alone.
pub open spec fn sp_str_units(s: Seq<u8>, i: int) -> Option<(Seq<u16>, int)> {
    match sp_u8(s, i) {
        Some((n, j)) => {
            if n == 0 {
                Some((Seq::empty(), j))
            } else {
                match sp_elems(s, j, (n - 1) as nat, p_u16()) {
                    Some((us, k)) => match sp_u16(s, k) {
                        Some((_, l)) => Some((us, l)),
                        None => None,
                    },
                    None => None,
                }
            }
        },
        None => None,
    }
}

/// A PTP string: its framing, then UTF-16 decoding of the units.
pub open spec fn sp_str(s: Seq<u8>, i: int) -> Option<(Seq<char>, int)> {
    match sp_str_units(s, i) {
        Some((us, j)) => match decode_utf16(us) {
            Some(cs) => Some((cs, j)),
            None => None,
        },
        None => None,
    }
}

/// The code units of a text occupy two bytes each when serialized.
pub proof fn lemma_flat_u16_len(us: Seq<u16>)
    ensures
        flat_encode(us, e_u16()).len() == 2 * us.len(),
    decreases us.len(),
{
    lemma_auto_spec_u16_to_from_le_bytes();
    if us.len() == 0 {
    } else {
        assert(e_u16()(us[0]) == ser_u16(us[0]));
        assert(ser_u16(us[0]).len() == 2);
        lemma_flat_u16_len(us.drop_first());
    }
}

/// The serialization of a PTP string: empty text is the single byte 0;
/// otherwise the unit count plus one for the terminator, the units in
/// little endian, and a zero terminator unit.
pub open spec fn ser_str(cs: Seq<char>) -> Seq<u8>
    recommends
        encode_utf16(cs).len() <= 254,
{
    let us = encode_utf16(cs);
    if us.len() == 0 {
        seq![0u8]
    } else {
        seq![(us.len() + 1) as u8] + flat_encode(us, e_u16()) + seq![0u8, 0u8]
    }
}

/// Law: writing a string and reading the bytes back gives the string,
/// and the written length is one byte for empty text, else one count
/// byte plus two bytes per unit including the terminator.
pub proof fn lemma_str_round_trip(cs: Seq<char>)
    requires
        encode_utf16(cs).len() <= 254,
    ensures
        sp_str(ser_str(cs), 0) == Some((cs, ser_str(cs).len() as int)),
        encode_utf16(cs).len() > 0 ==> ser_str(cs).len() == 1 + 2 * (encode_utf16(cs).len() + 1),
        encode_utf16(cs).len() == 0 ==> ser_str(cs).len() == 1,
{
    let us = encode_utf16(cs);
    crate::utf16::lemma_utf16_round_trip(cs);
    lemma_scalar_parser_props();
    let s = ser_str(cs);
    if us.len() == 0 {
        assert(s =~= seq![0u8]);
        assert(sp_u8(s, 0) == Some((0u8, 1int)));
        if cs.len() > 0 {
            assert(us == crate::utf16::encode_utf16_char(cs[0]) + encode_utf16(cs.drop_first()));
            assert(us.len() >= 1);
        }
        assert(cs =~= Seq::<char>::empty());
        assert(sp_str_units(s, 0) == Some((Seq::<u16>::empty(), 1int)));
        assert(decode_utf16(Seq::<u16>::empty()) == Some(Seq::<char>::empty()));
        assert(sp_str(s, 0) == Some((cs, 1int)));
    } else {
        let n = us.len();
        let flat = flat_encode(us, e_u16());
        lemma_flat_u16_len(us);
        assert(s == seq![(n + 1) as u8] + flat + seq![0u8, 0u8]);
        assert(s[0] == (n + 1) as u8);
        assert(sp_u8(s, 0) == Some(((n + 1) as u8, 1int)));
        assert(((n + 1) as u8) != 0);
        assert(s.subrange(1, 1 + flat.len() as int) =~= flat);
        lemma_sp_elems_round_trip(s, 1, us, p_u16(), e_u16());
        assert(sp_elems(s, 1, n, p_u16()) == Some((us, 1 + flat.len() as int)));
        assert((((n + 1) as u8) - 1) as nat == n);
        assert(sp_u16(s, 1 + flat.len() as int) is Some);
        assert(sp_str_units(s, 0) == Some((us, s.len() as int)));
        assert(decode_utf16(us) == Some(cs));
        assert(sp_str(s, 0) == Some((cs, s.len() as int)));
    }
}

/// Law: a count-prefixed array that occupies a whole buffer no longer
/// parses when the buffer loses its last byte, and when a byte is
/// appended the parse still ends before it, so the trailing-bytes check
/// fires: a whole-buffer array decode rejects a buffer one byte short or
/// one byte long.
pub proof fn lemma_sp_array_exact_length<T>(
    s: Seq<u8>,
    b: u8,
    p: spec_fn(Seq<u8>, int) -> Option<(T, int)>,
)
    requires
        parser_ok(p),
        parser_local(p),
        sp_array(s, 0, p) is Some,
        sp_array(s, 0, p).unwrap().1 == s.len(),
    ensures
        s.len() > 0 ==> sp_array(s.take(s.len() - 1), 0, p) is None,
        sp_array(s.push(b), 0, p) == Some((sp_array(s, 0, p).unwrap().0, s.len() as int)),
{
    let j = sp_array(s, 0, p).unwrap().1;
    if s.len() > 0 {
        let m = s.len() - 1;
        if sp_array(s.take(m), 0, p) is Some {
            let j2 = sp_array(s.take(m), 0, p).unwrap().1;
            lemma_sp_array_ok(s.take(m), 0, p);
            assert(j2 <= m);
            assert(s.take(m).subrange(0, j2) =~= s.subrange(0, j2)) by {
                assert forall|x: int| 0 <= x < j2 implies #[trigger] s.take(m).subrange(0, j2)[x]
                    == s.subrange(0, j2)[x] by {
                    assert(s.take(m)[x] == s[x]);
                }
            }
            lemma_sp_array_local(s.take(m), s, 0, p);
            assert(false);
        }
    }
    assert(s.push(b).subrange(0, j) =~= s.subrange(0, j)) by {
        assert forall|x: int| 0 <= x < j implies #[trigger] s.push(b).subrange(0, j)[x]
            == s.subrange(0, j)[x] by {
            assert(s.push(b)[x] == s[x]);
        }
    }
    lemma_sp_array_local(s, s.push(b), 0, p);
}

} // verus!
