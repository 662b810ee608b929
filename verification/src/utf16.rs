//! UTF-16 encoding and decoding. PTP strings travel on the wire as
//! length-prefixed sequences of UTF-16LE code units.

use vstd::prelude::*;
use vstd::utf8::is_scalar;
use vstd::utf8::char_is_scalar;
use vstd::utf8::char_u32_cast;
use vstd::arithmetic::div_mod::lemma_fundamental_div_mod;
use vstd::std_specs::iter::IteratorSpec;

verus! {

broadcast use vstd::string::axiom_spec_iter, vstd::string::next_postcondition;

/// A code unit that stands for a scalar value on its own.
pub open spec fn is_unit_scalar(u: u16) -> bool {
    u < 0xD800 || u >= 0xE000
}

pub open spec fn is_high_surrogate(u: u16) -> bool {
    0xD800 <= u < 0xDC00
}

pub open spec fn is_low_surrogate(u: u16) -> bool {
    0xDC00 <= u < 0xE000
}

/// The UTF-16 code units of one character: one unit below 0x10000,
/// otherwise a surrogate pair.
pub open spec fn encode_utf16_char(c: char) -> Seq<u16> {
    let v = c as u32;
    if v < 0x10000 {
        seq![v as u16]
    } else {
        seq![
            (0xD800 + (v - 0x10000) / 0x400) as u16,
            (0xDC00 + (v - 0x10000) % 0x400) as u16,
        ]
    }
}

/// The UTF-16 code units of a character sequence.
pub open spec fn encode_utf16(s: Seq<char>) -> Seq<u16>
    decreases s.len(),
{
    if s.len() == 0 {
        seq![]
    } else {
        encode_utf16_char(s[0]) + encode_utf16(s.drop_first())
    }
}

/// The characters encoded by a sequence of UTF-16 code units, or `None`
/// when the units are not well formed (a lone or misordered surrogate).
pub open spec fn decode_utf16(us: Seq<u16>) -> Option<Seq<char>>
    decreases us.len(),
{
    if us.len() == 0 {
        Some(seq![])
    } else if is_unit_scalar(us[0]) {
        match decode_utf16(us.drop_first()) {
            Some(cs) => Some(seq![((us[0] as u32) as char)] + cs),
            None => None,
        }
    } else if is_high_surrogate(us[0]) && us.len() >= 2 && is_low_surrogate(us[1]) {
        let v = 0x10000 + (us[0] - 0xD800) * 0x400 + (us[1] - 0xDC00);
        match decode_utf16(us.skip(2)) {
            Some(cs) => Some(seq![((v as u32) as char)] + cs),
            None => None,
        }
    } else {
        None
    }
}

/// Encoding a character sequence unit by unit and decoding the result
/// gives the sequence back: UTF-16 encoding is lossless.
pub proof fn lemma_utf16_round_trip(s: Seq<char>)
    ensures
        decode_utf16(encode_utf16(s)) == Some(s),
    decreases s.len(),
{
    if s.len() == 0 {
        assert(encode_utf16(s).len() == 0);
        assert(decode_utf16(encode_utf16(s)) == Some(Seq::<char>::empty()));
        assert(Seq::<char>::empty() =~= s);
    } else {
        let c = s[0];
        let v = c as u32;
        char_is_scalar(c);
        let units = encode_utf16(s);
        let rest = encode_utf16(s.drop_first());
        lemma_utf16_round_trip(s.drop_first());
        if v < 0x10000 {
            let u = v as u16;
            assert(units =~= seq![u] + rest);
            assert(is_unit_scalar(u));
            assert(units.drop_first() =~= rest);
            assert((u as u32) == v);
            char_u32_cast(c, v);
            assert(decode_utf16(units) == Some(seq![c] + s.drop_first()));
            assert(seq![c] + s.drop_first() =~= s);
        } else {
            let x = v - 0x10000;
            assert(v < 0x110000);
            lemma_fundamental_div_mod(x, 0x400);
            assert(0 <= x / 0x400 < 0x400);
            assert(0 <= x % 0x400 < 0x400);
            let hi = (0xD800 + x / 0x400) as u16;
            let lo = (0xDC00 + x % 0x400) as u16;
            assert(units =~= seq![hi, lo] + rest);
            assert(is_high_surrogate(hi));
            assert(is_low_surrogate(lo));
            assert(!is_unit_scalar(hi));
            assert(units.skip(2) =~= rest);
            let w = 0x10000 + (hi - 0xD800) * 0x400 + (lo - 0xDC00);
            assert(w == v);
            char_u32_cast(c, v);
            assert(decode_utf16(units) == Some(seq![c] + s.drop_first()));
            assert(seq![c] + s.drop_first() =~= s);
        }
    }
}

/// Appending one character appends its code units.
pub proof fn lemma_encode_utf16_push(s: Seq<char>, c: char)
    ensures
        encode_utf16(s.push(c)) == encode_utf16(s) + encode_utf16_char(c),
    decreases s.len(),
{
    if s.len() == 0 {
        assert(s.push(c)[0] == c);
        assert(s.push(c).drop_first() =~= Seq::<char>::empty());
        assert(encode_utf16(s.push(c)) == encode_utf16_char(c) + encode_utf16(
            Seq::<char>::empty(),
        ));
        assert(encode_utf16(s.push(c)) =~= encode_utf16_char(c));
        assert(encode_utf16(s) + encode_utf16_char(c) =~= encode_utf16_char(c));
    } else {
        assert(s.push(c)[0] == s[0]);
        assert(s.push(c).drop_first() =~= s.drop_first().push(c));
        lemma_encode_utf16_push(s.drop_first(), c);
        assert(encode_utf16(s.push(c)) =~= encode_utf16(s) + encode_utf16_char(c));
    }
}

/// The UTF-16 code units of a string's characters.
pub fn encode_str_utf16(s: &str) -> (r: Vec<u16>)
    ensures
        r@ == encode_utf16(s@),
{
    let mut r: Vec<u16> = Vec::new();
    let mut it = s.chars();
    let ghost total = s@;
    let ghost mut k: int = 0;
    proof {
        assert(total.take(0) =~= Seq::<char>::empty());
    }
    loop
        invariant
            0 <= k <= total.len(),
            it.remaining() =~= total.skip(k),
            r@ == encode_utf16(total.take(k)),
            it.obeys_prophetic_iter_laws(),
        ensures
            r@ == encode_utf16(total),
        decreases total.len() - k,
    {
        match it.next() {
            Some(c) => {
                proof {
                    assert(total.skip(k).len() > 0);
                    assert(c == total.skip(k)[0]);
                    assert(c == total[k]);
                }
                proof {
                    char_is_scalar(c);
                }
                let v = c as u32;
                if v < 0x10000 {
                    r.push(v as u16);
                    proof {
                        assert(r@ =~= encode_utf16(total.take(k)) + encode_utf16_char(c));
                    }
                } else {
                    let x = v - 0x10000;
                    proof {
                        assert(x < 0x100000);
                        lemma_fundamental_div_mod(x as int, 0x400);
                    }
                    let hi = 0xD800 + (x / 0x400) as u16;
                    let lo = 0xDC00 + (x % 0x400) as u16;
                    r.push(hi);
                    r.push(lo);
                    proof {
                        assert(seq![hi, lo] =~= encode_utf16_char(c));
                        assert(r@ =~= encode_utf16(total.take(k)) + encode_utf16_char(c));
                    }
                }
                proof {
                    lemma_encode_utf16_push(total.take(k), c);
                    assert(total.take(k).push(c) =~= total.take(k + 1));
                    assert(total.skip(k).drop_first() =~= total.skip(k + 1));
                    k = k + 1;
                }
            },
            None => {
                proof {
                    assert(total.skip(k).len() == 0);
                    assert(k == total.len());
                    assert(total.take(k) =~= total);
                }
                break ;
            },
        }
    }
    r
}

/// The string holding the characters that the units encode, or `None`
/// when they are not well-formed UTF-16.
pub fn utf16_to_string(us: &Vec<u16>) -> (r: Option<String>)
    ensures
        match r {
            Some(st) => decode_utf16(us@) == Some(st@),
            None => decode_utf16(us@) is None,
        },
{
    let mut out = String::new();
    let mut i: usize = 0;
    proof {
        assert(us@.skip(0) =~= us@);
        match decode_utf16(us@) {
            Some(cs) => {
                assert(out@ + cs =~= cs);
            },
            None => {},
        }
    }
    while i < us.len()
        invariant
            0 <= i <= us@.len(),
            decode_utf16(us@) == (match decode_utf16(us@.skip(i as int)) {
                Some(cs) => Some(out@ + cs),
                None => None::<Seq<char>>,
            }),
        decreases us@.len() - i,
    {
        let u = us[i];
        let ghost rest = us@.skip(i as int);
        let ghost out0 = out@;
        proof {
            assert(rest[0] == us@[i as int]);
        }
        if u < 0xD800 || u >= 0xE000 {
            let c = char::from_u32(u as u32).unwrap();
            out.push(c);
            proof {
                assert(rest.drop_first() =~= us@.skip(i + 1));
                match decode_utf16(rest.drop_first()) {
                    Some(cs) => {
                        assert(decode_utf16(rest) == Some(seq![((rest[0] as u32) as char)] + cs));
                        assert(c == (rest[0] as u32) as char);
                        assert(out0 + (seq![c] + cs) =~= (out0 + seq![c]) + cs);
                        assert(out@ =~= out0 + seq![c]);
                    },
                    None => {
                        assert(decode_utf16(rest) is None);
                    },
                }
            }
            i = i + 1;
        } else if u < 0xDC00 && i + 1 < us.len() && us[i + 1] >= 0xDC00 && us[i + 1] < 0xE000
        {
            let lo = us[i + 1];
            proof {
                assert(rest[1] == us@[i + 1]);
            }
            let v: u32 = 0x10000 + (u as u32 - 0xD800) * 0x400 + (lo as u32 - 0xDC00);
            proof {
                assert(is_scalar(v));
                assert(v == 0x10000 + (rest[0] - 0xD800) * 0x400 + (rest[1] - 0xDC00));
            }
            let c = char::from_u32(v).unwrap();
            out.push(c);
            proof {
                assert(rest.skip(2) =~= us@.skip(i + 2));
                assert(is_high_surrogate(rest[0]) && rest.len() >= 2 && is_low_surrogate(rest[1]));
                match decode_utf16(rest.skip(2)) {
                    Some(cs) => {
                        assert(decode_utf16(rest) == Some(seq![((v as u32) as char)] + cs));
                        assert(c == (v as u32) as char);
                        assert(out0 + (seq![c] + cs) =~= (out0 + seq![c]) + cs);
                        assert(out@ =~= out0 + seq![c]);
                    },
                    None => {
                        assert(decode_utf16(rest) is None);
                    },
                }
            }
            i = i + 2;
        } else {
            proof {
                assert(decode_utf16(rest) is None);
            }
            return None;
        }
    }
    proof {
        assert(us@.skip(i as int).len() == 0);
        assert(decode_utf16(us@.skip(i as int)) == Some(Seq::<char>::empty()));
        match decode_utf16(us@.skip(i as int)) {
            Some(cs) => {
                assert(out@ + cs =~= out@);
            },
            None => {},
        }
    }
    Some(out)
}

} // verus!
