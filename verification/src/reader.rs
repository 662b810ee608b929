//! The wire reader: a cursor over a byte buffer with the PTP primitive
//! reads, array reads, string reads and the trailing-bytes check.

use vstd::prelude::*;
use vstd::slice::slice_index_get;
use vstd::slice::slice_subrange;
use vstd::bytes::*;
use crate::error::{Error, ErrorView, eof_error, eof_message, invalid_utf16_error,
    invalid_utf16_message};
use crate::fmt_num::{spec_dec, u64_dec};
use crate::utf16::decode_utf16;
use crate::utf16::utf16_to_string;
use crate::wire::{sp_u8, sp_u16, sp_u32, sp_u64, sp_u128, sp_i8, sp_i16, sp_i32, sp_i64, sp_i128,
    p_u8, p_u16, p_u32, p_u64, p_u128, p_i8, p_i16, p_i32, p_i64, p_i128, sp_array, sp_elems,
    sp_str, sp_str_units, lemma_sp_elems_snoc, lemma_sp_elems_abort, u8_to_i8, u16_to_i16,
    u32_to_i32, u64_to_i64, u128_to_i128};

verus! {

/// A cursor over a byte buffer. Reads advance the position; a read past
/// the end fails without consuming and reports a malformed message.
pub struct Reader<'a> {
    buf: &'a [u8],
    pos: usize,
}

/// The message `expect_end` produces, with the buffer length and the
/// cursor position rendered in decimal.
pub open spec fn expect_end_message(len: nat, pos: nat) -> Seq<char> {
    "Response "@ + spec_dec(len) + " bytes, expected "@ + spec_dec(pos) + " bytes"@
}

impl<'a> Reader<'a> {
    /// The bytes the reader walks over.
    pub closed spec fn data(&self) -> Seq<u8> {
        self.buf@
    }

    /// The position of the next read.
    pub closed spec fn position(&self) -> int {
        self.pos as int
    }

    pub open spec fn wf(&self) -> bool {
        0 <= self.position() <= self.data().len()
    }

    /// A reader at the start of the buffer.
    pub fn new(buf: &'a [u8]) -> (r: Reader<'a>)
        ensures
            r.wf(),
            r.data() == buf@,
            r.position() == 0,
    {
        Reader { buf, pos: 0 }
    }

    pub fn read_ptp_u8(&mut self) -> (r: Result<u8, Error>)
        requires
            old(self).wf(),
        ensures
            final(self).wf(),
            final(self).data() == old(self).data(),
            match r {
                Ok(v) => sp_u8(final(self).data(), old(self).position()) == Some((v, final(self).position())),
                Err(e) => sp_u8(final(self).data(), old(self).position()) is None && final(self).position()
                    == old(self).position() && e@ == ErrorView::Malformed(eof_message()),
            },
    {
        if self.buf.len() - self.pos >= 1 {
            let v = *slice_index_get(self.buf, self.pos);
            self.pos = self.pos + 1;
            Ok(v)
        } else {
            Err(eof_error())
        }
    }

    pub fn read_ptp_u16(&mut self) -> (r: Result<u16, Error>)
        requires
            old(self).wf(),
        ensures
            final(self).wf(),
            final(self).data() == old(self).data(),
            match r {
                Ok(v) => sp_u16(final(self).data(), old(self).position()) == Some((v, final(self).position())),
                Err(e) => sp_u16(final(self).data(), old(self).position()) is None && final(self).position()
                    == old(self).position() && e@ == ErrorView::Malformed(eof_message()),
            },
    {
        if self.buf.len() - self.pos >= 2 {
            let b = slice_subrange(self.buf, self.pos, self.pos + 2);
            let v = u16_from_le_bytes(b);
            self.pos = self.pos + 2;
            Ok(v)
        } else {
            Err(eof_error())
        }
    }

    pub fn read_ptp_u32(&mut self) -> (r: Result<u32, Error>)
        requires
            old(self).wf(),
        ensures
            final(self).wf(),
            final(self).data() == old(self).data(),
            match r {
                Ok(v) => sp_u32(final(self).data(), old(self).position()) == Some((v, final(self).position())),
                Err(e) => sp_u32(final(self).data(), old(self).position()) is None && final(self).position()
                    == old(self).position() && e@ == ErrorView::Malformed(eof_message()),
            },
    {
        if self.buf.len() - self.pos >= 4 {
            let b = slice_subrange(self.buf, self.pos, self.pos + 4);
            let v = u32_from_le_bytes(b);
            self.pos = self.pos + 4;
            Ok(v)
        } else {
            Err(eof_error())
        }
    }

    pub fn read_ptp_u64(&mut self) -> (r: Result<u64, Error>)
        requires
            old(self).wf(),
        ensures
            final(self).wf(),
            final(self).data() == old(self).data(),
            match r {
                Ok(v) => sp_u64(final(self).data(), old(self).position()) == Some((v, final(self).position())),
                Err(e) => sp_u64(final(self).data(), old(self).position()) is None && final(self).position()
                    == old(self).position() && e@ == ErrorView::Malformed(eof_message()),
            },
    {
        if self.buf.len() - self.pos >= 8 {
            let b = slice_subrange(self.buf, self.pos, self.pos + 8);
            let v = u64_from_le_bytes(b);
            self.pos = self.pos + 8;
            Ok(v)
        } else {
            Err(eof_error())
        }
    }

    pub fn read_ptp_u128(&mut self) -> (r: Result<u128, Error>)
        requires
            old(self).wf(),
        ensures
            final(self).wf(),
            final(self).data() == old(self).data(),
            match r {
                Ok(v) => sp_u128(final(self).data(), old(self).position()) == Some((v, final(self).position())),
                Err(e) => sp_u128(final(self).data(), old(self).position()) is None && final(self).position()
                    == old(self).position() && e@ == ErrorView::Malformed(eof_message()),
            },
    {
        if self.buf.len() - self.pos >= 16 {
            let b = slice_subrange(self.buf, self.pos, self.pos + 16);
            let v = u128_from_le_bytes(b);
            self.pos = self.pos + 16;
            Ok(v)
        } else {
            Err(eof_error())
        }
    }

    pub fn read_ptp_i8(&mut self) -> (r: Result<i8, Error>)
        requires
            old(self).wf(),
        ensures
            final(self).wf(),
            final(self).data() == old(self).data(),
            match r {
                Ok(v) => sp_i8(final(self).data(), old(self).position()) == Some((v, final(self).position())),
                Err(e) => sp_i8(final(self).data(), old(self).position()) is None && final(self).position()
                    == old(self).position() && e@ == ErrorView::Malformed(eof_message()),
            },
    {
        match self.read_ptp_u8() {
            Ok(u) => Ok(u8_to_i8(u)),
            Err(e) => Err(e),
        }
    }

    pub fn read_ptp_i16(&mut self) -> (r: Result<i16, Error>)
        requires
            old(self).wf(),
        ensures
            final(self).wf(),
            final(self).data() == old(self).data(),
            match r {
                Ok(v) => sp_i16(final(self).data(), old(self).position()) == Some((v, final(self).position())),
                Err(e) => sp_i16(final(self).data(), old(self).position()) is None && final(self).position()
                    == old(self).position() && e@ == ErrorView::Malformed(eof_message()),
            },
    {
        match self.read_ptp_u16() {
            Ok(u) => Ok(u16_to_i16(u)),
            Err(e) => Err(e),
        }
    }

    pub fn read_ptp_i32(&mut self) -> (r: Result<i32, Error>)
        requires
            old(self).wf(),
        ensures
            final(self).wf(),
            final(self).data() == old(self).data(),
            match r {
                Ok(v) => sp_i32(final(self).data(), old(self).position()) == Some((v, final(self).position())),
                Err(e) => sp_i32(final(self).data(), old(self).position()) is None && final(self).position()
                    == old(self).position() && e@ == ErrorView::Malformed(eof_message()),
            },
    {
        match self.read_ptp_u32() {
            Ok(u) => Ok(u32_to_i32(u)),
            Err(e) => Err(e),
        }
    }

    pub fn read_ptp_i64(&mut self) -> (r: Result<i64, Error>)
        requires
            old(self).wf(),
        ensures
            final(self).wf(),
            final(self).data() == old(self).data(),
            match r {
                Ok(v) => sp_i64(final(self).data(), old(self).position()) == Some((v, final(self).position())),
                Err(e) => sp_i64(final(self).data(), old(self).position()) is None && final(self).position()
                    == old(self).position() && e@ == ErrorView::Malformed(eof_message()),
            },
    {
        match self.read_ptp_u64() {
            Ok(u) => Ok(u64_to_i64(u)),
            Err(e) => Err(e),
        }
    }

    pub fn read_ptp_i128(&mut self) -> (r: Result<i128, Error>)
        requires
            old(self).wf(),
        ensures
            final(self).wf(),
            final(self).data() == old(self).data(),
            match r {
                Ok(v) => sp_i128(final(self).data(), old(self).position()) == Some((v, final(self).position())),
                Err(e) => sp_i128(final(self).data(), old(self).position()) is None && final(self).position()
                    == old(self).position() && e@ == ErrorView::Malformed(eof_message()),
            },
    {
        match self.read_ptp_u128() {
            Ok(u) => Ok(u128_to_i128(u)),
            Err(e) => Err(e),
        }
    }

    #[verifier::loop_isolation(false)]
    pub fn read_ptp_u8_vec(&mut self) -> (r: Result<Vec<u8>, Error>)
        requires
            old(self).wf(),
        ensures
            final(self).wf(),
            final(self).data() == old(self).data(),
            match r {
                Ok(v) => sp_array(final(self).data(), old(self).position(), p_u8()) == Some(
                    (v@, final(self).position()),
                ),
                Err(e) => sp_array(final(self).data(), old(self).position(), p_u8()) is None && e@
                    == ErrorView::Malformed(eof_message()),
            },
    {
        let ghost d = self.data();
        let ghost p0 = self.position();
        let count = match self.read_ptp_u32() {
            Ok(c) => c,
            Err(e) => {
                return Err(e);
            },
        };
        let ghost es = self.position();
        let mut out: Vec<u8> = Vec::new();
        let mut k: usize = 0;
        proof {
            assert(out@ =~= Seq::<u8>::empty());
        }
        while k < count as usize
            invariant
                self.wf(),
                self.data() == d,
                k <= count as usize,
                sp_u32(d, p0) == Some((count, es)),
                sp_elems(d, es, k as nat, p_u8()) == Some((out@, self.position())),
            decreases count as usize - k,
        {
            let ghost j = self.position();
            match self.read_ptp_u8() {
                Ok(v) => {
                    proof {
                        assert(p_u8()(d, j) == sp_u8(d, j));
                        lemma_sp_elems_snoc(d, es, k as nat, p_u8());
                    }
                    out.push(v);
                    k = k + 1;
                },
                Err(e) => {
                    proof {
                        assert(p_u8()(d, j) == sp_u8(d, j));
                        lemma_sp_elems_abort(d, es, k as nat, count as nat, p_u8());
                    }
                    return Err(e);
                },
            }
        }
        Ok(out)
    }

    #[verifier::loop_isolation(false)]
    pub fn read_ptp_i8_vec(&mut self) -> (r: Result<Vec<i8>, Error>)
        requires
            old(self).wf(),
        ensures
            final(self).wf(),
            final(self).data() == old(self).data(),
            match r {
                Ok(v) => sp_array(final(self).data(), old(self).position(), p_i8()) == Some(
                    (v@, final(self).position()),
                ),
                Err(e) => sp_array(final(self).data(), old(self).position(), p_i8()) is None && e@
                    == ErrorView::Malformed(eof_message()),
            },
    {
        let ghost d = self.data();
        let ghost p0 = self.position();
        let count = match self.read_ptp_u32() {
            Ok(c) => c,
            Err(e) => {
                return Err(e);
            },
        };
        let ghost es = self.position();
        let mut out: Vec<i8> = Vec::new();
        let mut k: usize = 0;
        proof {
            assert(out@ =~= Seq::<i8>::empty());
        }
        while k < count as usize
            invariant
                self.wf(),
                self.data() == d,
                k <= count as usize,
                sp_u32(d, p0) == Some((count, es)),
                sp_elems(d, es, k as nat, p_i8()) == Some((out@, self.position())),
            decreases count as usize - k,
        {
            let ghost j = self.position();
            match self.read_ptp_i8() {
                Ok(v) => {
                    proof {
                        assert(p_i8()(d, j) == sp_i8(d, j));
                        lemma_sp_elems_snoc(d, es, k as nat, p_i8());
                    }
                    out.push(v);
                    k = k + 1;
                },
                Err(e) => {
                    proof {
                        assert(p_i8()(d, j) == sp_i8(d, j));
                        lemma_sp_elems_abort(d, es, k as nat, count as nat, p_i8());
                    }
                    return Err(e);
                },
            }
        }
        Ok(out)
    }

    #[verifier::loop_isolation(false)]
    pub fn read_ptp_u16_vec(&mut self) -> (r: Result<Vec<u16>, Error>)
        requires
            old(self).wf(),
        ensures
            final(self).wf(),
            final(self).data() == old(self).data(),
            match r {
                Ok(v) => sp_array(final(self).data(), old(self).position(), p_u16()) == Some(
                    (v@, final(self).position()),
                ),
                Err(e) => sp_array(final(self).data(), old(self).position(), p_u16()) is None && e@
                    == ErrorView::Malformed(eof_message()),
            },
    {
        let ghost d = self.data();
        let ghost p0 = self.position();
        let count = match self.read_ptp_u32() {
            Ok(c) => c,
            Err(e) => {
                return Err(e);
            },
        };
        let ghost es = self.position();
        let mut out: Vec<u16> = Vec::new();
        let mut k: usize = 0;
        proof {
            assert(out@ =~= Seq::<u16>::empty());
        }
        while k < count as usize
            invariant
                self.wf(),
                self.data() == d,
                k <= count as usize,
                sp_u32(d, p0) == Some((count, es)),
                sp_elems(d, es, k as nat, p_u16()) == Some((out@, self.position())),
            decreases count as usize - k,
        {
            let ghost j = self.position();
            match self.read_ptp_u16() {
                Ok(v) => {
                    proof {
                        assert(p_u16()(d, j) == sp_u16(d, j));
                        lemma_sp_elems_snoc(d, es, k as nat, p_u16());
                    }
                    out.push(v);
                    k = k + 1;
                },
                Err(e) => {
                    proof {
                        assert(p_u16()(d, j) == sp_u16(d, j));
                        lemma_sp_elems_abort(d, es, k as nat, count as nat, p_u16());
                    }
                    return Err(e);
                },
            }
        }
        Ok(out)
    }

    #[verifier::loop_isolation(false)]
    pub fn read_ptp_i16_vec(&mut self) -> (r: Result<Vec<i16>, Error>)
        requires
            old(self).wf(),
        ensures
            final(self).wf(),
            final(self).data() == old(self).data(),
            match r {
                Ok(v) => sp_array(final(self).data(), old(self).position(), p_i16()) == Some(
                    (v@, final(self).position()),
                ),
                Err(e) => sp_array(final(self).data(), old(self).position(), p_i16()) is None && e@
                    == ErrorView::Malformed(eof_message()),
            },
    {
        let ghost d = self.data();
        let ghost p0 = self.position();
        let count = match self.read_ptp_u32() {
            Ok(c) => c,
            Err(e) => {
                return Err(e);
            },
        };
        let ghost es = self.position();
        let mut out: Vec<i16> = Vec::new();
        let mut k: usize = 0;
        proof {
            assert(out@ =~= Seq::<i16>::empty());
        }
        while k < count as usize
            invariant
                self.wf(),
                self.data() == d,
                k <= count as usize,
                sp_u32(d, p0) == Some((count, es)),
                sp_elems(d, es, k as nat, p_i16()) == Some((out@, self.position())),
            decreases count as usize - k,
        {
            let ghost j = self.position();
            match self.read_ptp_i16() {
                Ok(v) => {
                    proof {
                        assert(p_i16()(d, j) == sp_i16(d, j));
                        lemma_sp_elems_snoc(d, es, k as nat, p_i16());
                    }
                    out.push(v);
                    k = k + 1;
                },
                Err(e) => {
                    proof {
                        assert(p_i16()(d, j) == sp_i16(d, j));
                        lemma_sp_elems_abort(d, es, k as nat, count as nat, p_i16());
                    }
                    return Err(e);
                },
            }
        }
        Ok(out)
    }

    #[verifier::loop_isolation(false)]
    pub fn read_ptp_u32_vec(&mut self) -> (r: Result<Vec<u32>, Error>)
        requires
            old(self).wf(),
        ensures
            final(self).wf(),
            final(self).data() == old(self).data(),
            match r {
                Ok(v) => sp_array(final(self).data(), old(self).position(), p_u32()) == Some(
                    (v@, final(self).position()),
                ),
                Err(e) => sp_array(final(self).data(), old(self).position(), p_u32()) is None && e@
                    == ErrorView::Malformed(eof_message()),
            },
    {
        let ghost d = self.data();
        let ghost p0 = self.position();
        let count = match self.read_ptp_u32() {
            Ok(c) => c,
            Err(e) => {
                return Err(e);
            },
        };
        let ghost es = self.position();
        let mut out: Vec<u32> = Vec::new();
        let mut k: usize = 0;
        proof {
            assert(out@ =~= Seq::<u32>::empty());
        }
        while k < count as usize
            invariant
                self.wf(),
                self.data() == d,
                k <= count as usize,
                sp_u32(d, p0) == Some((count, es)),
                sp_elems(d, es, k as nat, p_u32()) == Some((out@, self.position())),
            decreases count as usize - k,
        {
            let ghost j = self.position();
            match self.read_ptp_u32() {
                Ok(v) => {
                    proof {
                        assert(p_u32()(d, j) == sp_u32(d, j));
                        lemma_sp_elems_snoc(d, es, k as nat, p_u32());
                    }
                    out.push(v);
                    k = k + 1;
                },
                Err(e) => {
                    proof {
                        assert(p_u32()(d, j) == sp_u32(d, j));
                        lemma_sp_elems_abort(d, es, k as nat, count as nat, p_u32());
                    }
                    return Err(e);
                },
            }
        }
        Ok(out)
    }

    #[verifier::loop_isolation(false)]
    pub fn read_ptp_i32_vec(&mut self) -> (r: Result<Vec<i32>, Error>)
        requires
            old(self).wf(),
        ensures
            final(self).wf(),
            final(self).data() == old(self).data(),
            match r {
                Ok(v) => sp_array(final(self).data(), old(self).position(), p_i32()) == Some(
                    (v@, final(self).position()),
                ),
                Err(e) => sp_array(final(self).data(), old(self).position(), p_i32()) is None && e@
                    == ErrorView::Malformed(eof_message()),
            },
    {
        let ghost d = self.data();
        let ghost p0 = self.position();
        let count = match self.read_ptp_u32() {
            Ok(c) => c,
            Err(e) => {
                return Err(e);
            },
        };
        let ghost es = self.position();
        let mut out: Vec<i32> = Vec::new();
        let mut k: usize = 0;
        proof {
            assert(out@ =~= Seq::<i32>::empty());
        }
        while k < count as usize
            invariant
                self.wf(),
                self.data() == d,
                k <= count as usize,
                sp_u32(d, p0) == Some((count, es)),
                sp_elems(d, es, k as nat, p_i32()) == Some((out@, self.position())),
            decreases count as usize - k,
        {
            let ghost j = self.position();
            match self.read_ptp_i32() {
                Ok(v) => {
                    proof {
                        assert(p_i32()(d, j) == sp_i32(d, j));
                        lemma_sp_elems_snoc(d, es, k as nat, p_i32());
                    }
                    out.push(v);
                    k = k + 1;
                },
                Err(e) => {
                    proof {
                        assert(p_i32()(d, j) == sp_i32(d, j));
                        lemma_sp_elems_abort(d, es, k as nat, count as nat, p_i32());
                    }
                    return Err(e);
                },
            }
        }
        Ok(out)
    }

    #[verifier::loop_isolation(false)]
    pub fn read_ptp_u64_vec(&mut self) -> (r: Result<Vec<u64>, Error>)
        requires
            old(self).wf(),
        ensures
            final(self).wf(),
            final(self).data() == old(self).data(),
            match r {
                Ok(v) => sp_array(final(self).data(), old(self).position(), p_u64()) == Some(
                    (v@, final(self).position()),
                ),
                Err(e) => sp_array(final(self).data(), old(self).position(), p_u64()) is None && e@
                    == ErrorView::Malformed(eof_message()),
            },
    {
        let ghost d = self.data();
        let ghost p0 = self.position();
        let count = match self.read_ptp_u32() {
            Ok(c) => c,
            Err(e) => {
                return Err(e);
            },
        };
        let ghost es = self.position();
        let mut out: Vec<u64> = Vec::new();
        let mut k: usize = 0;
        proof {
            assert(out@ =~= Seq::<u64>::empty());
        }
        while k < count as usize
            invariant
                self.wf(),
                self.data() == d,
                k <= count as usize,
                sp_u32(d, p0) == Some((count, es)),
                sp_elems(d, es, k as nat, p_u64()) == Some((out@, self.position())),
            decreases count as usize - k,
        {
            let ghost j = self.position();
            match self.read_ptp_u64() {
                Ok(v) => {
                    proof {
                        assert(p_u64()(d, j) == sp_u64(d, j));
                        lemma_sp_elems_snoc(d, es, k as nat, p_u64());
                    }
                    out.push(v);
                    k = k + 1;
                },
                Err(e) => {
                    proof {
                        assert(p_u64()(d, j) == sp_u64(d, j));
                        lemma_sp_elems_abort(d, es, k as nat, count as nat, p_u64());
                    }
                    return Err(e);
                },
            }
        }
        Ok(out)
    }

    #[verifier::loop_isolation(false)]
    pub fn read_ptp_i64_vec(&mut self) -> (r: Result<Vec<i64>, Error>)
        requires
            old(self).wf(),
        ensures
            final(self).wf(),
            final(self).data() == old(self).data(),
            match r {
                Ok(v) => sp_array(final(self).data(), old(self).position(), p_i64()) == Some(
                    (v@, final(self).position()),
                ),
                Err(e) => sp_array(final(self).data(), old(self).position(), p_i64()) is None && e@
                    == ErrorView::Malformed(eof_message()),
            },
    {
        let ghost d = self.data();
        let ghost p0 = self.position();
        let count = match self.read_ptp_u32() {
            Ok(c) => c,
            Err(e) => {
                return Err(e);
            },
        };
        let ghost es = self.position();
        let mut out: Vec<i64> = Vec::new();
        let mut k: usize = 0;
        proof {
            assert(out@ =~= Seq::<i64>::empty());
        }
        while k < count as usize
            invariant
                self.wf(),
                self.data() == d,
                k <= count as usize,
                sp_u32(d, p0) == Some((count, es)),
                sp_elems(d, es, k as nat, p_i64()) == Some((out@, self.position())),
            decreases count as usize - k,
        {
            let ghost j = self.position();
            match self.read_ptp_i64() {
                Ok(v) => {
                    proof {
                        assert(p_i64()(d, j) == sp_i64(d, j));
                        lemma_sp_elems_snoc(d, es, k as nat, p_i64());
                    }
                    out.push(v);
                    k = k + 1;
                },
                Err(e) => {
                    proof {
                        assert(p_i64()(d, j) == sp_i64(d, j));
                        lemma_sp_elems_abort(d, es, k as nat, count as nat, p_i64());
                    }
                    return Err(e);
                },
            }
        }
        Ok(out)
    }

    #[verifier::loop_isolation(false)]
    pub fn read_ptp_u128_vec(&mut self) -> (r: Result<Vec<u128>, Error>)
        requires
            old(self).wf(),
        ensures
            final(self).wf(),
            final(self).data() == old(self).data(),
            match r {
                Ok(v) => sp_array(final(self).data(), old(self).position(), p_u128()) == Some(
                    (v@, final(self).position()),
                ),
                Err(e) => sp_array(final(self).data(), old(self).position(), p_u128()) is None && e@
                    == ErrorView::Malformed(eof_message()),
            },
    {
        let ghost d = self.data();
        let ghost p0 = self.position();
        let count = match self.read_ptp_u32() {
            Ok(c) => c,
            Err(e) => {
                return Err(e);
            },
        };
        let ghost es = self.position();
        let mut out: Vec<u128> = Vec::new();
        let mut k: usize = 0;
        proof {
            assert(out@ =~= Seq::<u128>::empty());
        }
        while k < count as usize
            invariant
                self.wf(),
                self.data() == d,
                k <= count as usize,
                sp_u32(d, p0) == Some((count, es)),
                sp_elems(d, es, k as nat, p_u128()) == Some((out@, self.position())),
            decreases count as usize - k,
        {
            let ghost j = self.position();
            match self.read_ptp_u128() {
                Ok(v) => {
                    proof {
                        assert(p_u128()(d, j) == sp_u128(d, j));
                        lemma_sp_elems_snoc(d, es, k as nat, p_u128());
                    }
                    out.push(v);
                    k = k + 1;
                },
                Err(e) => {
                    proof {
                        assert(p_u128()(d, j) == sp_u128(d, j));
                        lemma_sp_elems_abort(d, es, k as nat, count as nat, p_u128());
                    }
                    return Err(e);
                },
            }
        }
        Ok(out)
    }

    #[verifier::loop_isolation(false)]
    pub fn read_ptp_i128_vec(&mut self) -> (r: Result<Vec<i128>, Error>)
        requires
            old(self).wf(),
        ensures
            final(self).wf(),
            final(self).data() == old(self).data(),
            match r {
                Ok(v) => sp_array(final(self).data(), old(self).position(), p_i128()) == Some(
                    (v@, final(self).position()),
                ),
                Err(e) => sp_array(final(self).data(), old(self).position(), p_i128()) is None && e@
                    == ErrorView::Malformed(eof_message()),
            },
    {
        let ghost d = self.data();
        let ghost p0 = self.position();
        let count = match self.read_ptp_u32() {
            Ok(c) => c,
            Err(e) => {
                return Err(e);
            },
        };
        let ghost es = self.position();
        let mut out: Vec<i128> = Vec::new();
        let mut k: usize = 0;
        proof {
            assert(out@ =~= Seq::<i128>::empty());
        }
        while k < count as usize
            invariant
                self.wf(),
                self.data() == d,
                k <= count as usize,
                sp_u32(d, p0) == Some((count, es)),
                sp_elems(d, es, k as nat, p_i128()) == Some((out@, self.position())),
            decreases count as usize - k,
        {
            let ghost j = self.position();
            match self.read_ptp_i128() {
                Ok(v) => {
                    proof {
                        assert(p_i128()(d, j) == sp_i128(d, j));
                        lemma_sp_elems_snoc(d, es, k as nat, p_i128());
                    }
                    out.push(v);
                    k = k + 1;
                },
                Err(e) => {
                    proof {
                        assert(p_i128()(d, j) == sp_i128(d, j));
                        lemma_sp_elems_abort(d, es, k as nat, count as nat, p_i128());
                    }
                    return Err(e);
                },
            }
        }
        Ok(out)
    }

    /// Reads a PTP string: a one-byte count of code units including the
    /// terminator, the units, and the terminator itself, whose value is
    /// not validated.
    #[verifier::loop_isolation(false)]
    pub fn read_ptp_str(&mut self) -> (r: Result<String, Error>)
        requires
            old(self).wf(),
        ensures
            final(self).wf(),
            final(self).data() == old(self).data(),
            match r {
                Ok(st) => sp_str(final(self).data(), old(self).position()) == Some(
                    (st@, final(self).position()),
                ),
                Err(e) => sp_str(final(self).data(), old(self).position()) is None && e@
                    == ErrorView::Malformed(
                    if sp_str_units(final(self).data(), old(self).position()) is None {
                        eof_message()
                    } else {
                        invalid_utf16_message()
                    },
                ),
            },
    {
        let ghost d = self.data();
        let ghost p0 = self.position();
        let n = match self.read_ptp_u8() {
            Ok(c) => c,
            Err(e) => {
                return Err(e);
            },
        };
        if n == 0 {
            proof {
                assert(sp_str_units(d, p0) == Some((Seq::<u16>::empty(), self.position())));
                assert(decode_utf16(Seq::<u16>::empty()) == Some(Seq::<char>::empty()));
            }
            let s = String::new();
            return Ok(s);
        }
        let ghost es = self.position();
        let mut units: Vec<u16> = Vec::new();
        let mut k: usize = 0;
        proof {
            assert(units@ =~= Seq::<u16>::empty());
        }
        while k < (n - 1) as usize
            invariant
                self.wf(),
                self.data() == d,
                n >= 1,
                k <= (n - 1) as usize,
                sp_u8(d, p0) == Some((n, es)),
                sp_elems(d, es, k as nat, p_u16()) == Some((units@, self.position())),
            decreases (n - 1) as usize - k,
        {
            let ghost j = self.position();
            match self.read_ptp_u16() {
                Ok(v) => {
                    proof {
                        assert(p_u16()(d, j) == sp_u16(d, j));
                        lemma_sp_elems_snoc(d, es, k as nat, p_u16());
                    }
                    units.push(v);
                    k = k + 1;
                },
                Err(e) => {
                    proof {
                        assert(p_u16()(d, j) == sp_u16(d, j));
                        lemma_sp_elems_abort(d, es, k as nat, (n - 1) as nat, p_u16());
                        assert(sp_str_units(d, p0) is None);
                    }
                    return Err(e);
                },
            }
        }
        // the terminator unit; its value is not validated
        match self.read_ptp_u16() {
            Ok(_) => {},
            Err(e) => {
                proof {
                    assert(sp_str_units(d, p0) is None);
                }
                return Err(e);
            },
        }
        proof {
            assert(sp_str_units(d, p0) == Some((units@, self.position())));
        }
        match utf16_to_string(&units) {
            Some(st) => Ok(st),
            None => Err(invalid_utf16_error()),
        }
    }

    /// Demands that the whole buffer was consumed; reports both lengths
    /// otherwise, so that an over-long response is caught rather than
    /// silently truncated.
    pub fn expect_end(&mut self) -> (r: Result<(), Error>)
        requires
            old(self).wf(),
        ensures
            final(self).wf(),
            final(self).data() == old(self).data(),
            final(self).position() == old(self).position(),
            match r {
                Ok(()) => final(self).position() == final(self).data().len(),
                Err(e) => final(self).position() != final(self).data().len() && e@ == ErrorView::Malformed(
                    expect_end_message(final(self).data().len() as nat, final(self).position() as nat),
                ),
            },
    {
        if self.pos == self.buf.len() {
            Ok(())
        } else {
            let mut s = "Response ".to_owned();
            let len_dec = u64_dec(self.buf.len() as u64);
            s.append(len_dec.as_str());
            s.append(" bytes, expected ");
            let pos_dec = u64_dec(self.pos as u64);
            s.append(pos_dec.as_str());
            s.append(" bytes");
            proof {
                assert(s@ =~= expect_end_message(
                    self.data().len() as nat,
                    self.position() as nat,
                ));
            }
            Err(Error::Malformed(s))
        }
    }
}

} // verus!
