//! Container framing: the 12-byte header that starts every PTP bulk
//! transfer, its serialization and its parse.

use vstd::prelude::*;
use crate::error::{Error, ErrorView, eof_error, eof_message};
use crate::fmt_num::{spec_dec, spec_hex, u64_dec, u64_hex};
use crate::wire::{sp_u16, sp_u32, ser_u16, ser_u32, push_u16_le, push_u32_le, lemma_sp_u16_reads,
    lemma_sp_u32_reads};
use vstd::bytes::{u16_from_le_bytes, u32_from_le_bytes, lemma_auto_spec_u16_to_from_le_bytes,
    lemma_auto_spec_u32_to_from_le_bytes};
use vstd::slice::slice_subrange;

verus! {

/// The kind of a container: each PTP phase travels in one of these.
#[derive(Debug, PartialEq, Eq, Structural, Clone, Copy)]
pub enum ContainerType {
    Command,
    Data,
    Response,
    Event,
}

/// The code a container kind carries in its header.
pub open spec fn spec_kind_code(t: ContainerType) -> u16 {
    match t {
        ContainerType::Command => 1,
        ContainerType::Data => 2,
        ContainerType::Response => 3,
        ContainerType::Event => 4,
    }
}

/// The kind a header code stands for, if any.
pub open spec fn spec_type_from_u16(v: u16) -> Option<ContainerType> {
    if v == 1 {
        Some(ContainerType::Command)
    } else if v == 2 {
        Some(ContainerType::Data)
    } else if v == 3 {
        Some(ContainerType::Response)
    } else if v == 4 {
        Some(ContainerType::Event)
    } else {
        None
    }
}

impl ContainerType {
    /// The kind a header code stands for, if any.
    pub fn from_u16(v: u16) -> (r: Option<ContainerType>)
        ensures
            r == spec_type_from_u16(v),
    {
        match v {
            1 => Some(ContainerType::Command),
            2 => Some(ContainerType::Data),
            3 => Some(ContainerType::Response),
            4 => Some(ContainerType::Event),
            _ => None,
        }
    }

    /// The code this kind carries in a header.
    pub fn code(&self) -> (r: u16)
        ensures
            r == spec_kind_code(*self),
    {
        match self {
            ContainerType::Command => 1,
            ContainerType::Data => 2,
            ContainerType::Response => 3,
            ContainerType::Event => 4,
        }
    }
}

/// The size of the container header in bytes.
pub const CONTAINER_INFO_SIZE: usize = 12;

/// A parsed container header.
#[derive(Debug, PartialEq, Eq, Structural, Clone, Copy)]
pub struct ContainerInfo {
    /// Payload length in bytes: the total length field minus the header.
    pub payload_len: usize,
    /// Container kind.
    pub kind: ContainerType,
    /// An operation code or a response code, depending on the kind.
    pub code: u16,
    /// The transaction this container belongs to.
    pub tid: u32,
}

/// The message for a header whose kind code is outside 1..4, with the
/// code in hexadecimal.
pub open spec fn bad_kind_message(v: u16) -> Seq<char> {
    "Invalid message type "@ + spec_hex(v as nat) + "."@
}

/// The message for a header whose total length field is below the header
/// size, with the length in decimal.
pub open spec fn bad_len_message(len: u32) -> Seq<char> {
    "Invalid message length "@ + spec_dec(len as nat) + "."@
}

/// The header the first twelve bytes of a buffer declare: total length
/// (which must cover the header itself), kind, code and transaction id.
pub open spec fn spec_parse_header(s: Seq<u8>) -> Result<ContainerInfo, ErrorView> {
    if s.len() < 12 {
        Err(ErrorView::Malformed(eof_message()))
    } else {
        let len = sp_u32(s, 0).unwrap().0;
        let kind_v = sp_u16(s, 4).unwrap().0;
        let code = sp_u16(s, 6).unwrap().0;
        let tid = sp_u32(s, 8).unwrap().0;
        match spec_type_from_u16(kind_v) {
            None => Err(ErrorView::Malformed(bad_kind_message(kind_v))),
            Some(kind) => {
                if len < 12 {
                    Err(ErrorView::Malformed(bad_len_message(len)))
                } else {
                    Ok(
                        ContainerInfo {
                            payload_len: (len - 12) as usize,
                            kind,
                            code,
                            tid,
                        },
                    )
                }
            },
        }
    }
}

/// The twelve header bytes of a container: total length including the
/// header, kind code, operation or response code, transaction id, each
/// little endian.
pub open spec fn spec_serialize_header(h: ContainerInfo) -> Seq<u8>
    recommends
        h.payload_len + 12 <= u32::MAX,
{
    ser_u32((h.payload_len + 12) as u32) + ser_u16(spec_kind_code(h.kind)) + ser_u16(h.code)
        + ser_u32(h.tid)
}

impl ContainerInfo {
    /// Parses the header at the start of a buffer. The buffer may carry
    /// payload bytes after the header; they are not touched.
    pub fn parse(buf: &[u8]) -> (r: Result<ContainerInfo, Error>)
        ensures
            match r {
                Ok(h) => spec_parse_header(buf@) == Ok::<ContainerInfo, ErrorView>(h),
                Err(e) => spec_parse_header(buf@) == Err::<ContainerInfo, ErrorView>(e@),
            },
    {
        if buf.len() < 12 {
            return Err(eof_error());
        }
        let len = u32_from_le_bytes(slice_subrange(buf, 0, 4));
        let kind_v = u16_from_le_bytes(slice_subrange(buf, 4, 6));
        let code = u16_from_le_bytes(slice_subrange(buf, 6, 8));
        let tid = u32_from_le_bytes(slice_subrange(buf, 8, 12));
        proof {
            assert(sp_u32(buf@, 0).unwrap().0 == len);
            assert(sp_u16(buf@, 4).unwrap().0 == kind_v);
            assert(sp_u16(buf@, 6).unwrap().0 == code);
            assert(sp_u32(buf@, 8).unwrap().0 == tid);
        }
        let kind = match ContainerType::from_u16(kind_v) {
            Some(k) => k,
            None => {
                let mut m = "Invalid message type ".to_owned();
                let hex = u64_hex(kind_v as u64);
                m.append(hex.as_str());
                m.append(".");
                proof {
                    assert(m@ =~= bad_kind_message(kind_v));
                }
                return Err(Error::Malformed(m));
            },
        };
        if len < 12 {
            let mut m = "Invalid message length ".to_owned();
            let dec = u64_dec(len as u64);
            m.append(dec.as_str());
            m.append(".");
            proof {
                assert(m@ =~= bad_len_message(len));
            }
            return Err(Error::Malformed(m));
        }
        Ok(ContainerInfo { payload_len: (len - 12) as usize, kind, code, tid })
    }

    /// Does this container belong to the given transaction?
    pub fn belongs_to(&self, tid: u32) -> (r: bool)
        ensures
            r == (self.tid == tid),
    {
        self.tid == tid
    }

    /// The twelve header bytes of this container.
    pub fn serialize(&self) -> (out: Vec<u8>)
        requires
            self.payload_len + 12 <= u32::MAX,
        ensures
            out@ == spec_serialize_header(*self),
            out@.len() == 12,
    {
        let mut out: Vec<u8> = Vec::new();
        push_u32_le(&mut out, (self.payload_len + 12) as u32);
        push_u16_le(&mut out, self.kind.code());
        push_u16_le(&mut out, self.code);
        push_u32_le(&mut out, self.tid);
        proof {
            lemma_auto_spec_u16_to_from_le_bytes();
            lemma_auto_spec_u32_to_from_le_bytes();
            assert(out@ =~= spec_serialize_header(*self));
        }
        out
    }
}

/// Law: serializing a header whose length fits the length field and
/// parsing the bytes back gives the header again, and the first four
/// bytes decode to 12 plus the payload length.
pub proof fn lemma_header_round_trip(h: ContainerInfo)
    requires
        h.payload_len + 12 <= u32::MAX,
    ensures
        spec_parse_header(spec_serialize_header(h)) == Ok::<ContainerInfo, ErrorView>(h),
        sp_u32(spec_serialize_header(h), 0) == Some(((h.payload_len + 12) as u32, 4int)),
{
    let s = spec_serialize_header(h);
    let len_field = (h.payload_len + 12) as u32;
    let kc = spec_kind_code(h.kind);
    lemma_auto_spec_u16_to_from_le_bytes();
    lemma_auto_spec_u32_to_from_le_bytes();
    assert(ser_u32(len_field).len() == 4);
    assert(ser_u16(kc).len() == 2);
    assert(ser_u16(h.code).len() == 2);
    assert(ser_u32(h.tid).len() == 4);
    assert(s.len() == 12);
    assert(s.subrange(0, 4) =~= ser_u32(len_field));
    lemma_sp_u32_reads(s, 0, len_field);
    assert(s.subrange(4, 6) =~= ser_u16(kc));
    lemma_sp_u16_reads(s, 4, kc);
    assert(s.subrange(6, 8) =~= ser_u16(h.code));
    lemma_sp_u16_reads(s, 6, h.code);
    assert(s.subrange(8, 12) =~= ser_u32(h.tid));
    lemma_sp_u32_reads(s, 8, h.tid);
    assert(spec_type_from_u16(kc) == Some(h.kind));
    assert(len_field >= 12);
    assert((len_field - 12) as usize == h.payload_len);
}

} // verus!
