//! The transaction engine: one complete PTP operation as a Command
//! phase, an optional outbound Data phase, then the containers the
//! device returns, correlated by transaction id.
//!
//! The engine is pure: it builds the containers to write and judges the
//! containers that were read. The caller performs the USB transfers and
//! hands the received containers in, one per phase, reassembled.

use vstd::prelude::*;
use vstd::slice::slice_subrange;
use vstd::slice::slice_to_vec;
use crate::container::{ContainerInfo, ContainerType, spec_parse_header, spec_serialize_header};
use crate::error::{Error, ErrorView};
use crate::fmt_num::{spec_dec, u64_dec};
use crate::wire::{e_u32, flat_encode, lemma_flat_encode_push, push_u32_le, ser_u32};

verus! {

/// The size of one bulk write: a multiple of the endpoint packet size,
/// so no short packet is emitted in the middle of a container.
pub const CHUNK_SIZE: usize = 1024 * 1024;

/// The response code a Response container carries on success.
pub const RESPONSE_OK: u16 = 0x2001;

/// A byte sequence as its own serialization, for concatenation.
pub open spec fn e_bytes() -> spec_fn(Seq<u8>) -> Seq<u8> {
    |c: Seq<u8>| c
}

/// The Command phase payload: the parameters, each as a little-endian
/// u32, in order.
pub open spec fn spec_params_payload(params: Seq<u32>) -> Seq<u8> {
    flat_encode(params, e_u32())
}

/// Each parameter occupies four bytes.
pub proof fn lemma_params_payload_len(params: Seq<u32>)
    ensures
        spec_params_payload(params).len() == 4 * params.len(),
    decreases params.len(),
{
    vstd::bytes::lemma_auto_spec_u32_to_from_le_bytes();
    if params.len() == 0 {
    } else {
        assert(e_u32()(params[0]) == ser_u32(params[0]));
        assert(ser_u32(params[0]).len() == 4);
        lemma_params_payload_len(params.drop_first());
    }
}

/// Builds the Command phase payload from the parameters.
#[verifier::loop_isolation(false)]
pub fn params_payload(params: &Vec<u32>) -> (out: Vec<u8>)
    ensures
        out@ == spec_params_payload(params@),
{
    let mut out: Vec<u8> = Vec::new();
    let mut k: usize = 0;
    proof {
        assert(out@ =~= flat_encode(params@.take(0), e_u32()));
    }
    while k < params.len()
        invariant
            k <= params@.len(),
            out@ == flat_encode(params@.take(k as int), e_u32()),
        decreases params@.len() - k,
    {
        push_u32_le(&mut out, params[k]);
        proof {
            lemma_flat_encode_push(params@.take(k as int), params@[k as int], e_u32());
            assert(params@.take(k as int).push(params@[k as int]) =~= params@.take(k + 1));
            assert(out@ =~= flat_encode(params@.take(k + 1), e_u32()));
        }
        k = k + 1;
    }
    proof {
        assert(params@.take(params@.len() as int) =~= params@);
    }
    out
}

/// The single container of one phase: the 12-byte header, then the
/// payload.
pub open spec fn spec_phase_bytes(kind: ContainerType, code: u16, tid: u32, payload: Seq<u8>) -> Seq<
    u8,
> {
    spec_serialize_header(
        ContainerInfo { payload_len: payload.len() as usize, kind, code, tid },
    ) + payload
}

/// Serializes one phase: header then payload, with the length field
/// covering both.
pub fn phase_bytes(kind: ContainerType, code: u16, tid: u32, payload: &Vec<u8>) -> (out: Vec<u8>)
    requires
        payload@.len() + 12 <= u32::MAX,
    ensures
        out@ == spec_phase_bytes(kind, code, tid, payload@),
        out@.len() == 12 + payload@.len(),
{
    let h = ContainerInfo { payload_len: payload.len(), kind, code, tid };
    let mut out = h.serialize();
    let mut rest = slice_to_vec(payload.as_slice());
    out.append(&mut rest);
    out
}

/// Splits one phase's bytes into bulk-write chunks: the header and as
/// much payload as fits go out first, the rest in full-size slices.
#[verifier::loop_isolation(false)]
pub fn phase_chunks(kind: ContainerType, code: u16, tid: u32, payload: &Vec<u8>) -> (chunks: Vec<
    Vec<u8>,
>)
    requires
        payload@.len() + 12 <= u32::MAX,
    ensures
        flat_encode(chunks@.map_values(|c: Vec<u8>| c@), e_bytes()) == spec_phase_bytes(
            kind,
            code,
            tid,
            payload@,
        ),
        chunks@.len() >= 1,
        forall|k: int| 0 <= k < chunks@.len() ==> #[trigger] chunks@[k]@.len() <= CHUNK_SIZE,
        forall|k: int| 0 <= k < chunks@.len() - 1 ==> #[trigger] chunks@[k]@.len() == CHUNK_SIZE,
{
    let total = phase_bytes(kind, code, tid, payload);
    let mut chunks: Vec<Vec<u8>> = Vec::new();
    let mut pos: usize = 0;
    proof {
        assert(chunks@.map_values(|c: Vec<u8>| c@) =~= Seq::<Seq<u8>>::empty());
        assert(flat_encode(chunks@.map_values(|c: Vec<u8>| c@), e_bytes()) =~= total@.take(0));
    }
    while pos < total.len()
        invariant
            pos <= total@.len(),
            flat_encode(chunks@.map_values(|c: Vec<u8>| c@), e_bytes()) == total@.take(pos as int),
            pos == total@.len() ==> chunks@.len() >= 1,
            pos < total@.len() || pos > 0,
            forall|k: int| 0 <= k < chunks@.len() ==> #[trigger] chunks@[k]@.len() <= CHUNK_SIZE,
            pos < total@.len() ==> forall|k: int|
                0 <= k < chunks@.len() ==> #[trigger] chunks@[k]@.len() == CHUNK_SIZE,
            forall|k: int| 0 <= k < chunks@.len() - 1 ==> #[trigger] chunks@[k]@.len()
                == CHUNK_SIZE,
        decreases total@.len() - pos,
    {
        let end = if total.len() - pos >= CHUNK_SIZE {
            pos + CHUNK_SIZE
        } else {
            total.len()
        };
        let piece = slice_to_vec(slice_subrange(total.as_slice(), pos, end));
        let ghost before = chunks@.map_values(|c: Vec<u8>| c@);
        chunks.push(piece);
        proof {
            assert(chunks@.map_values(|c: Vec<u8>| c@) =~= before.push(total@.subrange(
                pos as int,
                end as int,
            )));
            lemma_flat_encode_push(before, total@.subrange(pos as int, end as int), e_bytes());
            assert(e_bytes()(total@.subrange(pos as int, end as int)) == total@.subrange(
                pos as int,
                end as int,
            ));
            assert(total@.take(pos as int) + total@.subrange(pos as int, end as int) =~= total@.take(
                end as int,
            ));
        }
        pos = end;
    }
    proof {
        assert(total@.take(total@.len() as int) =~= total@);
        assert(total@.len() > 0);
    }
    chunks
}

/// The message for a received container whose transaction id is not the
/// one in flight.
pub open spec fn mismatch_message(got: u32, want: u32) -> Seq<char> {
    "mismatched txnid "@ + spec_dec(got as nat) + ", expecting "@ + spec_dec(want as nat)
}

/// The message for a transaction whose containers ran out before any
/// Response arrived.
pub open spec fn no_response_message() -> Seq<char> {
    "no response received"@
}

/// What one transaction returns, given the containers received for it in
/// order: a container with the wrong transaction id or unparsable
/// framing fails it; a Data container's payload is retained (a later one
/// replaces an earlier one); the first Response ends it, yielding the
/// retained data on Ok and the response code otherwise; other kinds are
/// ignored.
pub open spec fn spec_transaction(tid: u32, inbound: Seq<Seq<u8>>, acc: Seq<u8>) -> Result<
    Seq<u8>,
    ErrorView,
>
    decreases inbound.len(),
{
    if inbound.len() == 0 {
        Err(ErrorView::Malformed(no_response_message()))
    } else {
        match spec_parse_header(inbound[0]) {
            Err(e) => Err(e),
            Ok(h) => {
                if h.tid != tid {
                    Err(ErrorView::Malformed(mismatch_message(h.tid, tid)))
                } else {
                    match h.kind {
                        ContainerType::Data => spec_transaction(
                            tid,
                            inbound.drop_first(),
                            inbound[0].skip(12),
                        ),
                        ContainerType::Response => if h.code == RESPONSE_OK {
                            Ok(acc)
                        } else {
                            Err(ErrorView::Response(h.code))
                        },
                        _ => spec_transaction(tid, inbound.drop_first(), acc),
                    }
                }
            },
        }
    }
}

/// Law: when the device replies with a Data container and an Ok
/// Response, both on the right transaction id, the transaction returns
/// exactly the Data container's payload.
pub proof fn lemma_transaction_data_then_ok(tid: u32, data_c: Seq<u8>, resp_c: Seq<u8>, acc: Seq<
    u8,
>)
    requires
        spec_parse_header(data_c) matches Ok(h) && h.tid == tid && h.kind == ContainerType::Data,
        spec_parse_header(resp_c) matches Ok(h) && h.tid == tid && h.kind == ContainerType::Response
            && h.code == RESPONSE_OK,
    ensures
        spec_transaction(tid, seq![data_c, resp_c], acc) == Ok::<Seq<u8>, ErrorView>(
            data_c.skip(12),
        ),
{
    let both = seq![data_c, resp_c];
    assert(both[0] == data_c);
    assert(both.drop_first() =~= seq![resp_c]);
    assert(seq![resp_c][0] == resp_c);
    assert(spec_transaction(tid, seq![resp_c], data_c.skip(12)) == Ok::<Seq<u8>, ErrorView>(
        data_c.skip(12),
    ));
    assert(spec_transaction(tid, both, acc) == spec_transaction(
        tid,
        both.drop_first(),
        data_c.skip(12),
    ));
}

/// Law: when the device replies with a non-Ok Response on the right
/// transaction id and no Data, the transaction fails with that response
/// code.
pub proof fn lemma_transaction_error_response(tid: u32, resp_c: Seq<u8>, acc: Seq<u8>)
    requires
        spec_parse_header(resp_c) matches Ok(h) && h.tid == tid && h.kind == ContainerType::Response
            && h.code != RESPONSE_OK,
    ensures
        spec_parse_header(resp_c) matches Ok(h) ==> spec_transaction(tid, seq![resp_c], acc)
            == Err::<Seq<u8>, ErrorView>(ErrorView::Response(h.code)),
{
}

/// Judges the containers received for one transaction, in order.
#[verifier::loop_isolation(false)]
pub fn run_responses(tid: u32, inbound: &Vec<Vec<u8>>) -> (r: Result<Vec<u8>, Error>)
    ensures
        match r {
            Ok(v) => spec_transaction(tid, inbound@.map_values(|c: Vec<u8>| c@), Seq::empty())
                == Ok::<Seq<u8>, ErrorView>(v@),
            Err(e) => spec_transaction(tid, inbound@.map_values(|c: Vec<u8>| c@), Seq::empty())
                == Err::<Seq<u8>, ErrorView>(e@),
        },
{
    let ghost all = inbound@.map_values(|c: Vec<u8>| c@);
    let mut data: Vec<u8> = Vec::new();
    let mut k: usize = 0;
    proof {
        assert(all.skip(0) =~= all);
        assert(data@ =~= Seq::<u8>::empty());
    }
    while k < inbound.len()
        invariant
            k <= inbound@.len(),
            spec_transaction(tid, all, Seq::empty()) == spec_transaction(
                tid,
                all.skip(k as int),
                data@,
            ),
        decreases inbound@.len() - k,
    {
        let c: &Vec<u8> = &inbound[k];
        let ghost rest = all.skip(k as int);
        proof {
            assert(rest[0] == all[k as int]);
            assert(all[k as int] == c@);
            assert(rest.drop_first() =~= all.skip(k + 1));
        }
        let h = match ContainerInfo::parse(c.as_slice()) {
            Ok(h) => h,
            Err(e) => {
                return Err(e);
            },
        };
        if !h.belongs_to(tid) {
            let mut m = "mismatched txnid ".to_owned();
            let got = u64_dec(h.tid as u64);
            m.append(got.as_str());
            m.append(", expecting ");
            let want = u64_dec(tid as u64);
            m.append(want.as_str());
            proof {
                assert(m@ =~= mismatch_message(h.tid, tid));
            }
            return Err(Error::Malformed(m));
        }
        match h.kind {
            ContainerType::Data => {
                data = slice_to_vec(slice_subrange(c.as_slice(), 12, c.len()));
                proof {
                    assert(c@.subrange(12, c@.len() as int) =~= c@.skip(12));
                }
            },
            ContainerType::Response => {
                if h.code != RESPONSE_OK {
                    return Err(Error::Response(h.code));
                }
                return Ok(data);
            },
            _ => {},
        }
        k = k + 1;
    }
    proof {
        assert(all.skip(inbound@.len() as int).len() == 0);
    }
    let m = "no response received".to_owned();
    Err(Error::Malformed(m))
}

/// What one received container does to a transaction in flight.
pub enum Step {
    /// Not a Response: keep reading.
    Continue,
    /// An Ok Response: the transaction is complete with this payload.
    Done(Vec<u8>),
    /// The transaction failed.
    Failed(Error),
}

/// The read side of one transaction in flight: judges each received
/// container in turn and retains the Data payload until the Response
/// arrives. The caller reads containers and feeds them in order.
pub struct Responses {
    tid: u32,
    data: Vec<u8>,
}

impl Responses {
    /// The transaction id every received container must carry.
    pub closed spec fn id(&self) -> u32 {
        self.tid
    }

    /// What the feeder holds as the inbound data payload so far.
    pub closed spec fn held(&self) -> Seq<u8> {
        self.data@
    }

    /// A feeder for the transaction with the given id, holding no data.
    pub fn new(tid: u32) -> (r: Responses)
        ensures
            r.id() == tid,
            r.held() == Seq::<u8>::empty(),
    {
        Responses { tid, data: Vec::new() }
    }

    /// Judges one received container, exactly as one step of
    /// `spec_transaction`: framing and id are checked, a Data payload is
    /// retained, a Response ends the transaction.
    pub fn feed(&mut self, c: &Vec<u8>) -> (r: Step)
        ensures
            final(self).id() == old(self).id(),
            match spec_parse_header(c@) {
                Err(es) => r matches Step::Failed(e) && e@ == es && final(self).held() == old(
                    self,
                ).held(),
                Ok(h) => {
                    if h.tid != old(self).id() {
                        r matches Step::Failed(e) && e@ == ErrorView::Malformed(
                            mismatch_message(h.tid, old(self).id()),
                        )
                    } else {
                        match h.kind {
                            ContainerType::Data => r matches Step::Continue && final(self).held()
                                == c@.skip(12),
                            ContainerType::Response => {
                                if h.code == RESPONSE_OK {
                                    r matches Step::Done(v) && v@ == old(self).held()
                                } else {
                                    r matches Step::Failed(e) && e@ == ErrorView::Response(h.code)
                                }
                            },
                            _ => r matches Step::Continue && final(self).held() == old(
                                self,
                            ).held(),
                        }
                    }
                },
            },
    {
        let h = match ContainerInfo::parse(c.as_slice()) {
            Ok(h) => h,
            Err(e) => {
                return Step::Failed(e);
            },
        };
        if !h.belongs_to(self.tid) {
            let mut m = "mismatched txnid ".to_owned();
            let got = u64_dec(h.tid as u64);
            m.append(got.as_str());
            m.append(", expecting ");
            let want = u64_dec(self.tid as u64);
            m.append(want.as_str());
            proof {
                assert(m@ =~= mismatch_message(h.tid, self.tid));
            }
            return Step::Failed(Error::Malformed(m));
        }
        match h.kind {
            ContainerType::Data => {
                self.data = slice_to_vec(slice_subrange(c.as_slice(), 12, c.len()));
                proof {
                    assert(c@.subrange(12, c@.len() as int) =~= c@.skip(12));
                }
                Step::Continue
            },
            ContainerType::Response => {
                if h.code != RESPONSE_OK {
                    Step::Failed(Error::Response(h.code))
                } else {
                    let mut out: Vec<u8> = Vec::new();
                    core::mem::swap(&mut out, &mut self.data);
                    Step::Done(out)
                }
            },
            _ => Step::Continue,
        }
    }
}

/// The session-side transaction engine: it assigns transaction ids,
/// starting at zero and advancing once per command, so no two
/// transactions of one session share an id.
pub struct Engine {
    /// The id the next transaction will use.
    pub current_tid: u32,
}

impl Engine {
    /// An engine for a fresh session.
    pub fn new() -> (r: Engine)
        ensures
            r.current_tid == 0,
    {
        Engine { current_tid: 0 }
    }

    /// Assigns the next transaction id and builds the containers to
    /// write: the Command phase carrying the parameters, and a Data
    /// phase when outbound data is present.
    pub fn begin(&mut self, code: u16, params: &Vec<u32>, data: Option<&Vec<u8>>) -> (r: (
        u32,
        Vec<Vec<u8>>,
    ))
        requires
            old(self).current_tid < 0xFFFFFFFF,
            4 * params@.len() + 12 <= u32::MAX,
            data matches Some(d) ==> d@.len() + 12 <= u32::MAX,
        ensures
            final(self).current_tid == old(self).current_tid + 1,
            r.0 == old(self).current_tid,
            r.1@.len() >= 1,
            r.1@[0]@ == spec_phase_bytes(
                ContainerType::Command,
                code,
                r.0,
                spec_params_payload(params@),
            ),
            match data {
                Some(d) => r.1@.len() == 2 && r.1@[1]@ == spec_phase_bytes(
                    ContainerType::Data,
                    code,
                    r.0,
                    d@,
                ),
                None => r.1@.len() == 1,
            },
    {
        let tid = self.current_tid;
        self.current_tid = self.current_tid + 1;
        let payload = params_payload(params);
        proof {
            lemma_params_payload_len(params@);
        }
        let mut out: Vec<Vec<u8>> = Vec::new();
        out.push(phase_bytes(ContainerType::Command, code, tid, &payload));
        match data {
            Some(d) => {
                out.push(phase_bytes(ContainerType::Data, code, tid, d));
            },
            None => {},
        }
        (tid, out)
    }

    /// Executes one complete PTP transaction against the containers the
    /// device returned for it, handed in reassembled and in order:
    /// assigns the transaction id, then judges the received containers.
    /// The containers to write come from `begin`; a live caller writes
    /// them and reads the inbound containers between the two steps.
    pub fn command(&mut self, code: u16, params: &Vec<u32>, data: Option<&Vec<u8>>, inbound: &Vec<
        Vec<u8>,
    >) -> (r: Result<Vec<u8>, Error>)
        requires
            old(self).current_tid < 0xFFFFFFFF,
            4 * params@.len() + 12 <= u32::MAX,
            data matches Some(d) ==> d@.len() + 12 <= u32::MAX,
        ensures
            final(self).current_tid == old(self).current_tid + 1,
            match r {
                Ok(v) => spec_transaction(
                    old(self).current_tid,
                    inbound@.map_values(|c: Vec<u8>| c@),
                    Seq::empty(),
                ) == Ok::<Seq<u8>, ErrorView>(v@),
                Err(e) => spec_transaction(
                    old(self).current_tid,
                    inbound@.map_values(|c: Vec<u8>| c@),
                    Seq::empty(),
                ) == Err::<Seq<u8>, ErrorView>(e@),
            },
    {
        let (tid, _outbound) = self.begin(code, params, data);
        run_responses(tid, inbound)
    }
}

} // verus!
