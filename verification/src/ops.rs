//! The typed operations of the facade: which command each one issues,
//! and how its reply payload is decoded. Each operation is judged
//! against the containers the device returned, handed in reassembled
//! and in order; a live caller obtains them by writing what `begin`
//! builds and reading until the Response phase.

use vstd::prelude::*;
use crate::StandardCommandCode;
use crate::datasets::{DeviceInfo, ObjectInfo, StorageInfo, spec_parse_device_info,
    spec_parse_object_info, spec_parse_storage_info};
use crate::engine::{Engine, spec_transaction};
use crate::error::{Error, ErrorView};
use crate::reader::Reader;
use crate::wire::{p_u32, sp_array, sp_u32};

verus! {

/// A typed operation as the engine transmits it: the operation code and
/// the command parameters.
pub struct Request {
    pub code: u16,
    pub params: Vec<u32>,
}

/// The parameter a filter argument contributes: zero when absent.
pub open spec fn spec_filter_param(filter: Option<u32>) -> u32 {
    match filter {
        Some(f) => f,
        None => 0,
    }
}

/// GetDeviceInfo, with the three null parameters the facade sends.
pub fn get_device_info_request() -> (r: Request)
    ensures
        r.code == 0x1001,
        r.params@ == seq![0u32, 0u32, 0u32],
{
    let mut params: Vec<u32> = Vec::new();
    params.push(0);
    params.push(0);
    params.push(0);
    proof {
        assert(params@ =~= seq![0u32, 0u32, 0u32]);
    }
    Request { code: StandardCommandCode::GET_DEVICE_INFO, params }
}

/// OpenSession: the session id is always 1.
pub fn open_session_request() -> (r: Request)
    ensures
        r.code == 0x1002,
        r.params@ == seq![1u32, 0u32, 0u32],
{
    let mut params: Vec<u32> = Vec::new();
    params.push(1);
    params.push(0);
    params.push(0);
    proof {
        assert(params@ =~= seq![1u32, 0u32, 0u32]);
    }
    Request { code: StandardCommandCode::OPEN_SESSION, params }
}

/// CloseSession, with no parameters.
pub fn close_session_request() -> (r: Request)
    ensures
        r.code == 0x1003,
        r.params@ == Seq::<u32>::empty(),
{
    let params: Vec<u32> = Vec::new();
    Request { code: StandardCommandCode::CLOSE_SESSION, params }
}

/// GetStorageIDs, with no parameters.
pub fn get_storageids_request() -> (r: Request)
    ensures
        r.code == 0x1004,
        r.params@ == Seq::<u32>::empty(),
{
    let params: Vec<u32> = Vec::new();
    Request { code: StandardCommandCode::GET_STORAGE_IDS, params }
}

/// GetStorageInfo for one storage id.
pub fn get_storage_info_request(storage_id: u32) -> (r: Request)
    ensures
        r.code == 0x1005,
        r.params@ == seq![storage_id],
{
    let mut params: Vec<u32> = Vec::new();
    params.push(storage_id);
    proof {
        assert(params@ =~= seq![storage_id]);
    }
    Request { code: StandardCommandCode::GET_STORAGE_INFO, params }
}

/// GetNumObjects. Per PTP, `handle_id` 0xFFFFFFFF selects the root of
/// the store and 0 selects all objects recursively; an absent filter
/// sends zero.
pub fn get_numobjects_request(storage_id: u32, handle_id: u32, filter: Option<u32>) -> (r: Request)
    ensures
        r.code == 0x1006,
        r.params@ == seq![storage_id, spec_filter_param(filter), handle_id],
{
    let f = match filter {
        Some(f) => f,
        None => 0,
    };
    let mut params: Vec<u32> = Vec::new();
    params.push(storage_id);
    params.push(f);
    params.push(handle_id);
    proof {
        assert(params@ =~= seq![storage_id, spec_filter_param(filter), handle_id]);
    }
    Request { code: StandardCommandCode::GET_NUM_OBJECTS, params }
}

/// GetObjectHandles. Per PTP, `handle_id` 0xFFFFFFFF selects the root of
/// the store and 0 selects all objects recursively; an absent filter
/// sends zero.
pub fn get_objecthandles_request(storage_id: u32, handle_id: u32, filter: Option<u32>) -> (r:
    Request)
    ensures
        r.code == 0x1007,
        r.params@ == seq![storage_id, spec_filter_param(filter), handle_id],
{
    let f = match filter {
        Some(f) => f,
        None => 0,
    };
    let mut params: Vec<u32> = Vec::new();
    params.push(storage_id);
    params.push(f);
    params.push(handle_id);
    proof {
        assert(params@ =~= seq![storage_id, spec_filter_param(filter), handle_id]);
    }
    Request { code: StandardCommandCode::GET_OBJECT_HANDLES, params }
}

/// GetObjectInfo for one object handle.
pub fn get_objectinfo_request(handle: u32) -> (r: Request)
    ensures
        r.code == 0x1008,
        r.params@ == seq![handle],
{
    let mut params: Vec<u32> = Vec::new();
    params.push(handle);
    proof {
        assert(params@ =~= seq![handle]);
    }
    Request { code: StandardCommandCode::GET_OBJECT_INFO, params }
}

/// GetObject for one object handle.
pub fn get_object_request(handle: u32) -> (r: Request)
    ensures
        r.code == 0x1009,
        r.params@ == seq![handle],
{
    let mut params: Vec<u32> = Vec::new();
    params.push(handle);
    proof {
        assert(params@ =~= seq![handle]);
    }
    Request { code: StandardCommandCode::GET_OBJECT, params }
}

/// GetPartialObject: a handle, a byte offset, and the most bytes wanted.
pub fn get_partialobject_request(handle: u32, offset: u32, max: u32) -> (r: Request)
    ensures
        r.code == 0x101B,
        r.params@ == seq![handle, offset, max],
{
    let mut params: Vec<u32> = Vec::new();
    params.push(handle);
    params.push(offset);
    params.push(max);
    proof {
        assert(params@ =~= seq![handle, offset, max]);
    }
    Request { code: StandardCommandCode::GET_PARTIAL_OBJECT, params }
}

/// DeleteObject for one object handle.
pub fn delete_object_request(handle: u32) -> (r: Request)
    ensures
        r.code == 0x100B,
        r.params@ == seq![handle],
{
    let mut params: Vec<u32> = Vec::new();
    params.push(handle);
    proof {
        assert(params@ =~= seq![handle]);
    }
    Request { code: StandardCommandCode::DELETE_OBJECT, params }
}

/// PowerDown, with no parameters.
pub fn power_down_request() -> (r: Request)
    ensures
        r.code == 0x1013,
        r.params@ == Seq::<u32>::empty(),
{
    let params: Vec<u32> = Vec::new();
    Request { code: StandardCommandCode::POWER_DOWN, params }
}

impl Engine {
    /// GetObjectInfo: issues the command and decodes the whole reply
    /// payload as an `ObjectInfo`.
    pub fn get_objectinfo(&mut self, handle: u32, inbound: &Vec<Vec<u8>>) -> (r: Result<
        ObjectInfo,
        Error,
    >)
        requires
            old(self).current_tid < 0xFFFFFFFF,
        ensures
            final(self).current_tid == old(self).current_tid + 1,
            match spec_transaction(
                old(self).current_tid,
                inbound@.map_values(|c: Vec<u8>| c@),
                Seq::empty(),
            ) {
                Err(es) => r matches Err(e) && e@ == es,
                Ok(payload) => match r {
                    Ok(d) => spec_parse_object_info(payload, 0) == Some((d@, payload.len() as int)),
                    Err(e) => e@ matches ErrorView::Malformed(_) && !(spec_parse_object_info(
                        payload,
                        0,
                    ) matches Some((dv, n)) && n == payload.len()),
                },
            },
    {
        let req = get_objectinfo_request(handle);
        let data = match self.command(req.code, &req.params, None, inbound) {
            Ok(v) => v,
            Err(e) => {
                return Err(e);
            },
        };
        ObjectInfo::decode(data.as_slice())
    }

    /// GetObject: issues the command and returns the raw reply payload.
    pub fn get_object(&mut self, handle: u32, inbound: &Vec<Vec<u8>>) -> (r: Result<Vec<u8>, Error>)
        requires
            old(self).current_tid < 0xFFFFFFFF,
        ensures
            final(self).current_tid == old(self).current_tid + 1,
            match r {
                Ok(v) => spec_transaction(
                    old(self).current_tid,
                    inbound@.map_values(|c: Vec<u8>| c@),
                    Seq::empty(),
                ) == Ok::<Seq<u8>, ErrorView>(v@),
                Err(e) => spec_transaction(
                    old(self).current_tid,
                    inbound@.map_values(|c: Vec<u8>| c@),
                    Seq::empty(),
                ) == Err::<Seq<u8>, ErrorView>(e@),
            },
    {
        let req = get_object_request(handle);
        self.command(req.code, &req.params, None, inbound)
    }

    /// GetPartialObject: issues the command and returns the raw reply
    /// payload.
    pub fn get_partialobject(&mut self, handle: u32, offset: u32, max: u32, inbound: &Vec<
        Vec<u8>,
    >) -> (r: Result<Vec<u8>, Error>)
        requires
            old(self).current_tid < 0xFFFFFFFF,
        ensures
            final(self).current_tid == old(self).current_tid + 1,
            match r {
                Ok(v) => spec_transaction(
                    old(self).current_tid,
                    inbound@.map_values(|c: Vec<u8>| c@),
                    Seq::empty(),
                ) == Ok::<Seq<u8>, ErrorView>(v@),
                Err(e) => spec_transaction(
                    old(self).current_tid,
                    inbound@.map_values(|c: Vec<u8>| c@),
                    Seq::empty(),
                ) == Err::<Seq<u8>, ErrorView>(e@),
            },
    {
        let req = get_partialobject_request(handle, offset, max);
        self.command(req.code, &req.params, None, inbound)
    }

    /// DeleteObject: issues the command; the reply payload is dropped.
    pub fn delete_object(&mut self, handle: u32, inbound: &Vec<Vec<u8>>) -> (r: Result<(), Error>)
        requires
            old(self).current_tid < 0xFFFFFFFF,
        ensures
            final(self).current_tid == old(self).current_tid + 1,
            match r {
                Ok(()) => spec_transaction(
                    old(self).current_tid,
                    inbound@.map_values(|c: Vec<u8>| c@),
                    Seq::empty(),
                ) is Ok,
                Err(e) => spec_transaction(
                    old(self).current_tid,
                    inbound@.map_values(|c: Vec<u8>| c@),
                    Seq::empty(),
                ) == Err::<Seq<u8>, ErrorView>(e@),
            },
    {
        let req = delete_object_request(handle);
        match self.command(req.code, &req.params, None, inbound) {
            Ok(_) => Ok(()),
            Err(e) => Err(e),
        }
    }

    /// PowerDown: issues the command; the reply payload is dropped.
    pub fn power_down(&mut self, inbound: &Vec<Vec<u8>>) -> (r: Result<(), Error>)
        requires
            old(self).current_tid < 0xFFFFFFFF,
        ensures
            final(self).current_tid == old(self).current_tid + 1,
            match r {
                Ok(()) => spec_transaction(
                    old(self).current_tid,
                    inbound@.map_values(|c: Vec<u8>| c@),
                    Seq::empty(),
                ) is Ok,
                Err(e) => spec_transaction(
                    old(self).current_tid,
                    inbound@.map_values(|c: Vec<u8>| c@),
                    Seq::empty(),
                ) == Err::<Seq<u8>, ErrorView>(e@),
            },
    {
        let req = power_down_request();
        match self.command(req.code, &req.params, None, inbound) {
            Ok(_) => Ok(()),
            Err(e) => Err(e),
        }
    }

    /// GetObjectHandles: issues the command and decodes the reply as a
    /// u32 array filling the whole payload.
    pub fn get_objecthandles(&mut self, storage_id: u32, handle_id: u32, filter: Option<u32>,
        inbound: &Vec<Vec<u8>>) -> (r: Result<Vec<u32>, Error>)
        requires
            old(self).current_tid < 0xFFFFFFFF,
        ensures
            final(self).current_tid == old(self).current_tid + 1,
            match spec_transaction(
                old(self).current_tid,
                inbound@.map_values(|c: Vec<u8>| c@),
                Seq::empty(),
            ) {
                Err(es) => r matches Err(e) && e@ == es,
                Ok(payload) => match r {
                    Ok(v) => sp_array(payload, 0, p_u32()) == Some((v@, payload.len() as int)),
                    Err(e) => e@ matches ErrorView::Malformed(_) && !(sp_array(
                        payload,
                        0,
                        p_u32(),
                    ) matches Some((vs, n)) && n == payload.len()),
                },
            },
    {
        let req = get_objecthandles_request(storage_id, handle_id, filter);
        let data = match self.command(req.code, &req.params, None, inbound) {
            Ok(v) => v,
            Err(e) => {
                return Err(e);
            },
        };
        let mut cur = Reader::new(data.as_slice());
        let value = match cur.read_ptp_u32_vec() {
            Ok(v) => v,
            Err(e) => {
                return Err(e);
            },
        };
        match cur.expect_end() {
            Ok(()) => {},
            Err(e) => {
                return Err(e);
            },
        }
        Ok(value)
    }

    /// GetObjectHandles at the root of the store.
    pub fn get_objecthandles_root(&mut self, storage_id: u32, filter: Option<u32>, inbound: &Vec<
        Vec<u8>,
    >) -> (r: Result<Vec<u32>, Error>)
        requires
            old(self).current_tid < 0xFFFFFFFF,
        ensures
            final(self).current_tid == old(self).current_tid + 1,
            match spec_transaction(
                old(self).current_tid,
                inbound@.map_values(|c: Vec<u8>| c@),
                Seq::empty(),
            ) {
                Err(es) => r matches Err(e) && e@ == es,
                Ok(payload) => match r {
                    Ok(v) => sp_array(payload, 0, p_u32()) == Some((v@, payload.len() as int)),
                    Err(e) => e@ matches ErrorView::Malformed(_) && !(sp_array(
                        payload,
                        0,
                        p_u32(),
                    ) matches Some((vs, n)) && n == payload.len()),
                },
            },
    {
        self.get_objecthandles(storage_id, 0xFFFFFFFF, filter, inbound)
    }

    /// GetObjectHandles over the whole store, recursively.
    pub fn get_objecthandles_all(&mut self, storage_id: u32, filter: Option<u32>, inbound: &Vec<
        Vec<u8>,
    >) -> (r: Result<Vec<u32>, Error>)
        requires
            old(self).current_tid < 0xFFFFFFFF,
        ensures
            final(self).current_tid == old(self).current_tid + 1,
            match spec_transaction(
                old(self).current_tid,
                inbound@.map_values(|c: Vec<u8>| c@),
                Seq::empty(),
            ) {
                Err(es) => r matches Err(e) && e@ == es,
                Ok(payload) => match r {
                    Ok(v) => sp_array(payload, 0, p_u32()) == Some((v@, payload.len() as int)),
                    Err(e) => e@ matches ErrorView::Malformed(_) && !(sp_array(
                        payload,
                        0,
                        p_u32(),
                    ) matches Some((vs, n)) && n == payload.len()),
                },
            },
    {
        self.get_objecthandles(storage_id, 0x0, filter, inbound)
    }

    /// GetNumObjects: issues the command and decodes the reply as a
    /// single u32 filling the whole payload.
    pub fn get_numobjects(&mut self, storage_id: u32, handle_id: u32, filter: Option<u32>,
        inbound: &Vec<Vec<u8>>) -> (r: Result<u32, Error>)
        requires
            old(self).current_tid < 0xFFFFFFFF,
        ensures
            final(self).current_tid == old(self).current_tid + 1,
            match spec_transaction(
                old(self).current_tid,
                inbound@.map_values(|c: Vec<u8>| c@),
                Seq::empty(),
            ) {
                Err(es) => r matches Err(e) && e@ == es,
                Ok(payload) => match r {
                    Ok(v) => sp_u32(payload, 0) == Some((v, payload.len() as int)),
                    Err(e) => e@ matches ErrorView::Malformed(_) && !(sp_u32(payload, 0) matches
                    Some((v, n)) && n == payload.len()),
                },
            },
    {
        let req = get_numobjects_request(storage_id, handle_id, filter);
        let data = match self.command(req.code, &req.params, None, inbound) {
            Ok(v) => v,
            Err(e) => {
                return Err(e);
            },
        };
        let mut cur = Reader::new(data.as_slice());
        let value = match cur.read_ptp_u32() {
            Ok(v) => v,
            Err(e) => {
                return Err(e);
            },
        };
        match cur.expect_end() {
            Ok(()) => {},
            Err(e) => {
                return Err(e);
            },
        }
        Ok(value)
    }

    /// GetNumObjects at the root of the store.
    pub fn get_numobjects_roots(&mut self, storage_id: u32, filter: Option<u32>, inbound: &Vec<
        Vec<u8>,
    >) -> (r: Result<u32, Error>)
        requires
            old(self).current_tid < 0xFFFFFFFF,
        ensures
            final(self).current_tid == old(self).current_tid + 1,
            match spec_transaction(
                old(self).current_tid,
                inbound@.map_values(|c: Vec<u8>| c@),
                Seq::empty(),
            ) {
                Err(es) => r matches Err(e) && e@ == es,
                Ok(payload) => match r {
                    Ok(v) => sp_u32(payload, 0) == Some((v, payload.len() as int)),
                    Err(e) => e@ matches ErrorView::Malformed(_) && !(sp_u32(payload, 0) matches
                    Some((v, n)) && n == payload.len()),
                },
            },
    {
        self.get_numobjects(storage_id, 0xFFFFFFFF, filter, inbound)
    }

    /// GetNumObjects over the whole store, recursively.
    pub fn get_numobjects_all(&mut self, storage_id: u32, filter: Option<u32>, inbound: &Vec<
        Vec<u8>,
    >) -> (r: Result<u32, Error>)
        requires
            old(self).current_tid < 0xFFFFFFFF,
        ensures
            final(self).current_tid == old(self).current_tid + 1,
            match spec_transaction(
                old(self).current_tid,
                inbound@.map_values(|c: Vec<u8>| c@),
                Seq::empty(),
            ) {
                Err(es) => r matches Err(e) && e@ == es,
                Ok(payload) => match r {
                    Ok(v) => sp_u32(payload, 0) == Some((v, payload.len() as int)),
                    Err(e) => e@ matches ErrorView::Malformed(_) && !(sp_u32(payload, 0) matches
                    Some((v, n)) && n == payload.len()),
                },
            },
    {
        self.get_numobjects(storage_id, 0x0, filter, inbound)
    }

    /// GetStorageInfo: issues the command and decodes the whole reply
    /// payload as a `StorageInfo`.
    pub fn get_storage_info(&mut self, storage_id: u32, inbound: &Vec<Vec<u8>>) -> (r: Result<
        StorageInfo,
        Error,
    >)
        requires
            old(self).current_tid < 0xFFFFFFFF,
        ensures
            final(self).current_tid == old(self).current_tid + 1,
            match spec_transaction(
                old(self).current_tid,
                inbound@.map_values(|c: Vec<u8>| c@),
                Seq::empty(),
            ) {
                Err(es) => r matches Err(e) && e@ == es,
                Ok(payload) => match r {
                    Ok(d) => spec_parse_storage_info(payload, 0) == Some(
                        (d@, payload.len() as int),
                    ),
                    Err(e) => e@ matches ErrorView::Malformed(_) && !(spec_parse_storage_info(
                        payload,
                        0,
                    ) matches Some((dv, n)) && n == payload.len()),
                },
            },
    {
        let req = get_storage_info_request(storage_id);
        let data = match self.command(req.code, &req.params, None, inbound) {
            Ok(v) => v,
            Err(e) => {
                return Err(e);
            },
        };
        let mut cur = Reader::new(data.as_slice());
        let res = match StorageInfo::decode(&mut cur) {
            Ok(v) => v,
            Err(e) => {
                return Err(e);
            },
        };
        match cur.expect_end() {
            Ok(()) => {},
            Err(e) => {
                return Err(e);
            },
        }
        Ok(res)
    }

    /// GetStorageIDs: issues the command and decodes the reply as a u32
    /// array filling the whole payload.
    pub fn get_storageids(&mut self, inbound: &Vec<Vec<u8>>) -> (r: Result<Vec<u32>, Error>)
        requires
            old(self).current_tid < 0xFFFFFFFF,
        ensures
            final(self).current_tid == old(self).current_tid + 1,
            match spec_transaction(
                old(self).current_tid,
                inbound@.map_values(|c: Vec<u8>| c@),
                Seq::empty(),
            ) {
                Err(es) => r matches Err(e) && e@ == es,
                Ok(payload) => match r {
                    Ok(v) => sp_array(payload, 0, p_u32()) == Some((v@, payload.len() as int)),
                    Err(e) => e@ matches ErrorView::Malformed(_) && !(sp_array(
                        payload,
                        0,
                        p_u32(),
                    ) matches Some((vs, n)) && n == payload.len()),
                },
            },
    {
        let req = get_storageids_request();
        let data = match self.command(req.code, &req.params, None, inbound) {
            Ok(v) => v,
            Err(e) => {
                return Err(e);
            },
        };
        let mut cur = Reader::new(data.as_slice());
        let value = match cur.read_ptp_u32_vec() {
            Ok(v) => v,
            Err(e) => {
                return Err(e);
            },
        };
        match cur.expect_end() {
            Ok(()) => {},
            Err(e) => {
                return Err(e);
            },
        }
        Ok(value)
    }

    /// GetDeviceInfo: issues the command and decodes the whole reply
    /// payload as a `DeviceInfo`.
    pub fn get_device_info(&mut self, inbound: &Vec<Vec<u8>>) -> (r: Result<DeviceInfo, Error>)
        requires
            old(self).current_tid < 0xFFFFFFFF,
        ensures
            final(self).current_tid == old(self).current_tid + 1,
            match spec_transaction(
                old(self).current_tid,
                inbound@.map_values(|c: Vec<u8>| c@),
                Seq::empty(),
            ) {
                Err(es) => r matches Err(e) && e@ == es,
                Ok(payload) => match r {
                    Ok(d) => spec_parse_device_info(payload, 0) == Some((d@, payload.len() as int)),
                    Err(e) => e@ matches ErrorView::Malformed(_) && !(spec_parse_device_info(
                        payload,
                        0,
                    ) matches Some((dv, n)) && n == payload.len()),
                },
            },
    {
        let req = get_device_info_request();
        let data = match self.command(req.code, &req.params, None, inbound) {
            Ok(v) => v,
            Err(e) => {
                return Err(e);
            },
        };
        DeviceInfo::decode(data.as_slice())
    }

    /// OpenSession with session id 1: issues the command; the reply
    /// payload is dropped.
    pub fn open_session(&mut self, inbound: &Vec<Vec<u8>>) -> (r: Result<(), Error>)
        requires
            old(self).current_tid < 0xFFFFFFFF,
        ensures
            final(self).current_tid == old(self).current_tid + 1,
            match r {
                Ok(()) => spec_transaction(
                    old(self).current_tid,
                    inbound@.map_values(|c: Vec<u8>| c@),
                    Seq::empty(),
                ) is Ok,
                Err(e) => spec_transaction(
                    old(self).current_tid,
                    inbound@.map_values(|c: Vec<u8>| c@),
                    Seq::empty(),
                ) == Err::<Seq<u8>, ErrorView>(e@),
            },
    {
        let req = open_session_request();
        match self.command(req.code, &req.params, None, inbound) {
            Ok(_) => Ok(()),
            Err(e) => Err(e),
        }
    }

    /// CloseSession: issues the command; the reply payload is dropped.
    pub fn close_session(&mut self, inbound: &Vec<Vec<u8>>) -> (r: Result<(), Error>)
        requires
            old(self).current_tid < 0xFFFFFFFF,
        ensures
            final(self).current_tid == old(self).current_tid + 1,
            match r {
                Ok(()) => spec_transaction(
                    old(self).current_tid,
                    inbound@.map_values(|c: Vec<u8>| c@),
                    Seq::empty(),
                ) is Ok,
                Err(e) => spec_transaction(
                    old(self).current_tid,
                    inbound@.map_values(|c: Vec<u8>| c@),
                    Seq::empty(),
                ) == Err::<Seq<u8>, ErrorView>(e@),
            },
    {
        let req = close_session_request();
        match self.command(req.code, &req.params, None, inbound) {
            Ok(_) => Ok(()),
            Err(e) => Err(e),
        }
    }
}

} // verus!
