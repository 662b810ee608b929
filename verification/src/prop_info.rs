//! The `DevicePropDesc` dataset decoder (`PropInfo`) and its Sony
//! vendor overlay (`PropInfoSony`): a sibling decoder on the same codec
//! substrate, with one extra byte between `get_set` and the typed
//! fields.

use vstd::prelude::*;
use crate::error::{Error, ErrorView};
use crate::reader::Reader;
use crate::datatype::{DataType, DataTypeView, FormData, FormDataView, sp_datatype, p_datatype};
use crate::wire::{sp_u8, sp_u16, sp_elems, lemma_sp_elems_snoc, lemma_sp_elems_abort};

verus! {

/// A device property description.
#[derive(Debug)]
pub struct PropInfo {
    /// A specific property_code.
    pub property_code: u16,
    /// This field identifies the Datatype Code of the property.
    pub data_type: u16,
    /// This field indicates whether the property is read-only or read-write.
    pub get_set: u8,
    pub factory_default: DataType,
    pub current: DataType,
    pub form: FormData,
}

/// The mathematical value of a `PropInfo`.
pub struct PropInfoView {
    pub property_code: u16,
    pub data_type: u16,
    pub get_set: u8,
    pub factory_default: DataTypeView,
    pub current: DataTypeView,
    pub form: FormDataView,
}

impl View for PropInfo {
    type V = PropInfoView;

    open spec fn view(&self) -> PropInfoView {
        PropInfoView {
            property_code: self.property_code,
            data_type: self.data_type,
            get_set: self.get_set,
            factory_default: self.factory_default@,
            current: self.current@,
            form: self.form@,
        }
    }
}

/// A device property description with Sony's extra `is_enable` byte.
#[derive(Debug)]
pub struct PropInfoSony {
    /// A specific property_code.
    pub property_code: u16,
    /// This field identifies the Datatype Code of the property.
    pub data_type: u16,
    /// This field indicates whether the property is read-only or read-write.
    pub get_set: u8,
    /// This field indicates whether the property is valid, invalid or DispOnly.
    pub is_enable: u8,
    pub factory_default: DataType,
    pub current: DataType,
    pub form: FormData,
}

/// The mathematical value of a `PropInfoSony`.
pub struct PropInfoSonyView {
    pub property_code: u16,
    pub data_type: u16,
    pub get_set: u8,
    pub is_enable: u8,
    pub factory_default: DataTypeView,
    pub current: DataTypeView,
    pub form: FormDataView,
}

impl View for PropInfoSony {
    type V = PropInfoSonyView;

    open spec fn view(&self) -> PropInfoSonyView {
        PropInfoSonyView {
            property_code: self.property_code,
            data_type: self.data_type,
            get_set: self.get_set,
            is_enable: self.is_enable,
            factory_default: self.factory_default@,
            current: self.current@,
            form: self.form@,
        }
    }
}

/// The form field: a flag byte, then nothing, a range of three typed
/// values, or a u16-counted enumeration of typed values. Flags other
/// than 1 and 2 read nothing further.
pub open spec fn sp_form(s: Seq<u8>, i: int, kind: u16) -> Option<(FormDataView, int)> {
    match sp_u8(s, i) {
        None => None,
        Some((flag, i1)) => {
            if flag == 1 {
                match sp_datatype(kind, s, i1) {
                    None => None,
                    Some((min_v, i2)) => match sp_datatype(kind, s, i2) {
                        None => None,
                        Some((max_v, i3)) => match sp_datatype(kind, s, i3) {
                            None => None,
                            Some((step_v, i4)) => Some(
                                (
                                    FormDataView::Range {
                                        min_value: min_v,
                                        max_value: max_v,
                                        step: step_v,
                                    },
                                    i4,
                                ),
                            ),
                        },
                    },
                }
            } else if flag == 2 {
                match sp_u16(s, i1) {
                    None => None,
                    Some((n, i2)) => match sp_elems(s, i2, n as nat, p_datatype(kind)) {
                        None => None,
                        Some((arr, i3)) => Some((FormDataView::Enumeration { array: arr }, i3)),
                    },
                }
            } else {
                Some((FormDataView::NoForm, i1))
            }
        },
    }
}

/// The field chain of a `PropInfo`: the datatype code read early governs
/// both typed values and the form's sub-fields.
pub open spec fn spec_parse_prop_info(s: Seq<u8>, i: int) -> Option<(PropInfoView, int)> {
    match sp_u16(s, i) {
        None => None,
        Some((property_code, i1)) => match sp_u16(s, i1) {
            None => None,
            Some((data_type, i2)) => match sp_u8(s, i2) {
                None => None,
                Some((get_set, i3)) => match sp_datatype(data_type, s, i3) {
                    None => None,
                    Some((factory_default, i4)) => match sp_datatype(data_type, s, i4) {
                        None => None,
                        Some((current, i5)) => match sp_form(s, i5, data_type) {
                            None => None,
                            Some((form, i6)) => Some(
                                (
                                    PropInfoView {
                                        property_code,
                                        data_type,
                                        get_set,
                                        factory_default,
                                        current,
                                        form,
                                    },
                                    i6,
                                ),
                            ),
                        },
                    },
                },
            },
        },
    }
}

/// The field chain of a `PropInfoSony`: as `PropInfo`, with the
/// `is_enable` byte between `get_set` and the typed fields.
pub open spec fn spec_parse_prop_info_sony(s: Seq<u8>, i: int) -> Option<(PropInfoSonyView, int)> {
    match sp_u16(s, i) {
        None => None,
        Some((property_code, i1)) => match sp_u16(s, i1) {
            None => None,
            Some((data_type, i2)) => match sp_u8(s, i2) {
                None => None,
                Some((get_set, i3)) => match sp_u8(s, i3) {
                    None => None,
                    Some((is_enable, i4)) => match sp_datatype(data_type, s, i4) {
                        None => None,
                        Some((factory_default, i5)) => match sp_datatype(data_type, s, i5) {
                            None => None,
                            Some((current, i6)) => match sp_form(s, i6, data_type) {
                                None => None,
                                Some((form, i7)) => Some(
                                    (
                                        PropInfoSonyView {
                                            property_code,
                                            data_type,
                                            get_set,
                                            is_enable,
                                            factory_default,
                                            current,
                                            form,
                                        },
                                        i7,
                                    ),
                                ),
                            },
                        },
                    },
                },
            },
        },
    }
}

/// Reads the form field with the dataset's datatype code.
#[verifier::loop_isolation(false)]
fn read_form<'a>(cur: &mut Reader<'a>, kind: u16) -> (r: Result<FormData, Error>)
    requires
        old(cur).wf(),
    ensures
        final(cur).wf(),
        final(cur).data() == old(cur).data(),
        match r {
            Ok(f) => sp_form(final(cur).data(), old(cur).position(), kind) == Some(
                (f@, final(cur).position()),
            ),
            Err(e) => sp_form(final(cur).data(), old(cur).position(), kind) is None && e@ matches
                ErrorView::Malformed(_),
        },
{
    let ghost d = cur.data();
    let flag = match cur.read_ptp_u8() {
        Ok(v) => v,
        Err(e) => {
            return Err(e);
        },
    };
    match flag {
        0x01 => {
            let min_value = match DataType::read_type(kind, cur) {
                Ok(v) => v,
                Err(e) => {
                    return Err(e);
                },
            };
            let max_value = match DataType::read_type(kind, cur) {
                Ok(v) => v,
                Err(e) => {
                    return Err(e);
                },
            };
            let step = match DataType::read_type(kind, cur) {
                Ok(v) => v,
                Err(e) => {
                    return Err(e);
                },
            };
            Ok(FormData::Range { min_value, max_value, step })
        },
        0x02 => {
            let n = match cur.read_ptp_u16() {
                Ok(v) => v,
                Err(e) => {
                    return Err(e);
                },
            };
            let ghost es = cur.position();
            let mut array: Vec<DataType> = Vec::new();
            let mut k: usize = 0;
            proof {
                assert(array@.map_values(|x: DataType| x@) =~= Seq::<DataTypeView>::empty());
            }
            while k < n as usize
                invariant
                    cur.wf(),
                    cur.data() == d,
                    k <= n as usize,
                    sp_elems(d, es, k as nat, p_datatype(kind)) == Some(
                        (array@.map_values(|x: DataType| x@), cur.position()),
                    ),
                decreases n as usize - k,
            {
                let ghost j = cur.position();
                match DataType::read_type(kind, cur) {
                    Ok(v) => {
                        proof {
                            assert(p_datatype(kind)(d, j) == sp_datatype(kind, d, j));
                            lemma_sp_elems_snoc(d, es, k as nat, p_datatype(kind));
                        }
                        array.push(v);
                        k = k + 1;
                        proof {
                            assert(array@.map_values(|x: DataType| x@) =~= sp_elems(
                                d,
                                es,
                                k as nat,
                                p_datatype(kind),
                            ).unwrap().0);
                        }
                    },
                    Err(e) => {
                        proof {
                            assert(p_datatype(kind)(d, j) == sp_datatype(kind, d, j));
                            lemma_sp_elems_abort(d, es, k as nat, n as nat, p_datatype(kind));
                        }
                        return Err(e);
                    },
                }
            }
            Ok(FormData::Enumeration { array })
        },
        _ => Ok(FormData::NoForm),
    }
}

impl PropInfo {
    /// Reads a `PropInfo` mid-stream: every field in order, with no
    /// trailing-bytes check.
    pub fn decode<'a>(cur: &mut Reader<'a>) -> (r: Result<PropInfo, Error>)
        requires
            old(cur).wf(),
        ensures
            final(cur).wf(),
            final(cur).data() == old(cur).data(),
            match r {
                Ok(p) => spec_parse_prop_info(final(cur).data(), old(cur).position()) == Some(
                    (p@, final(cur).position()),
                ),
                Err(e) => spec_parse_prop_info(final(cur).data(), old(cur).position()) is None
                    && e@ matches ErrorView::Malformed(_),
            },
    {
        let property_code = match cur.read_ptp_u16() {
            Ok(v) => v,
            Err(e) => {
                return Err(e);
            },
        };
        let data_type = match cur.read_ptp_u16() {
            Ok(v) => v,
            Err(e) => {
                return Err(e);
            },
        };
        let get_set = match cur.read_ptp_u8() {
            Ok(v) => v,
            Err(e) => {
                return Err(e);
            },
        };
        let factory_default = match DataType::read_type(data_type, cur) {
            Ok(v) => v,
            Err(e) => {
                return Err(e);
            },
        };
        let current = match DataType::read_type(data_type, cur) {
            Ok(v) => v,
            Err(e) => {
                return Err(e);
            },
        };
        let form = match read_form(cur, data_type) {
            Ok(v) => v,
            Err(e) => {
                return Err(e);
            },
        };
        Ok(PropInfo { property_code, data_type, get_set, factory_default, current, form })
    }
}

impl PropInfoSony {
    /// Reads a `PropInfoSony` mid-stream: as `PropInfo`, with the extra
    /// `is_enable` byte.
    pub fn decode<'a>(cur: &mut Reader<'a>) -> (r: Result<PropInfoSony, Error>)
        requires
            old(cur).wf(),
        ensures
            final(cur).wf(),
            final(cur).data() == old(cur).data(),
            match r {
                Ok(p) => spec_parse_prop_info_sony(final(cur).data(), old(cur).position()) == Some(
                    (p@, final(cur).position()),
                ),
                Err(e) => spec_parse_prop_info_sony(final(cur).data(), old(cur).position()) is None
                    && e@ matches ErrorView::Malformed(_),
            },
    {
        let property_code = match cur.read_ptp_u16() {
            Ok(v) => v,
            Err(e) => {
                return Err(e);
            },
        };
        let data_type = match cur.read_ptp_u16() {
            Ok(v) => v,
            Err(e) => {
                return Err(e);
            },
        };
        let get_set = match cur.read_ptp_u8() {
            Ok(v) => v,
            Err(e) => {
                return Err(e);
            },
        };
        let is_enable = match cur.read_ptp_u8() {
            Ok(v) => v,
            Err(e) => {
                return Err(e);
            },
        };
        let factory_default = match DataType::read_type(data_type, cur) {
            Ok(v) => v,
            Err(e) => {
                return Err(e);
            },
        };
        let current = match DataType::read_type(data_type, cur) {
            Ok(v) => v,
            Err(e) => {
                return Err(e);
            },
        };
        let form = match read_form(cur, data_type) {
            Ok(v) => v,
            Err(e) => {
                return Err(e);
            },
        };
        Ok(
            PropInfoSony {
                property_code,
                data_type,
                get_set,
                is_enable,
                factory_default,
                current,
                form,
            },
        )
    }
}

} // verus!
