//! Host-side client library for the Picture Transfer Protocol (PTP,
//! ISO 15740) over USB bulk endpoints: wire-format codec, container
//! framing, dataset decoders, and the transaction engine.
#![allow(non_snake_case)]

use vstd::prelude::*;

pub mod StandardCommandCode;
pub mod StandardResponseCode;
pub mod container;
pub mod datasets;
pub mod datatype;
pub mod engine;
pub mod error;
pub mod fmt_num;
pub mod ops;
pub mod prop_info;
pub mod reader;
pub mod strutil;
pub mod tree;
pub mod usb;
pub mod utf16;
pub mod wire;

pub use container::ContainerInfo;
pub use container::ContainerType;
pub use datasets::DeviceInfo;
pub use datasets::ObjectInfo;
pub use datasets::StorageInfo;
pub use datatype::DataType;
pub use datatype::FormData;
pub use engine::Engine;
pub use error::Error;
pub use ops::Request;
pub use prop_info::PropInfo;
pub use prop_info::PropInfoSony;
pub use reader::Reader;
pub use tree::ObjectTree;

verus! {

/// PTP response codes are 16-bit identifiers (standard ones are 0x2000-0x20FF).
pub type ResponseCode = u16;

/// PTP operation codes are 16-bit identifiers (standard ones are 0x1000-0x10FF).
pub type CommandCode = u16;

} // verus!
