//! A schema-driven binary codec: values are written to a byte sink and read
//! back from a byte source under a configuration that fixes how lengths are
//! encoded and what nested elements inherit.

pub mod cfg;
pub mod codec;
pub mod compound;
pub mod endian;
pub mod error;
pub mod flags;
pub mod hashed;
pub mod literal;
pub mod num;
pub mod pack;
pub mod pipeline;
pub mod reader;
pub mod remote;
pub mod seq;
pub mod step;
pub mod tagged;
pub mod text;
pub mod to_clt;
pub mod to_srv;
pub mod transform;

pub use cfg::{def_cfg, LenWidth, MtCfg, MtLen, Utf16};
pub use codec::{reserialize, MtDeserialize, MtRoundTrip, MtSerialize, OrDefault, Parsed};
pub use error::{DeserializeError, Raw, RawView, ReadFault, SerializeError, WriteFault};
pub use flags::{EnumSet, MtFlag};
pub use hashed::{deserialize_map, deserialize_set, serialize_map, serialize_set};
pub use num::{Double, Single};
pub use pipeline::{deserialize_field, serialize_args, serialize_field, MtArgs};
pub use reader::WrapRead;
pub use seq::{mt_deserialize_seq, mt_deserialize_sized_seq, mt_serialize_seq};
