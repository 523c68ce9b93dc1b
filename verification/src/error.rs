//! The two error types of the codec, their mathematical views, and the
//! primitive values that an error can carry.

use vstd::prelude::*;

verus! {

/// `std::io::Error`, carried through as it is.
#[verifier::external_type_specification]
#[verifier::external_body]
pub struct ExIoError(std::io::Error);

/// Whether `std::io::Error::kind` of this error is `ErrorKind::UnexpectedEof`.
pub uninterp spec fn io_error_at_end(err: std::io::Error) -> bool;

/// Calls `std::io::Error::kind` and compares the kind with
/// `ErrorKind::UnexpectedEof`. The contract only gives the answer a name.
#[verifier::external_body]
pub(crate) fn io_at_end(err: &std::io::Error) -> (r: bool)
    ensures
        r == io_error_at_end(*err),
{
    err.kind() == std::io::ErrorKind::UnexpectedEof
}

/// Calls `std::io::Error::new` with `ErrorKind::InvalidData`, the kind that
/// std documents for text that is not valid UTF-8. An error built from a
/// kind reports that kind, so it is not an end-of-stream error.
#[verifier::external_body]
pub(crate) fn invalid_data() -> (r: std::io::Error)
    ensures
        !io_error_at_end(r),
{
    std::io::Error::new(std::io::ErrorKind::InvalidData, "stream did not contain valid UTF-8")
}

/// A primitive value as it stands on the wire: what literal constants and
/// enum discriminants are made of, and what the errors about them carry.
#[derive(Debug)]
pub enum Raw {
    U8(u8),
    I8(i8),
    U16(u16),
    I16(i16),
    U32(u32),
    I32(i32),
    U64(u64),
    I64(i64),
    Bool(bool),
    Str(String),
}

/// The mathematical value of a [`Raw`].
pub ghost enum RawView {
    U8(u8),
    I8(i8),
    U16(u16),
    I16(i16),
    U32(u32),
    I32(i32),
    U64(u64),
    I64(i64),
    Bool(bool),
    Str(Seq<char>),
}

impl View for Raw {
    type V = RawView;

    open spec fn view(&self) -> RawView {
        match self {
            Raw::U8(v) => RawView::U8(*v),
            Raw::I8(v) => RawView::I8(*v),
            Raw::U16(v) => RawView::U16(*v),
            Raw::I16(v) => RawView::I16(*v),
            Raw::U32(v) => RawView::U32(*v),
            Raw::I32(v) => RawView::I32(*v),
            Raw::U64(v) => RawView::U64(*v),
            Raw::I64(v) => RawView::I64(*v),
            Raw::Bool(v) => RawView::Bool(*v),
            Raw::Str(v) => RawView::Str(v@),
        }
    }
}

impl DeepView for Raw {
    type V = RawView;

    open spec fn deep_view(&self) -> RawView {
        self@
    }
}

impl Raw {
    /// A copy of the value.
    pub fn duplicate(&self) -> (r: Raw)
        ensures
            r@ == self@,
    {
        match self {
            Raw::U8(v) => Raw::U8(*v),
            Raw::I8(v) => Raw::I8(*v),
            Raw::U16(v) => Raw::U16(*v),
            Raw::I16(v) => Raw::I16(*v),
            Raw::U32(v) => Raw::U32(*v),
            Raw::I32(v) => Raw::I32(*v),
            Raw::U64(v) => Raw::U64(*v),
            Raw::I64(v) => Raw::I64(*v),
            Raw::Bool(v) => Raw::Bool(*v),
            Raw::Str(v) => Raw::Str(v.clone()),
        }
    }

    /// Equality of two values: the same kind and the same content.
    pub fn same(&self, other: &Raw) -> (r: bool)
        ensures
            r == (self@ == other@),
    {
        match (self, other) {
            (Raw::U8(a), Raw::U8(b)) => *a == *b,
            (Raw::I8(a), Raw::I8(b)) => *a == *b,
            (Raw::U16(a), Raw::U16(b)) => *a == *b,
            (Raw::I16(a), Raw::I16(b)) => *a == *b,
            (Raw::U32(a), Raw::U32(b)) => *a == *b,
            (Raw::I32(a), Raw::I32(b)) => *a == *b,
            (Raw::U64(a), Raw::U64(b)) => *a == *b,
            (Raw::I64(a), Raw::I64(b)) => *a == *b,
            (Raw::Bool(a), Raw::Bool(b)) => *a == *b,
            (Raw::Str(a), Raw::Str(b)) => *a == *b,
            _ => false,
        }
    }
}

/// Why a value could not be written.
#[derive(Debug)]
pub enum SerializeError {
    /// A stream that the value passes through (a compressor) failed.
    IoError(std::io::Error),
    /// A collection or string is too long for the width of its length prefix.
    TooBig(core::num::TryFromIntError),
    /// A custom mapping function failed, with its message.
    Other(String),
}

/// The mathematical value of a [`SerializeError`].
pub ghost enum WriteFault {
    Io,
    TooBig,
    Other(Seq<char>),
}

impl View for SerializeError {
    type V = WriteFault;

    open spec fn view(&self) -> WriteFault {
        match self {
            SerializeError::IoError(_) => WriteFault::Io,
            SerializeError::TooBig(_) => WriteFault::TooBig,
            SerializeError::Other(m) => WriteFault::Other(m@),
        }
    }
}

impl From<std::io::Error> for SerializeError {
    fn from(err: std::io::Error) -> (r: SerializeError) {
        SerializeError::IoError(err)
    }
}

impl vstd::std_specs::convert::FromSpecImpl<std::io::Error> for SerializeError {
    open spec fn obeys_from_spec() -> bool {
        true
    }

    open spec fn from_spec(err: std::io::Error) -> SerializeError {
        SerializeError::IoError(err)
    }
}

/// Why a value could not be read.
#[derive(Debug)]
pub enum DeserializeError {
    /// A stream that the bytes pass through failed, or text was not UTF-8.
    IoError(std::io::Error),
    /// The input ended before the value was complete.
    UnexpectedEof,
    /// A length on the wire does not fit the machine's `usize`.
    TooBig(core::num::TryFromIntError),
    /// An unpaired UTF-16 surrogate, with its code unit.
    InvalidUtf16(u16),
    /// An unknown discriminant, with the enum's name and the value read.
    InvalidEnum(&'static str, Raw),
    /// A literal constant that differs: the value wanted and the value read.
    InvalidConst(Raw, Raw),
    /// A custom mapping function failed, with its message.
    Other(String),
}

/// The mathematical value of a [`DeserializeError`].
pub ghost enum ReadFault {
    Io,
    UnexpectedEof,
    TooBig,
    InvalidUtf16(u16),
    InvalidEnum(Seq<char>, RawView),
    InvalidConst(RawView, RawView),
    Other(Seq<char>),
}

impl View for DeserializeError {
    type V = ReadFault;

    open spec fn view(&self) -> ReadFault {
        match self {
            DeserializeError::IoError(_) => ReadFault::Io,
            DeserializeError::UnexpectedEof => ReadFault::UnexpectedEof,
            DeserializeError::TooBig(_) => ReadFault::TooBig,
            DeserializeError::InvalidUtf16(u) => ReadFault::InvalidUtf16(*u),
            DeserializeError::InvalidEnum(n, d) => ReadFault::InvalidEnum(n@, d@),
            DeserializeError::InvalidConst(w, g) => ReadFault::InvalidConst(w@, g@),
            DeserializeError::Other(m) => ReadFault::Other(m@),
        }
    }
}

impl From<std::io::Error> for DeserializeError {
    /// An end-of-stream error of the underlying stream becomes
    /// `UnexpectedEof`; every other one is carried along.
    fn from(err: std::io::Error) -> (r: DeserializeError) {
        if io_at_end(&err) {
            DeserializeError::UnexpectedEof
        } else {
            DeserializeError::IoError(err)
        }
    }
}

impl vstd::std_specs::convert::FromSpecImpl<std::io::Error> for DeserializeError {
    open spec fn obeys_from_spec() -> bool {
        true
    }

    open spec fn from_spec(err: std::io::Error) -> DeserializeError {
        if io_error_at_end(err) {
            DeserializeError::UnexpectedEof
        } else {
            DeserializeError::IoError(err)
        }
    }
}

} // verus!
