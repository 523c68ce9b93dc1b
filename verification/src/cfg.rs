//! The configuration that travels with every call: how a length is put on
//! the wire, whether text is UTF-16, and what nested elements inherit.

use crate::endian::{be_bytes, get_uint, parse_uint, put_uint, radix, lemma_radix};
use crate::error::{DeserializeError, ReadFault, SerializeError};
use crate::reader::WrapRead;
use vstd::prelude::*;

verus! {

/// The width of a length prefix.
#[derive(Clone, Copy, Debug, PartialEq, Eq, Structural)]
pub enum LenWidth {
    W8,
    W16,
    W32,
    W64,
}

impl LenWidth {
    /// The number of bytes of a prefix of this width.
    pub open spec fn spec_bytes(self) -> nat {
        match self {
            LenWidth::W8 => 1,
            LenWidth::W16 => 2,
            LenWidth::W32 => 4,
            LenWidth::W64 => 8,
        }
    }

    /// The number of bytes of a prefix of this width.
    pub fn bytes(self) -> (r: usize)
        ensures
            r == self.spec_bytes(),
    {
        match self {
            LenWidth::W8 => 1,
            LenWidth::W16 => 2,
            LenWidth::W32 => 4,
            LenWidth::W64 => 8,
        }
    }

    /// Whether a prefix of this width can hold `n`.
    pub open spec fn holds(self, n: nat) -> bool {
        n < radix(self.spec_bytes())
    }

    /// Whether a prefix of this width can hold `n`.
    pub fn can_hold(self, n: u64) -> (r: bool)
        ensures
            r == self.holds(n as nat),
    {
        proof {
            lemma_radix();
        }
        match self {
            LenWidth::W8 => n <= 0xff,
            LenWidth::W16 => n <= 0xffff,
            LenWidth::W32 => n <= 0xffff_ffff,
            LenWidth::W64 => true,
        }
    }
}

/// A length as it was read: a count, or the mark that there is none and
/// the elements go on to the end of the input.
#[derive(Clone, Copy, Debug, PartialEq, Eq, Structural)]
pub enum MtLen {
    Exact(usize),
    Unbounded,
}

impl MtLen {
    /// The count, where there is one.
    pub open spec fn spec_option(&self) -> Option<usize> {
        match self {
            MtLen::Exact(n) => Some(*n),
            MtLen::Unbounded => None,
        }
    }

    /// The count, where there is one.
    #[verifier::when_used_as_spec(spec_option)]
    pub fn option(&self) -> (r: Option<usize>)
        ensures
            r == self.spec_option(),
    {
        match self {
            MtLen::Exact(n) => Some(*n),
            MtLen::Unbounded => None,
        }
    }

    /// The number of element positions: the count, or as many as the
    /// machine can number.
    pub open spec fn positions(self) -> nat {
        match self {
            MtLen::Exact(n) => n as nat,
            MtLen::Unbounded => usize::MAX as nat,
        }
    }

    /// The element positions, in order.
    pub fn range(&self) -> (r: core::ops::Range<usize>)
        ensures
            r.start == 0,
            r.end == self.positions(),
    {
        match self {
            MtLen::Exact(n) => 0..*n,
            MtLen::Unbounded => 0..usize::MAX,
        }
    }

    /// The part of `input` that a source limited to this length can reach.
    pub open spec fn reach(self, input: Seq<u8>) -> Seq<u8> {
        match self {
            MtLen::Exact(n) => if n <= input.len() {
                input.take(n as int)
            } else {
                input
            },
            MtLen::Unbounded => input,
        }
    }

    /// A source of its own over what this length lets `reader` reach. The
    /// reader itself does not move.
    pub fn take<'a>(&self, reader: &WrapRead<'a>) -> (r: WrapRead<'a>)
        ensures
            r@ == self.reach(reader@),
    {
        match self {
            MtLen::Exact(n) => reader.take(*n),
            MtLen::Unbounded => {
                let r = reader.take(reader.remaining());
                assert(reader@.take(reader@.len() as int) == reader@);
                r
            },
        }
    }
}

/// A configuration: the width of the length prefix of the value itself
/// (`None`: no prefix, the value goes on to the end of the input), whether
/// its text is UTF-16, and the configuration of what it contains (`None`:
/// the default configuration).
#[derive(Clone, Copy, Debug)]
pub struct MtCfg<'a> {
    pub len: Option<LenWidth>,
    pub utf16: bool,
    pub inner: Option<&'a MtCfg<'a>>,
}

/// The default configuration: a 16-bit length, UTF-8 text, and the default
/// configuration again for what is contained.
pub open spec fn spec_def_cfg() -> MtCfg<'static> {
    MtCfg { len: Some(LenWidth::W16), utf16: false, inner: None }
}

/// The default configuration.
#[verifier::when_used_as_spec(spec_def_cfg)]
pub fn def_cfg() -> (r: MtCfg<'static>)
    ensures
        r == spec_def_cfg(),
{
    MtCfg { len: Some(LenWidth::W16), utf16: false, inner: None }
}

impl<'a> MtCfg<'a> {
    /// A length of `width`, UTF-8 text, default contents.
    pub open spec fn spec_with_len(width: LenWidth) -> MtCfg<'static> {
        MtCfg { len: Some(width), utf16: false, inner: None }
    }

    /// A length of `width`, UTF-8 text, default contents.
    #[verifier::when_used_as_spec(spec_with_len)]
    pub fn with_len(width: LenWidth) -> (r: MtCfg<'static>)
        ensures
            r == Self::spec_with_len(width),
    {
        MtCfg { len: Some(width), utf16: false, inner: None }
    }

    /// An 8-bit length.
    pub fn len8() -> (r: MtCfg<'static>)
        ensures
            r == Self::spec_with_len(LenWidth::W8),
    {
        Self::with_len(LenWidth::W8)
    }

    /// A 16-bit length.
    pub fn len16() -> (r: MtCfg<'static>)
        ensures
            r == Self::spec_with_len(LenWidth::W16),
    {
        Self::with_len(LenWidth::W16)
    }

    /// A 32-bit length.
    pub fn len32() -> (r: MtCfg<'static>)
        ensures
            r == Self::spec_with_len(LenWidth::W32),
    {
        Self::with_len(LenWidth::W32)
    }

    /// A 64-bit length.
    pub fn len64() -> (r: MtCfg<'static>)
        ensures
            r == Self::spec_with_len(LenWidth::W64),
    {
        Self::with_len(LenWidth::W64)
    }

    /// No length: nothing is written, and reading goes on to the end.
    pub open spec fn spec_no_len() -> MtCfg<'static> {
        MtCfg { len: None, utf16: false, inner: None }
    }

    /// No length: nothing is written, and reading goes on to the end.
    #[verifier::when_used_as_spec(spec_no_len)]
    pub fn no_len() -> (r: MtCfg<'static>)
        ensures
            r == Self::spec_no_len(),
    {
        MtCfg { len: None, utf16: false, inner: None }
    }

    /// The pair of two configurations: the length of `self` for the value,
    /// `inner` for what it contains. A pair does not ask for UTF-16.
    pub open spec fn spec_pair(self, inner: &'a MtCfg<'a>) -> MtCfg<'a> {
        MtCfg { len: self.len, utf16: false, inner: Some(inner) }
    }

    /// The pair of two configurations.
    #[verifier::when_used_as_spec(spec_pair)]
    pub fn pair(self, inner: &'a MtCfg<'a>) -> (r: MtCfg<'a>)
        ensures
            r == self.spec_pair(inner),
    {
        MtCfg { len: self.len, utf16: false, inner: Some(inner) }
    }

    /// Whether text is written as UTF-16.
    pub open spec fn spec_utf16(&self) -> bool {
        self.utf16
    }

    /// Whether text is written as UTF-16.
    #[verifier::when_used_as_spec(spec_utf16)]
    pub fn utf16(&self) -> (r: bool)
        ensures
            r == self.utf16,
    {
        self.utf16
    }

    /// The configuration of what the value contains.
    pub open spec fn spec_inner(&self) -> MtCfg<'a> {
        match self.inner {
            Some(c) => *c,
            None => spec_def_cfg(),
        }
    }

    /// The configuration of what the value contains.
    #[verifier::when_used_as_spec(spec_inner)]
    pub fn inner(&self) -> (r: MtCfg<'a>)
        ensures
            r == self.spec_inner(),
    {
        match self.inner {
            Some(c) => *c,
            None => def_cfg(),
        }
    }

    /// Whether a length of `len` can be written.
    pub open spec fn len_fits(self, len: nat) -> bool {
        match self.len {
            Some(w) => w.holds(len),
            None => true,
        }
    }

    /// The bytes of the length prefix for `len`.
    pub open spec fn len_wire(self, len: nat) -> Seq<u8> {
        match self.len {
            Some(w) => be_bytes(len, w.spec_bytes()),
            None => Seq::empty(),
        }
    }

    /// Writes the length prefix for `len`: the number in the width of this
    /// configuration, most significant byte first, or nothing where there is
    /// no length. A length that the width cannot hold is refused with
    /// `TooBig`, and then nothing is written.
    pub fn write_len(&self, len: usize, writer: &mut Vec<u8>) -> (r: Result<(), SerializeError>)
        ensures
            r is Ok <==> self.len_fits(len as nat),
            r is Ok ==> final(writer)@ == old(writer)@ + self.len_wire(len as nat),
            r is Err ==> final(writer)@ == old(writer)@ && r->Err_0@
                == crate::error::WriteFault::TooBig,
    {
        proof {
            lemma_radix();
        }
        match self.len {
            None => {
                assert(writer@ == old(writer)@ + Seq::<u8>::empty());
                Ok(())
            },
            Some(LenWidth::W8) => match u8::try_from(len) {
                Ok(v) => {
                    put_uint(writer, v as u64, 1);
                    Ok(())
                },
                Err(e) => Err(SerializeError::TooBig(e)),
            },
            Some(LenWidth::W16) => match u16::try_from(len) {
                Ok(v) => {
                    put_uint(writer, v as u64, 2);
                    Ok(())
                },
                Err(e) => Err(SerializeError::TooBig(e)),
            },
            Some(LenWidth::W32) => match u32::try_from(len) {
                Ok(v) => {
                    put_uint(writer, v as u64, 4);
                    Ok(())
                },
                Err(e) => Err(SerializeError::TooBig(e)),
            },
            Some(LenWidth::W64) => match u64::try_from(len) {
                Ok(v) => {
                    put_uint(writer, v, 8);
                    Ok(())
                },
                Err(e) => Err(SerializeError::TooBig(e)),
            },
        }
    }

    /// What reading a length makes of `input`: the length or the fault, and
    /// the number of bytes used.
    pub open spec fn len_parse(self, input: Seq<u8>) -> (Result<MtLen, ReadFault>, nat) {
        match self.len {
            None => (Ok(MtLen::Unbounded), 0),
            Some(w) => {
                let (v, used) = parse_uint(input, w.spec_bytes());
                match v {
                    None => (Err(ReadFault::UnexpectedEof), used),
                    Some(n) => if n <= usize::MAX {
                        (Ok(MtLen::Exact(n as usize)), used)
                    } else {
                        (Err(ReadFault::TooBig), used)
                    },
                }
            },
        }
    }

    /// Reads a length: the number in the width of this configuration, or,
    /// where there is no length, the unbounded mark without reading a byte.
    /// A number that the machine's `usize` cannot hold is refused with
    /// `TooBig`.
    pub fn read_len(&self, reader: &mut WrapRead) -> (r: Result<MtLen, DeserializeError>)
        ensures
            match r {
                Ok(l) => self.len_parse(old(reader)@).0 == Ok::<MtLen, ReadFault>(l),
                Err(e) => self.len_parse(old(reader)@).0 == Err::<MtLen, ReadFault>(e@),
            },
            self.len_parse(old(reader)@).1 <= old(reader)@.len(),
            final(reader)@ == old(reader)@.skip(self.len_parse(old(reader)@).1 as int),
    {
        match self.len {
            None => {
                assert(reader@.skip(0) == reader@);
                Ok(MtLen::Unbounded)
            },
            Some(w) => {
                let v = get_uint(reader, w.bytes())?;
                match usize::try_from(v) {
                    Ok(n) => Ok(MtLen::Exact(n)),
                    Err(e) => Err(DeserializeError::TooBig(e)),
                }
            },
        }
    }
}

/// The request for UTF-16 text, put around a configuration.
#[derive(Clone, Copy, Debug)]
pub struct Utf16<'a>(pub MtCfg<'a>);

impl<'a> Utf16<'a> {
    /// The wrapped configuration with UTF-16 text: its length and contents
    /// stay as they are.
    pub open spec fn spec_cfg(self) -> MtCfg<'a> {
        MtCfg { len: self.0.len, utf16: true, inner: self.0.inner }
    }

    /// The wrapped configuration with UTF-16 text.
    #[verifier::when_used_as_spec(spec_cfg)]
    pub fn cfg(self) -> (r: MtCfg<'a>)
        ensures
            r == self.spec_cfg(),
    {
        MtCfg { len: self.0.len, utf16: true, inner: self.0.inner }
    }
}

/// A length fits its prefix exactly when it is at most the largest number
/// of that width; without a prefix every length fits.
pub proof fn lemma_len_fits(cfg: MtCfg, n: nat)
    ensures
        cfg.len_fits(n) <==> match cfg.len {
            None => true,
            Some(LenWidth::W8) => n <= 0xff,
            Some(LenWidth::W16) => n <= 0xffff,
            Some(LenWidth::W32) => n <= 0xffff_ffff,
            Some(LenWidth::W64) => n <= 0xffff_ffff_ffff_ffff,
        },
{
    lemma_radix();
}

} // verus!
