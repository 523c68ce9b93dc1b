//! The two directions of the codec, as traits, and the law that binds them.

use crate::cfg::MtCfg;
use crate::error::{DeserializeError, ReadFault, SerializeError, WriteFault};
use crate::reader::WrapRead;
use vstd::prelude::*;

verus! {

/// What reading makes of an input: the value read or the fault, and the
/// number of bytes that were used up either way.
pub ghost struct Parsed<V> {
    pub res: Result<V, ReadFault>,
    pub used: nat,
}

/// A value that can be written. The contract speaks of the value's deep
/// view, so that the bytes of a collection are a function of what it holds.
pub trait MtSerialize: DeepView {
    /// Whether `v` can be written under `cfg`: every length in it fits the
    /// width of its prefix, and every stream it passes through accepts it.
    spec fn fits(v: Self::V, cfg: MtCfg) -> bool;

    /// The bytes of `v` under `cfg`, where it fits.
    spec fn wire(v: Self::V, cfg: MtCfg) -> Seq<u8>;

    /// The fault with which `v` is refused, where it does not fit.
    spec fn fault(v: Self::V, cfg: MtCfg) -> WriteFault;

    /// Appends the bytes of the value to `writer`. A value that does not fit
    /// is refused with its fault; what was written before the refusal stays
    /// in the sink.
    fn mt_serialize(&self, cfg: MtCfg, writer: &mut Vec<u8>) -> (r: Result<(), SerializeError>)
        ensures
            r is Ok <==> Self::fits(self.deep_view(), cfg),
            r is Ok ==> final(writer)@ == old(writer)@ + Self::wire(self.deep_view(), cfg),
            r matches Err(e) ==> e@ == Self::fault(self.deep_view(), cfg),
            r is Err ==> old(writer)@.is_prefix_of(final(writer)@),
    ;
}

/// A value that can be read.
pub trait MtDeserialize: DeepView + Sized {
    /// What reading a value under `cfg` makes of `input`.
    spec fn parse(cfg: MtCfg, input: Seq<u8>) -> Parsed<Self::V>;

    /// Reads a value from the front of `reader` and passes over the bytes
    /// that `parse` says are used, whether the read succeeds or fails.
    fn mt_deserialize(cfg: MtCfg, reader: &mut WrapRead) -> (r: Result<Self, DeserializeError>)
        ensures
            agrees(r, Self::parse(cfg, old(reader)@)),
            Self::parse(cfg, old(reader)@).used <= old(reader)@.len(),
            final(reader)@ == old(reader)@.skip(Self::parse(cfg, old(reader)@).used as int),
    ;
}

/// Whether a result of reading is the one that `p` describes.
pub open spec fn agrees<T: DeepView>(r: Result<T, DeserializeError>, p: Parsed<T::V>) -> bool {
    match r {
        Ok(v) => p.res == Ok::<T::V, ReadFault>(v.deep_view()),
        Err(e) => p.res == Err::<T::V, ReadFault>(e@),
    }
}

/// The outcome `Ok(v)` after `used` bytes.
pub open spec fn done<V>(v: V, used: nat) -> Parsed<V> {
    Parsed { res: Ok(v), used }
}

/// The outcome `Err(e)` after `used` bytes.
pub open spec fn failed<V>(e: ReadFault, used: nat) -> Parsed<V> {
    Parsed { res: Err(e), used }
}

/// The law that binds the two directions: what was written is read back.
pub trait MtRoundTrip: MtSerialize + MtDeserialize {
    /// Whether the bytes of `v` under `cfg` can be told from the bytes
    /// `rest` that follow them. It holds of every value whose encoding says
    /// where it ends; a value without a length, or an absent optional value,
    /// must stand at the end of the input.
    spec fn sound(v: Self::V, cfg: MtCfg, rest: Seq<u8>) -> bool;

    /// Reading the bytes of `v`, whatever sound `rest` follows them, gives
    /// `v` again and uses exactly those bytes.
    proof fn lemma_round_trip(v: Self::V, cfg: MtCfg, rest: Seq<u8>)
        requires
            Self::fits(v, cfg),
            Self::sound(v, cfg, rest),
        ensures
            Self::parse(cfg, Self::wire(v, cfg) + rest) == done(v, Self::wire(v, cfg).len()),
    ;
}

/// Writes `item` into a fresh sink and reads it back from there. A value
/// that fits, and that can be told from the end of the input, comes back
/// as it was; one that does not fit gives nothing.
pub fn reserialize<T: MtRoundTrip>(cfg: MtCfg, item: &T) -> (r: Option<T>)
    ensures
        !T::fits(item.deep_view(), cfg) ==> r is None,
        T::fits(item.deep_view(), cfg) && T::sound(item.deep_view(), cfg, Seq::empty()) ==> (r
            matches Some(back) && back.deep_view() == item.deep_view()),
{
    let mut writer: Vec<u8> = Vec::new();
    if item.mt_serialize(cfg, &mut writer).is_err() {
        return None;
    }
    proof {
        let bytes = T::wire(item.deep_view(), cfg);
        assert(writer@ == bytes);
        assert(bytes + Seq::<u8>::empty() == bytes);
        if T::sound(item.deep_view(), cfg, Seq::empty()) {
            T::lemma_round_trip(item.deep_view(), cfg, Seq::empty());
        }
    }
    let mut reader = WrapRead::new(writer.as_slice());
    match T::mt_deserialize(cfg, &mut reader) {
        Ok(back) => Some(back),
        Err(_) => None,
    }
}

/// The fallback of a field that may be missing at the end of the input.
pub trait OrDefault<T> {
    /// Replaces the fault `UnexpectedEof` by the default value; everything
    /// else stays as it is.
    fn or_default(self) -> Self;
}

impl<T: MtDeserialize + Default> OrDefault<T> for Result<T, DeserializeError> {
    fn or_default(self) -> (r: Self)
        ensures
            match self {
                Ok(v) => r == self,
                Err(e) => if e@ == ReadFault::UnexpectedEof {
                    r is Ok && call_ensures(T::default, (), r->Ok_0)
                } else {
                    r == self
                },
            },
    {
        match self {
            Err(DeserializeError::UnexpectedEof) => Ok(T::default()),
            x => x,
        }
    }
}

} // verus!
