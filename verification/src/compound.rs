//! Optional values, boxes, references and pairs.

use crate::cfg::MtCfg;
use crate::codec::{done, failed, MtDeserialize, MtRoundTrip, MtSerialize, Parsed};
use crate::error::{DeserializeError, ReadFault, SerializeError, WriteFault};
use crate::step::{lemma_join_assoc, lemma_prefix_grows};
use crate::reader::WrapRead;
use vstd::prelude::*;

verus! {

impl<T: MtSerialize> MtSerialize for Option<T> {
    open spec fn fits(v: Option<T::V>, cfg: MtCfg) -> bool {
        match v {
            Some(x) => T::fits(x, cfg),
            None => true,
        }
    }

    /// An absent value has no bytes at all.
    open spec fn wire(v: Option<T::V>, cfg: MtCfg) -> Seq<u8> {
        match v {
            Some(x) => T::wire(x, cfg),
            None => Seq::empty(),
        }
    }

    open spec fn fault(v: Option<T::V>, cfg: MtCfg) -> WriteFault {
        match v {
            Some(x) => T::fault(x, cfg),
            None => WriteFault::TooBig,
        }
    }

    fn mt_serialize(&self, cfg: MtCfg, writer: &mut Vec<u8>) -> (r: Result<(), SerializeError>) {
        match self {
            Some(item) => item.mt_serialize(cfg, writer),
            None => {
                assert(writer@ == old(writer)@ + Seq::<u8>::empty());
                Ok(())
            },
        }
    }
}

impl<T: MtDeserialize> MtDeserialize for Option<T> {
    /// The value is absent exactly when reading it meets the end of the
    /// input.
    open spec fn parse(cfg: MtCfg, input: Seq<u8>) -> Parsed<Option<T::V>> {
        let p = T::parse(cfg, input);
        match p.res {
            Ok(x) => done(Some(x), p.used),
            Err(e) => if e == ReadFault::UnexpectedEof {
                done(None, p.used)
            } else {
                failed(e, p.used)
            },
        }
    }

    fn mt_deserialize(cfg: MtCfg, reader: &mut WrapRead) -> (r: Result<
        Option<T>,
        DeserializeError,
    >) {
        match T::mt_deserialize(cfg, reader) {
            Ok(x) => Ok(Some(x)),
            Err(DeserializeError::UnexpectedEof) => Ok(None),
            Err(e) => Err(e),
        }
    }
}

impl<T: MtRoundTrip> MtRoundTrip for Option<T> {
    /// An absent value can only be told from `rest` where reading a value
    /// from `rest` meets the end of the input at once.
    open spec fn sound(v: Option<T::V>, cfg: MtCfg, rest: Seq<u8>) -> bool {
        match v {
            Some(x) => T::sound(x, cfg, rest),
            None => T::parse(cfg, rest) == failed::<T::V>(ReadFault::UnexpectedEof, 0),
        }
    }

    proof fn lemma_round_trip(v: Option<T::V>, cfg: MtCfg, rest: Seq<u8>) {
        match v {
            Some(x) => {
                T::lemma_round_trip(x, cfg, rest);
            },
            None => {
                assert(Seq::<u8>::empty() + rest == rest);
            },
        }
    }
}

impl<T: MtSerialize> MtSerialize for Box<T> {
    open spec fn fits(v: T::V, cfg: MtCfg) -> bool {
        T::fits(v, cfg)
    }

    open spec fn wire(v: T::V, cfg: MtCfg) -> Seq<u8> {
        T::wire(v, cfg)
    }

    open spec fn fault(v: T::V, cfg: MtCfg) -> WriteFault {
        T::fault(v, cfg)
    }

    fn mt_serialize(&self, cfg: MtCfg, writer: &mut Vec<u8>) -> (r: Result<(), SerializeError>) {
        (**self).mt_serialize(cfg, writer)
    }
}

impl<T: MtDeserialize> MtDeserialize for Box<T> {
    open spec fn parse(cfg: MtCfg, input: Seq<u8>) -> Parsed<T::V> {
        T::parse(cfg, input)
    }

    fn mt_deserialize(cfg: MtCfg, reader: &mut WrapRead) -> (r: Result<Box<T>, DeserializeError>) {
        Ok(Box::new(T::mt_deserialize(cfg, reader)?))
    }
}

impl<T: MtRoundTrip> MtRoundTrip for Box<T> {
    open spec fn sound(v: T::V, cfg: MtCfg, rest: Seq<u8>) -> bool {
        T::sound(v, cfg, rest)
    }

    proof fn lemma_round_trip(v: T::V, cfg: MtCfg, rest: Seq<u8>) {
        T::lemma_round_trip(v, cfg, rest);
    }
}

impl<T: MtSerialize> MtSerialize for &T {
    open spec fn fits(v: T::V, cfg: MtCfg) -> bool {
        T::fits(v, cfg)
    }

    open spec fn wire(v: T::V, cfg: MtCfg) -> Seq<u8> {
        T::wire(v, cfg)
    }

    open spec fn fault(v: T::V, cfg: MtCfg) -> WriteFault {
        T::fault(v, cfg)
    }

    fn mt_serialize(&self, cfg: MtCfg, writer: &mut Vec<u8>) -> (r: Result<(), SerializeError>) {
        (**self).mt_serialize(cfg, writer)
    }
}

impl<A: MtSerialize, B: MtSerialize> MtSerialize for (A, B) {
    open spec fn fits(v: (A::V, B::V), cfg: MtCfg) -> bool {
        A::fits(v.0, cfg) && B::fits(v.1, cfg.spec_inner())
    }

    /// The first under `cfg`, the second under its inner configuration.
    open spec fn wire(v: (A::V, B::V), cfg: MtCfg) -> Seq<u8> {
        A::wire(v.0, cfg) + B::wire(v.1, cfg.spec_inner())
    }

    /// The fault of the first part that does not fit.
    open spec fn fault(v: (A::V, B::V), cfg: MtCfg) -> WriteFault {
        if !A::fits(v.0, cfg) {
            A::fault(v.0, cfg)
        } else {
            B::fault(v.1, cfg.spec_inner())
        }
    }

    /// Where the second part is refused, the bytes of the first stay in the
    /// sink.
    fn mt_serialize(&self, cfg: MtCfg, writer: &mut Vec<u8>) -> (r: Result<(), SerializeError>)
        ensures
            r is Err && A::fits(self.0.deep_view(), cfg) ==> (old(writer)@ + A::wire(
                self.0.deep_view(),
                cfg,
            )).is_prefix_of(final(writer)@),
    {
        self.0.mt_serialize(cfg, writer)?;
        let ghost mid = writer@;
        let r = self.1.mt_serialize(cfg.inner(), writer);
        proof {
            lemma_prefix_grows(old(writer)@, mid, writer@);
            lemma_join_assoc(
                old(writer)@,
                A::wire(self.0.deep_view(), cfg),
                B::wire(self.1.deep_view(), cfg.spec_inner()),
            );
        }
        r
    }
}

impl<A: MtDeserialize, B: MtDeserialize> MtDeserialize for (A, B) {
    open spec fn parse(cfg: MtCfg, input: Seq<u8>) -> Parsed<(A::V, B::V)> {
        let p = A::parse(cfg, input);
        match p.res {
            Err(e) => failed(e, p.used),
            Ok(a) => {
                let q = B::parse(cfg.spec_inner(), input.skip(p.used as int));
                match q.res {
                    Err(e) => failed(e, p.used + q.used),
                    Ok(b) => done((a, b), p.used + q.used),
                }
            },
        }
    }

    fn mt_deserialize(cfg: MtCfg, reader: &mut WrapRead) -> (r: Result<(A, B), DeserializeError>) {
        let ghost input = reader@;
        let ghost p = A::parse(cfg, input);
        let a = A::mt_deserialize(cfg, reader)?;
        let ghost q = B::parse(cfg.spec_inner(), reader@);
        let r = B::mt_deserialize(cfg.inner(), reader);
        assert(input.skip(p.used as int).skip(q.used as int)
            == input.skip((p.used + q.used) as int));
        let b = r?;
        Ok((a, b))
    }
}

impl<A: MtRoundTrip, B: MtRoundTrip> MtRoundTrip for (A, B) {
    open spec fn sound(v: (A::V, B::V), cfg: MtCfg, rest: Seq<u8>) -> bool {
        A::sound(v.0, cfg, B::wire(v.1, cfg.spec_inner()) + rest) && B::sound(
            v.1,
            cfg.spec_inner(),
            rest,
        )
    }

    proof fn lemma_round_trip(v: (A::V, B::V), cfg: MtCfg, rest: Seq<u8>) {
        let first = A::wire(v.0, cfg);
        let second = B::wire(v.1, cfg.spec_inner());
        A::lemma_round_trip(v.0, cfg, second + rest);
        B::lemma_round_trip(v.1, cfg.spec_inner(), rest);
        assert((first + second) + rest == first + (second + rest));
        assert((first + (second + rest)).skip(first.len() as int) == second + rest);
    }
}

} // verus!
