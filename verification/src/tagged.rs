//! Tagged enums: how discriminants are assigned, written, read and found.

use crate::cfg::{def_cfg, spec_def_cfg, LenWidth};
use crate::codec::MtSerialize;
use crate::endian::{be_bytes, get_uint, lemma_radix, parse_uint, put_uint};
use crate::error::{DeserializeError, Raw, RawView, ReadFault, SerializeError, WriteFault};
use crate::reader::WrapRead;
use convert_case::{Case, Casing};
use vstd::prelude::*;

verus! {

/// The discriminants of the variants of an enum, in order of declaration:
/// the one that the schema assigns, or else the one before it plus one,
/// or else zero. `next` is what a variant without its own number gets.
pub open spec fn assign_from(decl: Seq<Option<u64>>, next: int) -> Seq<int>
    decreases decl.len(),
{
    if decl.len() == 0 {
        Seq::empty()
    } else {
        let d = match decl[0] {
            Some(x) => x as int,
            None => next,
        };
        seq![d] + assign_from(decl.skip(1), d + 1)
    }
}

/// The discriminants of the variants of an enum, in order of declaration.
pub open spec fn assigned(decl: Seq<Option<u64>>) -> Seq<int> {
    assign_from(decl, 0)
}

/// Every variant gets a discriminant.
pub proof fn lemma_assign_from_len(decl: Seq<Option<u64>>, next: int)
    ensures
        assign_from(decl, next).len() == decl.len(),
    decreases decl.len(),
{
    if decl.len() > 0 {
        let d = match decl[0] {
            Some(x) => x as int,
            None => next,
        };
        lemma_assign_from_len(decl.skip(1), d + 1);
    }
}

/// One more variant at the end gets its own number, or one more than the
/// variant before it, and leaves the others as they are.
pub proof fn lemma_assign_from_push(decl: Seq<Option<u64>>, next: int, last: Option<u64>)
    ensures
        assign_from(decl.push(last), next) == assign_from(decl, next).push(
            match last {
                Some(x) => x as int,
                None => if decl.len() == 0 {
                    next
                } else {
                    assign_from(decl, next).last() + 1
                },
            },
        ),
    decreases decl.len(),
{
    if decl.len() == 0 {
        reveal_with_fuel(assign_from, 2);
        assert(decl.push(last).skip(1) == Seq::<Option<u64>>::empty());
    } else {
        let d = match decl[0] {
            Some(x) => x as int,
            None => next,
        };
        lemma_assign_from_push(decl.skip(1), d + 1, last);
        lemma_assign_from_len(decl.skip(1), d + 1);
        assert(decl.push(last).skip(1) == decl.skip(1).push(last));
        assert(decl.push(last)[0] == decl[0]);
        let tail = assign_from(decl.skip(1), d + 1);
        if decl.len() == 1 {
            assert(tail == Seq::<int>::empty());
        } else {
            assert((seq![d] + tail).last() == tail.last());
        }
    }
}

/// Assigns the discriminants of an enum from its declaration: `Some` for a
/// variant with a number of its own, `None` for one that follows the
/// variant before it. Nothing comes back where a number would pass
/// `u64::MAX`.
pub fn discriminants(decl: &[Option<u64>]) -> (r: Option<Vec<u64>>)
    ensures
        match r {
            Some(v) => v@.len() == decl@.len() && forall|i: int|
                0 <= i < v@.len() ==> v@[i] as int == #[trigger] assigned(decl@)[i],
            None => exists|i: int|
                0 <= i < decl@.len() && #[trigger] assigned(decl@)[i] > u64::MAX,
        },
{
    let mut out: Vec<u64> = Vec::new();
    let mut next: Option<u64> = Some(0);
    let mut i: usize = 0;
    assert(decl@.take(0) == Seq::<Option<u64>>::empty());
    while i < decl.len()
        invariant
            i <= decl.len(),
            out@.len() == i,
            assign_from(decl@.take(i as int), 0).len() == i,
            forall|j: int|
                0 <= j < i ==> out@[j] as int == #[trigger] assign_from(decl@.take(i as int), 0)[j],
            match next {
                Some(n) => n as int == if i == 0 {
                    0
                } else {
                    out@[i - 1] + 1
                },
                None => i > 0 && out@[i - 1] == u64::MAX,
            },
        decreases decl.len() - i,
    {
        proof {
            lemma_assign_from_push(decl@.take(i as int), 0, decl@[i as int]);
            assert(decl@.take(i + 1) == decl@.take(i as int).push(decl@[i as int]));
        }
        let d = match decl[i] {
            Some(x) => x,
            None => match next {
                Some(n) => n,
                None => {
                    proof {
                        lemma_assign_prefix(decl@, (i + 1) as nat, 0);
                        lemma_assign_from_len(decl@, 0);
                        let front = assign_from(decl@.take(i as int), 0);
                        assert(front.last() == out@[i - 1]);
                        assert(assign_from(decl@.take(i + 1), 0)[i as int] == front.last() + 1);
                        assert(assigned(decl@).take(i + 1)[i as int] == assigned(decl@)[i as int]);
                        assert(assigned(decl@)[i as int] > u64::MAX);
                    }
                    return None;
                },
            },
        };
        out.push(d);
        next = d.checked_add(1);
        i += 1;
    }
    assert(decl@.take(i as int) == decl@);
    Some(out)
}

/// The discriminants of the first variants do not depend on the later ones.
pub proof fn lemma_assign_prefix(decl: Seq<Option<u64>>, n: nat, next: int)
    requires
        n <= decl.len(),
    ensures
        assign_from(decl.take(n as int), next) == assign_from(decl, next).take(n as int),
    decreases n,
{
    lemma_assign_from_len(decl, next);
    if n == 0 {
        assert(decl.take(0) == Seq::<Option<u64>>::empty());
    } else {
        let d = match decl[0] {
            Some(x) => x as int,
            None => next,
        };
        lemma_assign_prefix(decl.skip(1), (n - 1) as nat, d + 1);
        lemma_assign_from_len(decl.skip(1), d + 1);
        assert(decl.take(n as int).skip(1) == decl.skip(1).take(n - 1));
        assert(decl.take(n as int)[0] == decl[0]);
        let tail = assign_from(decl.skip(1), d + 1);
        assert((seq![d] + tail).take(n as int) == seq![d] + tail.take(n - 1));
    }
}

/// The discriminant of the variant at `i`: its own number where it has one,
/// else one more than that of the variant before it, or zero for the first.
pub proof fn lemma_assigned_at(decl: Seq<Option<u64>>, i: int)
    requires
        0 <= i < decl.len(),
    ensures
        assigned(decl).len() == decl.len(),
        decl[i] matches Some(x) ==> assigned(decl)[i] == x,
        decl[i] is None && i > 0 ==> assigned(decl)[i] == assigned(decl)[i - 1] + 1,
        decl[i] is None && i == 0 ==> assigned(decl)[i] == 0,
{
    let front = decl.take(i);
    lemma_assign_from_len(decl, 0);
    lemma_assign_from_len(front, 0);
    lemma_assign_prefix(decl, i as nat, 0);
    lemma_assign_prefix(decl, (i + 1) as nat, 0);
    lemma_assign_from_push(front, 0, decl[i]);
    assert(decl.take(i + 1) == front.push(decl[i]));
    assert(assigned(decl).take(i + 1)[i] == assigned(decl)[i]);
    if i > 0 {
        assert(assigned(decl).take(i)[i - 1] == assigned(decl)[i - 1]);
    }
}

/// The position of the variant with the discriminant `d`.
pub fn find_variant(table: &[u64], d: u64) -> (r: Option<usize>)
    ensures
        match r {
            Some(i) => i < table@.len() && table@[i as int] == d && forall|j: int|
                0 <= j < i ==> table@[j] != d,
            None => forall|j: int| 0 <= j < table@.len() ==> table@[j] != d,
        },
{
    let mut i: usize = 0;
    while i < table.len()
        invariant
            i <= table.len(),
            forall|j: int| 0 <= j < i ==> table@[j] != d,
        decreases table.len() - i,
    {
        if table[i] == d {
            return Some(i);
        }
        i += 1;
    }
    None
}

/// The discriminant `d` as a primitive value of the width `repr`.
pub open spec fn discr_raw(repr: LenWidth, d: u64) -> RawView {
    match repr {
        LenWidth::W8 => RawView::U8(d as u8),
        LenWidth::W16 => RawView::U16(d as u16),
        LenWidth::W32 => RawView::U32(d as u32),
        LenWidth::W64 => RawView::U64(d),
    }
}

/// The fault of a discriminant that no variant has: it carries the name of
/// the enum and the discriminant as it was read.
pub fn invalid_enum(name: &'static str, repr: LenWidth, d: u64) -> (r: DeserializeError)
    requires
        repr.holds(d as nat),
    ensures
        r@ == ReadFault::InvalidEnum(name@, discr_raw(repr, d)),
{
    proof {
        lemma_radix();
    }
    let raw = match repr {
        LenWidth::W8 => Raw::U8(d as u8),
        LenWidth::W16 => Raw::U16(d as u16),
        LenWidth::W32 => Raw::U32(d as u32),
        LenWidth::W64 => Raw::U64(d),
    };
    DeserializeError::InvalidEnum(name, raw)
}

/// Writes a discriminant in the width `repr`, most significant byte first.
pub fn write_discr(repr: LenWidth, d: u64, writer: &mut Vec<u8>)
    requires
        repr.holds(d as nat),
    ensures
        final(writer)@ == old(writer)@ + be_bytes(d as nat, repr.spec_bytes()),
{
    put_uint(writer, d, repr.bytes());
}

/// Reads a discriminant of the width `repr`.
pub fn read_discr(repr: LenWidth, reader: &mut WrapRead) -> (r: Result<u64, DeserializeError>)
    ensures
        match r {
            Ok(d) => parse_uint(old(reader)@, repr.spec_bytes()).0 == Some(d as nat) && repr.holds(
                d as nat,
            ),
            Err(e) => parse_uint(old(reader)@, repr.spec_bytes()).0 is None && e@
                == ReadFault::UnexpectedEof,
        },
        parse_uint(old(reader)@, repr.spec_bytes()).1 <= old(reader)@.len(),
        final(reader)@ == old(reader)@.skip(parse_uint(old(reader)@, repr.spec_bytes()).1 as int),
{
    get_uint(reader, repr.bytes())
}

/// The tag of a variant of a string-tagged enum: its identifier in snake
/// case, as `convert_case` makes it.
pub uninterp spec fn snake_case(ident: Seq<char>) -> Seq<char>;

/// `convert_case::Casing::to_case` with `Case::Snake`. The contract only
/// gives the result a name.
#[verifier::external_body]
pub(crate) fn to_snake(ident: &str) -> (r: String)
    ensures
        r@ == snake_case(ident@),
{
    ident.to_case(Case::Snake)
}

/// The tag that a string-tagged enum writes for the variant `ident`.
pub fn snake_tag(ident: &str) -> (r: String)
    ensures
        r@ == snake_case(ident@),
{
    to_snake(ident)
}

/// Writes the tag of the variant `ident` of a string-tagged enum: its
/// identifier in snake case, as text under the default configuration.
pub fn write_str_discr(ident: &str, writer: &mut Vec<u8>) -> (r: Result<(), SerializeError>)
    ensures
        r is Ok <==> String::fits(snake_case(ident@), spec_def_cfg()),
        r is Ok ==> final(writer)@ == old(writer)@ + String::wire(
            snake_case(ident@),
            spec_def_cfg(),
        ),
        r matches Err(e) ==> e@ == WriteFault::TooBig,
        r is Err ==> old(writer)@.is_prefix_of(final(writer)@),
{
    let tag = snake_tag(ident);
    tag.mt_serialize(def_cfg(), writer)
}

/// The position of the variant whose identifier, in snake case, is `tag`.
pub fn find_str_variant(idents: &[&str], tag: &str) -> (r: Option<usize>)
    ensures
        match r {
            Some(i) => i < idents@.len() && snake_case(idents@[i as int]@) == tag@ && forall|j: int|
                0 <= j < i ==> snake_case(#[trigger] idents@[j]@) != tag@,
            None => forall|j: int|
                0 <= j < idents@.len() ==> snake_case(#[trigger] idents@[j]@) != tag@,
        },
{
    let wanted = tag.to_owned();
    let mut i: usize = 0;
    while i < idents.len()
        invariant
            i <= idents.len(),
            wanted@ == tag@,
            forall|j: int| 0 <= j < i ==> snake_case(#[trigger] idents@[j]@) != tag@,
        decreases idents.len() - i,
    {
        if snake_tag(idents[i]) == wanted {
            return Some(i);
        }
        i += 1;
    }
    None
}

/// The fault of a tag that no variant of a string-tagged enum has: it
/// carries the name of the enum and the tag as it was read.
pub fn invalid_str_enum(name: &'static str, tag: String) -> (r: DeserializeError)
    ensures
        r@ == ReadFault::InvalidEnum(name@, RawView::Str(tag@)),
{
    DeserializeError::InvalidEnum(name, Raw::Str(tag))
}

} // verus!
