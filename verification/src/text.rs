//! Text: UTF-8 bytes behind a length in bytes, or UTF-16 code units behind
//! a length in code units, as the configuration asks.

use crate::cfg::{MtCfg, MtLen};
use crate::codec::{agrees, done, failed, MtDeserialize, MtRoundTrip, MtSerialize, Parsed};
use crate::endian::{be_bytes, get_uint, lemma_radix, parse_uint};
use crate::num::lemma_uint_round_trip;
use crate::error::{invalid_data, DeserializeError, ReadFault, SerializeError, WriteFault};
use crate::reader::WrapRead;
use crate::seq::{
    lemma_wire_items_concat, mt_serialize_seq, prepend, seq_fault, seq_fits, seq_wire, wire_items,
};
use vstd::prelude::*;
use vstd::utf8::{decode_utf8, encode_utf8, valid_utf8};

verus! {

/// Whether a code unit is a surrogate: half of a pair.
pub open spec fn is_surrogate(u: u16) -> bool {
    0xD800 <= u <= 0xDFFF
}

/// Whether a code unit can only stand second in a pair.
pub open spec fn is_low_surrogate(u: u16) -> bool {
    0xDC00 <= u <= 0xDFFF
}

/// The UTF-16 code units of one character: the character itself, or for
/// one above `0xFFFF` a pair of surrogates.
pub open spec fn char_units(c: char) -> Seq<u16> {
    let v = c as u32;
    if v < 0x10000 {
        seq![v as u16]
    } else {
        seq![
            (0xD800 + (v - 0x10000) / 0x400) as u16,
            (0xDC00 + (v - 0x10000) % 0x400) as u16,
        ]
    }
}

/// The UTF-16 code units of a text.
pub open spec fn utf16_units(chars: Seq<char>) -> Seq<u16>
    decreases chars.len(),
{
    if chars.len() == 0 {
        Seq::empty()
    } else {
        char_units(chars[0]) + utf16_units(chars.skip(1))
    }
}

/// The character that a pair of surrogates stands for.
pub open spec fn pair_char(hi: u16, lo: u16) -> char {
    ((0x10000 + (hi - 0xD800) * 0x400 + (lo - 0xDC00)) as u32) as char
}

/// The character that a code unit outside the surrogates stands for.
pub open spec fn unit_char(u: u16) -> char {
    (u as u32) as char
}

/// The code units of a text with one more character are those of the
/// text, then those of the character.
pub proof fn lemma_utf16_units_push(chars: Seq<char>, c: char)
    ensures
        utf16_units(chars.push(c)) == utf16_units(chars) + char_units(c),
    decreases chars.len(),
{
    if chars.len() == 0 {
        reveal_with_fuel(utf16_units, 2);
        assert(chars.push(c).skip(1) == Seq::<char>::empty());
        assert(utf16_units(chars.push(c)) == char_units(c) + Seq::<u16>::empty());
    } else {
        lemma_utf16_units_push(chars.skip(1), c);
        assert(chars.push(c).skip(1) == chars.skip(1).push(c));
        assert(chars.push(c)[0] == chars[0]);
    }
}

/// `char::from_u32`, a function of std: the character with this scalar
/// value, or nothing where the number is a surrogate or above `0x10FFFF`.
#[verifier::external_body]
pub(crate) fn char_from_u32(v: u32) -> (r: Option<char>)
    ensures
        vstd::utf8::is_scalar(v) ==> r == Some(v as char),
        !vstd::utf8::is_scalar(v) ==> r is None,
{
    char::from_u32(v)
}

/// `String::push`, a function of std: appends the character.
#[verifier::external_body]
pub(crate) fn string_push(s: &mut String, c: char)
    ensures
        final(s)@ == old(s)@.push(c),
{
    s.push(c)
}

/// `std::str::from_utf8`: the bytes as text, where they are valid UTF-8.
#[verifier::external_body]
pub(crate) fn str_from_utf8<'a>(bytes: &'a [u8]) -> (r: Option<&'a str>)
    ensures
        r is Some <==> valid_utf8(bytes@),
        r matches Some(s) ==> s@ == decode_utf8(bytes@),
{
    std::str::from_utf8(bytes).ok()
}

/// The UTF-16 code units of `s`, in order.
pub fn encode_utf16(s: &str) -> (r: Vec<u16>)
    ensures
        r@ == utf16_units(s@),
{
    let mut units: Vec<u16> = Vec::new();
    for c in it: s.chars()
        invariant
            it.seq() == s@,
            units@ == utf16_units(s@.take(it.index() as int)),
    {
        proof {
            vstd::utf8::char_is_scalar(c);
            lemma_utf16_units_push(s@.take(it.index() as int), c);
            assert(s@.take(it.index() + 1) == s@.take(it.index() as int).push(c));
        }
        let v = c as u32;
        if v < 0x10000 {
            units.push(v as u16);
        } else {
            let w = v - 0x10000;
            units.push((0xD800 + w / 0x400) as u16);
            units.push((0xDC00 + w % 0x400) as u16);
        }
        assert(units@ == utf16_units(s@.take(it.index() as int)) + char_units(c));
    }
    assert(s@.take(s@.len() as int) == s@);
    units
}

/// What reading up to `count` code units as text makes of `input`. A
/// surrogate without its partner is a fault that ends the reading at once;
/// only where the units have no count does the end of the input end the
/// text.
pub open spec fn utf16_parse(input: Seq<u8>, count: nat, open: bool) -> Parsed<Seq<char>>
    decreases count,
{
    if count == 0 {
        done(Seq::empty(), 0)
    } else {
        let (first, used) = parse_uint(input, 2);
        match first {
            None => if open {
                done(Seq::empty(), used)
            } else {
                failed(ReadFault::UnexpectedEof, used)
            },
            Some(n) => {
                let u = n as u16;
                if !is_surrogate(u) {
                    prepend(
                        seq![unit_char(u)],
                        2,
                        utf16_parse(input.skip(2), (count - 1) as nat, open),
                    )
                } else if is_low_surrogate(u) || count == 1 {
                    failed(ReadFault::InvalidUtf16(u), 2)
                } else {
                    let (second, more) = parse_uint(input.skip(2), 2);
                    match second {
                        None => if open {
                            failed(ReadFault::InvalidUtf16(u), 2 + more)
                        } else {
                            failed(ReadFault::UnexpectedEof, 2 + more)
                        },
                        Some(m) => {
                            let l = m as u16;
                            if is_low_surrogate(l) {
                                prepend(
                                    seq![pair_char(u, l)],
                                    4,
                                    utf16_parse(input.skip(4), (count - 2) as nat, open),
                                )
                            } else {
                                failed(ReadFault::InvalidUtf16(u), 4)
                            }
                        },
                    }
                }
            },
        }
    }
}

/// Reads UTF-16 text of the length `len`, counted in code units.
pub fn decode_utf16(len: &MtLen, reader: &mut WrapRead) -> (r: Result<String, DeserializeError>)
    ensures
        agrees(r, utf16_parse(old(reader)@, len.positions(), *len is Unbounded)),
        utf16_parse(old(reader)@, len.positions(), *len is Unbounded).used <= old(reader)@.len(),
        final(reader)@ == old(reader)@.skip(
            utf16_parse(old(reader)@, len.positions(), *len is Unbounded).used as int,
        ),
{
    let open = len.option().is_none();
    let n = len.range().end;
    let ghost input = reader@;
    let ghost full = utf16_parse(input, n as nat, open);
    let ghost mut used: nat = 0;
    let mut out = String::new();
    let mut i: usize = 0;
    proof {
        lemma_radix();
        assert(input.skip(0) == input);
        assert(Seq::<char>::empty() + Seq::<char>::empty() == Seq::<char>::empty());
    }
    while i < n
        invariant
            i <= n,
            input == old(reader)@,
            full == utf16_parse(input, len.positions(), *len is Unbounded),
            open == (*len is Unbounded),
            n == len.positions(),
            used <= input.len(),
            reader@ == input.skip(used as int),
            full == prepend(out@, used, utf16_parse(reader@, (n - i) as nat, open)),
        decreases n - i,
    {
        let ghost here = reader@;
        let ghost front = out@;
        proof {
            reveal(parse_uint);
            lemma_radix();
            assert(front + Seq::<char>::empty() == front);
        }
        let first = get_uint(reader, 2);
        assert(input.skip(used as int).skip(parse_uint(here, 2).1 as int) == input.skip(
            (used + parse_uint(here, 2).1) as int,
        ));
        match first {
            Err(e) => {
                if open {
                    return Ok(out);
                } else {
                    return Err(e);
                }
            },
            Ok(v) => {
                let u = v as u16;
                i += 1;
                if u < 0xD800 || u > 0xDFFF {
                    match char_from_u32(u as u32) {
                        Some(c) => string_push(&mut out, c),
                        None => vstd::pervasive::unreached(),
                    }
                    proof {
                        used = used + 2;
                        let q = utf16_parse(here.skip(2), (n - i) as nat, open);
                        match q.res {
                            Ok(s) => {
                                assert(front + (seq![unit_char(u)] + s) == front.push(unit_char(u))
                                    + s);
                            },
                            Err(e) => {},
                        }
                    }
                } else if u >= 0xDC00 || i == n {
                    return Err(DeserializeError::InvalidUtf16(u));
                } else {
                    let ghost there = reader@;
                    let second = get_uint(reader, 2);
                    assert(input.skip((used + 2) as int).skip(parse_uint(there, 2).1 as int)
                        == input.skip((used + 2 + parse_uint(there, 2).1) as int));
                    match second {
                        Err(e) => {
                            if open {
                                return Err(DeserializeError::InvalidUtf16(u));
                            } else {
                                return Err(e);
                            }
                        },
                        Ok(w) => {
                            let l = w as u16;
                            i += 1;
                            if 0xDC00 <= l && l <= 0xDFFF {
                                let code: u32 = 0x10000 + (u as u32 - 0xD800) * 0x400 + (l as u32
                                    - 0xDC00);
                                match char_from_u32(code) {
                                    Some(c) => string_push(&mut out, c),
                                    None => vstd::pervasive::unreached(),
                                }
                                proof {
                                    used = used + 4;
                                    assert(here.skip(2).skip(2) == here.skip(4));
                                    let q = utf16_parse(here.skip(4), (n - i) as nat, open);
                                    match q.res {
                                        Ok(s) => {
                                            assert(front + (seq![pair_char(u, l)] + s)
                                                == front.push(pair_char(u, l)) + s);
                                        },
                                        Err(e) => {},
                                    }
                                }
                            } else {
                                return Err(DeserializeError::InvalidUtf16(u));
                            }
                        },
                    }
                }
            },
        }
    }
    assert(out@ + Seq::<char>::empty() == out@);
    Ok(out)
}

/// Whether a text can be written under `cfg`: the number of its code units,
/// or of its UTF-8 bytes, fits the length prefix.
#[verifier::opaque]
pub open spec fn str_fits(chars: Seq<char>, cfg: MtCfg) -> bool {
    if cfg.utf16 {
        cfg.len_fits(utf16_units(chars).len())
    } else {
        cfg.len_fits(encode_utf8(chars).len())
    }
}

/// The bytes of a text under `cfg`: the number of its UTF-16 code units and
/// the units, each big-endian, where `cfg` asks for UTF-16; the number of
/// its UTF-8 bytes and the bytes otherwise.
#[verifier::opaque]
pub open spec fn str_wire(chars: Seq<char>, cfg: MtCfg) -> Seq<u8> {
    if cfg.utf16 {
        seq_wire::<u16>(utf16_units(chars), cfg)
    } else {
        seq_wire::<u8>(encode_utf8(chars), cfg)
    }
}

/// What reading a text under `cfg` makes of `input`. UTF-8 text takes as
/// many bytes as its length says, or all that is left where there is no
/// length, and they must be valid UTF-8. Where fewer bytes are left than the
/// length says, the read fails at the end of the input.
#[verifier::opaque]
pub open spec fn str_parse(cfg: MtCfg, input: Seq<u8>) -> Parsed<Seq<char>> {
    let (len, used) = cfg.len_parse(input);
    match len {
        Err(e) => failed(e, used),
        Ok(l) => if cfg.utf16 {
            prepend(
                Seq::empty(),
                used,
                utf16_parse(input.skip(used as int), l.positions(), l is Unbounded),
            )
        } else {
            let tail = input.skip(used as int);
            if l.positions() > tail.len() && l is Exact {
                failed(ReadFault::UnexpectedEof, used + tail.len())
            } else {
                let body = l.reach(tail);
                if valid_utf8(body) {
                    done(decode_utf8(body), used + body.len())
                } else {
                    failed(ReadFault::Io, used + body.len())
                }
            }
        },
    }
}

impl MtSerialize for &str {
    open spec fn fits(v: Seq<char>, cfg: MtCfg) -> bool {
        str_fits(v, cfg)
    }

    open spec fn wire(v: Seq<char>, cfg: MtCfg) -> Seq<u8> {
        str_wire(v, cfg)
    }

    /// A text is only refused for its length.
    open spec fn fault(v: Seq<char>, cfg: MtCfg) -> WriteFault {
        WriteFault::TooBig
    }

    /// A text that is refused leaves the sink as it was.
    fn mt_serialize(&self, cfg: MtCfg, writer: &mut Vec<u8>) -> (r: Result<(), SerializeError>)
        ensures
            r is Err ==> final(writer)@ == old(writer)@,
    {
        proof {
            reveal(str_fits);
            reveal(str_wire);
            reveal(seq_fits);
            reveal(seq_wire);
            reveal(seq_fault);
        }
        assert(Self::fits(self.deep_view(), cfg) == str_fits(self@, cfg));
        assert(Self::wire(self.deep_view(), cfg) == str_wire(self@, cfg));
        if cfg.utf16() {
            let units = encode_utf16(*self);
            let items = units.as_slice();
            assert(items.deep_view() == units@);
            let r = mt_serialize_seq::<u16>(cfg, writer, items);
            assert(r is Ok <==> cfg.len_fits(units@.len()));
            r
        } else {
            let bytes = self.as_bytes();
            assert(bytes.deep_view() == bytes@);
            let r = mt_serialize_seq::<u8>(cfg, writer, bytes);
            assert(r is Ok <==> cfg.len_fits(bytes@.len()));
            r
        }
    }
}

impl MtSerialize for String {
    open spec fn fits(v: Seq<char>, cfg: MtCfg) -> bool {
        str_fits(v, cfg)
    }

    open spec fn wire(v: Seq<char>, cfg: MtCfg) -> Seq<u8> {
        str_wire(v, cfg)
    }

    /// A text is only refused for its length.
    open spec fn fault(v: Seq<char>, cfg: MtCfg) -> WriteFault {
        WriteFault::TooBig
    }

    /// A text that is refused leaves the sink as it was.
    fn mt_serialize(&self, cfg: MtCfg, writer: &mut Vec<u8>) -> (r: Result<(), SerializeError>)
        ensures
            r is Err ==> final(writer)@ == old(writer)@,
    {
        let text = self.as_str();
        assert(Self::fits(self.deep_view(), cfg) == <&str>::fits(text.deep_view(), cfg));
        assert(Self::wire(self.deep_view(), cfg) == <&str>::wire(text.deep_view(), cfg));
        assert(Self::fault(self.deep_view(), cfg) == <&str>::fault(text.deep_view(), cfg));
        text.mt_serialize(cfg, writer)
    }
}

impl MtDeserialize for String {
    open spec fn parse(cfg: MtCfg, input: Seq<u8>) -> Parsed<Seq<char>> {
        str_parse(cfg, input)
    }

    fn mt_deserialize(cfg: MtCfg, reader: &mut WrapRead) -> (r: Result<String, DeserializeError>) {
        proof {
            reveal(str_parse);
        }
        let ghost input = reader@;
        let len = cfg.read_len(reader)?;
        let ghost used = cfg.len_parse(input).1;
        if cfg.utf16() {
            let ghost q = utf16_parse(input.skip(used as int), len.positions(), len is Unbounded);
            let r = decode_utf16(&len, reader);
            proof {
                assert(input.skip(used as int).skip(q.used as int) == input.skip(
                    (used + q.used) as int,
                ));
                match q.res {
                    Ok(s) => {
                        assert(Seq::<char>::empty() + s == s);
                    },
                    Err(e) => {},
                }
            }
            r
        } else {
            let ghost tail = reader@;
            let body = match len {
                MtLen::Exact(n) => reader.read_exact(n)?,
                MtLen::Unbounded => reader.read_to_end(),
            };
            assert(body@ == len.reach(tail));
            assert(reader@ == tail.skip(body@.len() as int));
            assert(input.skip(used as int).skip(body@.len() as int) == input.skip(
                (used + body@.len()) as int,
            ));
            match str_from_utf8(body) {
                Some(s) => Ok(s.to_owned()),
                None => Err(DeserializeError::IoError(invalid_data())),
            }
        }
    }
}

/// The bytes of a sequence of bytes are the bytes themselves.
pub proof fn lemma_wire_bytes(bytes: Seq<u8>, cfg: MtCfg)
    ensures
        wire_items::<u8>(bytes, cfg) == bytes,
    decreases bytes.len(),
{
    if bytes.len() > 0 {
        reveal_with_fuel(be_bytes, 2);
        lemma_wire_bytes(bytes.skip(1), cfg);
        assert(be_bytes(bytes[0] as nat, 1) == seq![bytes[0]]);
        assert(seq![bytes[0]] + bytes.skip(1) == bytes);
    }
}

/// The bytes of the code units of one character.
proof fn lemma_char_wire(c: char, cfg: MtCfg)
    ensures
        (c as u32) < 0x10000 ==> wire_items::<u16>(char_units(c), cfg) == be_bytes(
            (c as u32) as nat,
            2,
        ),
        (c as u32) >= 0x10000 ==> wire_items::<u16>(char_units(c), cfg) == be_bytes(
            char_units(c)[0] as nat,
            2,
        ) + be_bytes(char_units(c)[1] as nat, 2),
{
    reveal_with_fuel(wire_items, 3);
    let units = char_units(c);
    vstd::utf8::char_is_scalar(c);
    if (c as u32) < 0x10000 {
        assert(units.skip(1) == Seq::<u16>::empty());
        assert(be_bytes(units[0] as nat, 2) + Seq::<u8>::empty() == be_bytes(units[0] as nat, 2));
    } else {
        assert(units.skip(1) == seq![units[1]]);
        assert(units.skip(1).skip(1) == Seq::<u16>::empty());
        assert(be_bytes(units[1] as nat, 2) + Seq::<u8>::empty() == be_bytes(units[1] as nat, 2));
    }
}

/// The code units of a text, written one after another and followed by
/// `rest`, are read back as the text. With a count, the count is their
/// number; without one, nothing may follow them.
pub proof fn lemma_utf16_round_trip(
    chars: Seq<char>,
    cfg: MtCfg,
    rest: Seq<u8>,
    count: nat,
    open: bool,
)
    requires
        utf16_units(chars).len() <= count,
        utf16_units(chars).len() < count ==> open && rest.len() == 0,
    ensures
        utf16_parse(wire_items::<u16>(utf16_units(chars), cfg) + rest, count, open) == done(
            chars,
            wire_items::<u16>(utf16_units(chars), cfg).len(),
        ),
    decreases chars.len(),
{
    let units = utf16_units(chars);
    let bytes = wire_items::<u16>(units, cfg);
    reveal(parse_uint);
    lemma_radix();
    if chars.len() == 0 {
        assert(bytes + rest == rest);
        assert(chars == Seq::<char>::empty());
    } else {
        let c = chars[0];
        let tail = chars.skip(1);
        let tail_bytes = wire_items::<u16>(utf16_units(tail), cfg);
        let follow = tail_bytes + rest;
        lemma_wire_items_concat::<u16>(char_units(c), utf16_units(tail), cfg);
        lemma_char_wire(c, cfg);
        vstd::utf8::char_is_scalar(c);
        vstd::utf8::char_u32_cast(c, c as u32);
        assert(seq![c] + tail == chars);
        if (c as u32) < 0x10000 {
            let u = (c as u32) as u16;
            let head = be_bytes(u as nat, 2);
            lemma_uint_round_trip(u as nat, 2, follow);
            assert(bytes + rest == head + follow);
            assert((head + follow).skip(2) == follow);
            lemma_utf16_round_trip(tail, cfg, rest, (count - 1) as nat, open);
        } else {
            let hi = char_units(c)[0];
            let lo = char_units(c)[1];
            let first = be_bytes(hi as nat, 2);
            let second = be_bytes(lo as nat, 2);
            lemma_uint_round_trip(hi as nat, 2, second + follow);
            lemma_uint_round_trip(lo as nat, 2, follow);
            assert(bytes + rest == first + (second + follow));
            assert((first + (second + follow)).skip(2) == second + follow);
            assert((second + follow).skip(2) == follow);
            assert((first + (second + follow)).skip(4) == follow);
            assert(pair_char(hi, lo) == c);
            lemma_utf16_round_trip(tail, cfg, rest, (count - 2) as nat, open);
        }
    }
}

/// Whether a text under `cfg` can be told from the bytes `rest` after it:
/// its length must be one that the machine can count, and without a length
/// prefix nothing may follow it.
#[verifier::opaque]
pub open spec fn str_sound(chars: Seq<char>, cfg: MtCfg, rest: Seq<u8>) -> bool {
    &&& cfg.utf16 ==> utf16_units(chars).len() <= usize::MAX
    &&& !cfg.utf16 ==> encode_utf8(chars).len() <= usize::MAX
    &&& cfg.len is None ==> rest.len() == 0
}

/// A text that was written as UTF-16 is read back.
proof fn lemma_utf16_text_round_trip(chars: Seq<char>, cfg: MtCfg, rest: Seq<u8>)
    requires
        cfg.utf16,
        str_fits(chars, cfg),
        str_sound(chars, cfg, rest),
    ensures
        str_parse(cfg, str_wire(chars, cfg) + rest) == done(chars, str_wire(chars, cfg).len()),
{
    reveal(str_fits);
    reveal(str_wire);
    reveal(str_parse);
    reveal(str_sound);
    reveal(seq_wire);
    let inner = cfg.spec_inner();
    let units = utf16_units(chars);
    let prefix = cfg.len_wire(units.len());
    let items = wire_items::<u16>(units, inner);
    let input = str_wire(chars, cfg) + rest;
    assert(Seq::<char>::empty() + chars == chars);
    assert(input == prefix + (items + rest));
    match cfg.len {
        None => {
            assert(input.skip(0) == input);
            lemma_utf16_round_trip(chars, inner, rest, usize::MAX as nat, true);
        },
        Some(w) => {
            lemma_uint_round_trip(units.len(), w.spec_bytes(), items + rest);
            assert(input.skip(prefix.len() as int) == items + rest);
            lemma_utf16_round_trip(chars, inner, rest, units.len(), false);
        },
    }
}

/// A text that was written as UTF-8 is read back.
proof fn lemma_utf8_text_round_trip(chars: Seq<char>, cfg: MtCfg, rest: Seq<u8>)
    requires
        !cfg.utf16,
        str_fits(chars, cfg),
        str_sound(chars, cfg, rest),
    ensures
        str_parse(cfg, str_wire(chars, cfg) + rest) == done(chars, str_wire(chars, cfg).len()),
{
    reveal(str_fits);
    reveal(str_wire);
    reveal(str_parse);
    reveal(str_sound);
    reveal(seq_wire);
    let inner = cfg.spec_inner();
    let bytes = encode_utf8(chars);
    let prefix = cfg.len_wire(bytes.len());
    let input = str_wire(chars, cfg) + rest;
    lemma_wire_bytes(bytes, inner);
    vstd::utf8::encode_utf8_valid_utf8(chars);
    vstd::utf8::encode_utf8_decode_utf8(chars);
    assert(input == prefix + (bytes + rest));
    match cfg.len {
        None => {
            assert(input.skip(0) == input);
            assert(bytes + rest == bytes);
        },
        Some(w) => {
            lemma_uint_round_trip(bytes.len(), w.spec_bytes(), bytes + rest);
            assert(input.skip(prefix.len() as int) == bytes + rest);
            assert((bytes + rest).take(bytes.len() as int) == bytes);
        },
    }
}

/// A text that was written is read back, in either encoding.
pub proof fn lemma_str_round_trip(chars: Seq<char>, cfg: MtCfg, rest: Seq<u8>)
    requires
        str_fits(chars, cfg),
        str_sound(chars, cfg, rest),
    ensures
        str_parse(cfg, str_wire(chars, cfg) + rest) == done(chars, str_wire(chars, cfg).len()),
{
    if cfg.utf16 {
        lemma_utf16_text_round_trip(chars, cfg, rest);
    } else {
        lemma_utf8_text_round_trip(chars, cfg, rest);
    }
}

impl MtRoundTrip for String {
    open spec fn sound(v: Seq<char>, cfg: MtCfg, rest: Seq<u8>) -> bool {
        str_sound(v, cfg, rest)
    }

    proof fn lemma_round_trip(v: Seq<char>, cfg: MtCfg, rest: Seq<u8>) {
        lemma_str_round_trip(v, cfg, rest);
    }
}

/// UTF-8 text that announces more bytes than are left fails at the end of
/// the input: it is never read as the shorter text.
pub proof fn lemma_text_cut_short(cfg: MtCfg, n: nat, body: Seq<u8>)
    requires
        !cfg.utf16,
        cfg.len is Some,
        cfg.len_fits(n),
        n <= usize::MAX,
        body.len() < n,
    ensures
        str_parse(cfg, cfg.len_wire(n) + body) == failed::<Seq<char>>(
            ReadFault::UnexpectedEof,
            cfg.len_wire(n).len() + body.len(),
        ),
{
    reveal(str_parse);
    let prefix = cfg.len_wire(n);
    lemma_uint_round_trip(n, cfg.len->Some_0.spec_bytes(), body);
    assert((prefix + body).skip(prefix.len() as int) == body);
}

/// A surrogate that can only stand second, met where a character begins,
/// is the fault `InvalidUtf16` with that code unit.
pub proof fn lemma_lone_surrogate(u: u16, rest: Seq<u8>, count: nat, open: bool)
    requires
        is_low_surrogate(u),
        count > 0,
    ensures
        utf16_parse(be_bytes(u as nat, 2) + rest, count, open) == failed::<Seq<char>>(
            ReadFault::InvalidUtf16(u),
            2,
        ),
{
    lemma_radix();
    lemma_uint_round_trip(u as nat, 2, rest);
}

/// A surrogate that must stand first, followed by a code unit that cannot
/// stand second, is the fault `InvalidUtf16` with the first of the two.
pub proof fn lemma_unpaired_surrogate(hi: u16, next: u16, rest: Seq<u8>, count: nat, open: bool)
    requires
        is_surrogate(hi),
        !is_low_surrogate(hi),
        !is_low_surrogate(next),
        count > 1,
    ensures
        utf16_parse(be_bytes(hi as nat, 2) + (be_bytes(next as nat, 2) + rest), count, open)
            == failed::<Seq<char>>(ReadFault::InvalidUtf16(hi), 4),
{
    lemma_radix();
    let second = be_bytes(next as nat, 2) + rest;
    lemma_uint_round_trip(hi as nat, 2, second);
    lemma_uint_round_trip(next as nat, 2, rest);
    assert((be_bytes(hi as nat, 2) + second).skip(2) == second);
}

} // verus!
