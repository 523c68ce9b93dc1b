//! Chat messages and the list of players.

use crate::cfg::{spec_def_cfg, LenWidth, MtCfg};
use crate::codec::{done, failed, MtDeserialize, MtRoundTrip, MtSerialize, Parsed};
use crate::endian::{be_bytes, lemma_radix, parse_uint};
use crate::error::{DeserializeError, RawView, ReadFault, SerializeError, WriteFault};
use crate::num::lemma_uint_round_trip;
use crate::reader::WrapRead;
use crate::tagged::{assigned, invalid_enum, lemma_assigned_at, read_discr, write_discr};
use vstd::prelude::*;

verus! {

/// The kind of a chat message.
#[derive(Clone, Copy, Debug, PartialEq, Eq, Structural)]
pub enum ChatMsgType {
    Raw,
    Normal,
    Announce,
    System,
}

impl DeepView for ChatMsgType {
    type V = ChatMsgType;

    open spec fn deep_view(&self) -> ChatMsgType {
        *self
    }
}

impl ChatMsgType {
    /// The declaration of the variants: the first is numbered, the others follow it.
    pub open spec fn decl() -> Seq<Option<u64>> {
        seq![Some(0), None, None, None]
    }

    /// The position of a variant in the declaration.
    pub open spec fn index(self) -> int {
        match self {
            ChatMsgType::Raw => 0,
            ChatMsgType::Normal => 1,
            ChatMsgType::Announce => 2,
            ChatMsgType::System => 3,
        }
    }

    /// The discriminant of a variant.
    pub open spec fn spec_discr(self) -> u8 {
        match self {
            ChatMsgType::Raw => 0,
            ChatMsgType::Normal => 1,
            ChatMsgType::Announce => 2,
            ChatMsgType::System => 3,
        }
    }

    /// The discriminant of a variant.
    #[verifier::when_used_as_spec(spec_discr)]
    pub fn discr(self) -> (r: u8)
        ensures
            r == self.spec_discr(),
    {
        match self {
            ChatMsgType::Raw => 0,
            ChatMsgType::Normal => 1,
            ChatMsgType::Announce => 2,
            ChatMsgType::System => 3,
        }
    }

    /// The variant with the discriminant `d`, where there is one.
    pub open spec fn spec_from_discr(d: u8) -> Option<ChatMsgType> {
        if d == 0 {
            Some(ChatMsgType::Raw)
        } else if d == 1 {
            Some(ChatMsgType::Normal)
        } else if d == 2 {
            Some(ChatMsgType::Announce)
        } else if d == 3 {
            Some(ChatMsgType::System)
        } else {
            None
        }
    }

    /// The variant with the discriminant `d`, where there is one.
    #[verifier::when_used_as_spec(spec_from_discr)]
    pub fn from_discr(d: u8) -> (r: Option<ChatMsgType>)
        ensures
            r == Self::spec_from_discr(d),
    {
        if d == 0 {
            Some(ChatMsgType::Raw)
        } else if d == 1 {
            Some(ChatMsgType::Normal)
        } else if d == 2 {
            Some(ChatMsgType::Announce)
        } else if d == 3 {
            Some(ChatMsgType::System)
        } else {
            None
        }
    }

    /// A discriminant that no variant has is refused, and the fault carries
    /// it.
    pub proof fn lemma_unknown(d: u8, rest: Seq<u8>)
        requires
            Self::spec_from_discr(d) is None,
        ensures
            <ChatMsgType as MtDeserialize>::parse(
                spec_def_cfg(),
                be_bytes(d as nat, 1) + rest,
            ) == failed::<ChatMsgType>(
                ReadFault::InvalidEnum("ChatMsgType"@, RawView::U8(d)),
                1,
            ),
    {
        lemma_radix();
        lemma_uint_round_trip(d as nat, 1, rest);
    }

    /// The discriminants are the ones that the declaration assigns, and
    /// each of them leads back to its variant.
    pub proof fn lemma_discr(self)
        ensures
            self.spec_discr() as int == assigned(Self::decl())[self.index()],
            Self::spec_from_discr(self.spec_discr()) == Some(self),
    {
        match self {
            ChatMsgType::Raw => lemma_assigned_at(Self::decl(), 0),
            ChatMsgType::Normal => {
                lemma_assigned_at(Self::decl(), 0);
                lemma_assigned_at(Self::decl(), 1);
            },
            ChatMsgType::Announce => {
                lemma_assigned_at(Self::decl(), 0);
                lemma_assigned_at(Self::decl(), 1);
                lemma_assigned_at(Self::decl(), 2);
            },
            ChatMsgType::System => {
                lemma_assigned_at(Self::decl(), 0);
                lemma_assigned_at(Self::decl(), 1);
                lemma_assigned_at(Self::decl(), 2);
                lemma_assigned_at(Self::decl(), 3);
            },
        }
    }
}

impl MtSerialize for ChatMsgType {
    open spec fn fits(v: ChatMsgType, cfg: MtCfg) -> bool {
        true
    }

    open spec fn wire(v: ChatMsgType, cfg: MtCfg) -> Seq<u8> {
        be_bytes(v.spec_discr() as nat, 1)
    }

    /// Never refused.
    open spec fn fault(v: ChatMsgType, cfg: MtCfg) -> WriteFault {
        WriteFault::TooBig
    }

    fn mt_serialize(&self, cfg: MtCfg, writer: &mut Vec<u8>) -> (r: Result<(), SerializeError>) {
        proof {
            lemma_radix();
        }
        write_discr(LenWidth::W8, self.discr() as u64, writer);
        Ok(())
    }
}

impl MtDeserialize for ChatMsgType {
    /// A discriminant that no variant has is the fault `InvalidEnum`.
    open spec fn parse(cfg: MtCfg, input: Seq<u8>) -> Parsed<ChatMsgType> {
        let (tag, used) = parse_uint(input, 1);
        match tag {
            None => failed(ReadFault::UnexpectedEof, used),
            Some(d) => match Self::spec_from_discr(d as u8) {
                Some(v) => done(v, used),
                None => failed(
                    ReadFault::InvalidEnum("ChatMsgType"@, RawView::U8(d as u8)),
                    used,
                ),
            },
        }
    }

    fn mt_deserialize(cfg: MtCfg, reader: &mut WrapRead) -> (r: Result<
        ChatMsgType,
        DeserializeError,
    >) {
        proof {
            lemma_radix();
        }
        let d = read_discr(LenWidth::W8, reader)?;
        match Self::from_discr(d as u8) {
            Some(v) => Ok(v),
            None => Err(invalid_enum("ChatMsgType", LenWidth::W8, d)),
        }
    }
}

impl MtRoundTrip for ChatMsgType {
    open spec fn sound(v: ChatMsgType, cfg: MtCfg, rest: Seq<u8>) -> bool {
        true
    }

    proof fn lemma_round_trip(v: ChatMsgType, cfg: MtCfg, rest: Seq<u8>) {
        lemma_radix();
        lemma_uint_round_trip(v.spec_discr() as nat, 1, rest);
    }
}

/// What an update does to the list of players.
#[derive(Clone, Copy, Debug, PartialEq, Eq, Structural)]
pub enum PlayerListUpdateType {
    Init,
    Add,
    Remove,
}

impl DeepView for PlayerListUpdateType {
    type V = PlayerListUpdateType;

    open spec fn deep_view(&self) -> PlayerListUpdateType {
        *self
    }
}

impl PlayerListUpdateType {
    /// The declaration of the variants: the first is numbered, the others follow it.
    pub open spec fn decl() -> Seq<Option<u64>> {
        seq![Some(0), None, None]
    }

    /// The position of a variant in the declaration.
    pub open spec fn index(self) -> int {
        match self {
            PlayerListUpdateType::Init => 0,
            PlayerListUpdateType::Add => 1,
            PlayerListUpdateType::Remove => 2,
        }
    }

    /// The discriminant of a variant.
    pub open spec fn spec_discr(self) -> u8 {
        match self {
            PlayerListUpdateType::Init => 0,
            PlayerListUpdateType::Add => 1,
            PlayerListUpdateType::Remove => 2,
        }
    }

    /// The discriminant of a variant.
    #[verifier::when_used_as_spec(spec_discr)]
    pub fn discr(self) -> (r: u8)
        ensures
            r == self.spec_discr(),
    {
        match self {
            PlayerListUpdateType::Init => 0,
            PlayerListUpdateType::Add => 1,
            PlayerListUpdateType::Remove => 2,
        }
    }

    /// The variant with the discriminant `d`, where there is one.
    pub open spec fn spec_from_discr(d: u8) -> Option<PlayerListUpdateType> {
        if d == 0 {
            Some(PlayerListUpdateType::Init)
        } else if d == 1 {
            Some(PlayerListUpdateType::Add)
        } else if d == 2 {
            Some(PlayerListUpdateType::Remove)
        } else {
            None
        }
    }

    /// The variant with the discriminant `d`, where there is one.
    #[verifier::when_used_as_spec(spec_from_discr)]
    pub fn from_discr(d: u8) -> (r: Option<PlayerListUpdateType>)
        ensures
            r == Self::spec_from_discr(d),
    {
        if d == 0 {
            Some(PlayerListUpdateType::Init)
        } else if d == 1 {
            Some(PlayerListUpdateType::Add)
        } else if d == 2 {
            Some(PlayerListUpdateType::Remove)
        } else {
            None
        }
    }

    /// A discriminant that no variant has is refused, and the fault carries
    /// it.
    pub proof fn lemma_unknown(d: u8, rest: Seq<u8>)
        requires
            Self::spec_from_discr(d) is None,
        ensures
            <PlayerListUpdateType as MtDeserialize>::parse(
                spec_def_cfg(),
                be_bytes(d as nat, 1) + rest,
            ) == failed::<PlayerListUpdateType>(
                ReadFault::InvalidEnum("PlayerListUpdateType"@, RawView::U8(d)),
                1,
            ),
    {
        lemma_radix();
        lemma_uint_round_trip(d as nat, 1, rest);
    }

    /// The discriminants are the ones that the declaration assigns, and
    /// each of them leads back to its variant.
    pub proof fn lemma_discr(self)
        ensures
            self.spec_discr() as int == assigned(Self::decl())[self.index()],
            Self::spec_from_discr(self.spec_discr()) == Some(self),
    {
        match self {
            PlayerListUpdateType::Init => lemma_assigned_at(Self::decl(), 0),
            PlayerListUpdateType::Add => {
                lemma_assigned_at(Self::decl(), 0);
                lemma_assigned_at(Self::decl(), 1);
            },
            PlayerListUpdateType::Remove => {
                lemma_assigned_at(Self::decl(), 0);
                lemma_assigned_at(Self::decl(), 1);
                lemma_assigned_at(Self::decl(), 2);
            },
        }
    }
}

impl MtSerialize for PlayerListUpdateType {
    open spec fn fits(v: PlayerListUpdateType, cfg: MtCfg) -> bool {
        true
    }

    open spec fn wire(v: PlayerListUpdateType, cfg: MtCfg) -> Seq<u8> {
        be_bytes(v.spec_discr() as nat, 1)
    }

    /// Never refused.
    open spec fn fault(v: PlayerListUpdateType, cfg: MtCfg) -> WriteFault {
        WriteFault::TooBig
    }

    fn mt_serialize(&self, cfg: MtCfg, writer: &mut Vec<u8>) -> (r: Result<(), SerializeError>) {
        proof {
            lemma_radix();
        }
        write_discr(LenWidth::W8, self.discr() as u64, writer);
        Ok(())
    }
}

impl MtDeserialize for PlayerListUpdateType {
    /// A discriminant that no variant has is the fault `InvalidEnum`.
    open spec fn parse(cfg: MtCfg, input: Seq<u8>) -> Parsed<PlayerListUpdateType> {
        let (tag, used) = parse_uint(input, 1);
        match tag {
            None => failed(ReadFault::UnexpectedEof, used),
            Some(d) => match Self::spec_from_discr(d as u8) {
                Some(v) => done(v, used),
                None => failed(
                    ReadFault::InvalidEnum("PlayerListUpdateType"@, RawView::U8(d as u8)),
                    used,
                ),
            },
        }
    }

    fn mt_deserialize(cfg: MtCfg, reader: &mut WrapRead) -> (r: Result<
        PlayerListUpdateType,
        DeserializeError,
    >) {
        proof {
            lemma_radix();
        }
        let d = read_discr(LenWidth::W8, reader)?;
        match Self::from_discr(d as u8) {
            Some(v) => Ok(v),
            None => Err(invalid_enum("PlayerListUpdateType", LenWidth::W8, d)),
        }
    }
}

impl MtRoundTrip for PlayerListUpdateType {
    open spec fn sound(v: PlayerListUpdateType, cfg: MtCfg, rest: Seq<u8>) -> bool {
        true
    }

    proof fn lemma_round_trip(v: PlayerListUpdateType, cfg: MtCfg, rest: Seq<u8>) {
        lemma_radix();
        lemma_uint_round_trip(v.spec_discr() as nat, 1, rest);
    }
}

} // verus!
