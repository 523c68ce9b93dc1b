use mt_ser::flags::EnumSet;
use mt_ser::to_clt::env::{MapBlock, MapBlockFlag, ObjAdd, ObjMsg, ALWAYS_LIT_FROM};
use mt_ser::to_clt::hud::{MinimapMode, MinimapModePkt, MinimapType};
use mt_ser::to_clt::media::{
    ItemDef, MediaAnnounce, MediaPayload, NodeDef, NodeMeta, TileAnim,
};
use mt_ser::to_clt::ArgbColor;
use mt_ser::to_srv::{Interaction, PlayerPos, PointedThing, ToSrvPkt};
use mt_ser::{
    def_cfg, DeserializeError, MtCfg, MtDeserialize, MtSerialize, Raw, SerializeError, WrapRead,
};

fn bytes_of<T: MtSerialize>(item: &T) -> Vec<u8> {
    let mut writer = Vec::new();
    item.mt_serialize(def_cfg(), &mut writer).unwrap();
    writer
}

fn value_of<T: MtDeserialize>(bytes: &[u8]) -> Result<T, DeserializeError> {
    let mut reader = WrapRead::new(bytes);
    T::mt_deserialize(def_cfg(), &mut reader)
}

fn pos() -> PlayerPos {
    PlayerPos {
        pos_100: [1, -2, 3],
        vel_100: [0, 0, 256],
        pitch_100: -9000,
        yaw_100: 18000,
        fov_80: 72,
        wanted_range: 10,
    }
}

fn pos_bytes() -> Vec<u8> {
    vec![
        0, 1, // the constant
        0, 0, 0, 1, 0xff, 0xff, 0xff, 0xfe, 0, 0, 0, 3, // pos
        0, 0, 0, 0, 0, 0, 0, 0, 0, 0, 1, 0, // vel
        0xff, 0xff, 0xdc, 0xd8, // pitch
        0, 0, 0x46, 0x50, // yaw
        72, 10,
    ]
}

#[test]
fn colour_is_four_bytes() {
    let c = ArgbColor { a: 1, r: 2, g: 3, b: 4 };
    assert_eq!(bytes_of(&c), vec![1, 2, 3, 4]);
    assert_eq!(value_of::<ArgbColor>(&[1, 2, 3, 4]).unwrap(), c);
    assert!(matches!(value_of::<ArgbColor>(&[1, 2, 3]), Err(DeserializeError::UnexpectedEof)));
}

#[test]
fn empty_structs_have_no_bytes() {
    assert!(bytes_of(&ObjAdd).is_empty());
    assert!(bytes_of(&ObjMsg).is_empty());
    assert!(bytes_of(&TileAnim).is_empty());
    assert!(bytes_of(&ItemDef).is_empty());
    assert!(bytes_of(&NodeDef).is_empty());
    assert!(bytes_of(&NodeMeta).is_empty());
    assert!(bytes_of(&PointedThing).is_empty());
    assert_eq!(value_of::<NodeMeta>(&[]).unwrap(), NodeMeta);
    assert_eq!(value_of::<PointedThing>(&[1]).unwrap(), PointedThing);
}

#[test]
fn media_structs_travel_field_by_field() {
    let a = MediaAnnounce { name: "a.png".into(), base64_sha1: "c2hh".into() };
    let bytes = bytes_of(&a);
    assert_eq!(bytes, [&[0, 5][..], b"a.png", &[0, 4], b"c2hh"].concat());
    assert_eq!(value_of::<MediaAnnounce>(&bytes).unwrap(), a);
    let p = MediaPayload { name: "a".into(), data: vec![9, 8] };
    let bytes = bytes_of(&p);
    // the content stands behind a 32-bit length
    assert_eq!(bytes, vec![0, 1, b'a', 0, 0, 0, 2, 9, 8]);
    assert_eq!(value_of::<MediaPayload>(&bytes).unwrap(), p);
    assert!(matches!(
        value_of::<MediaPayload>(&[0, 1, b'a', 0, 0, 0, 2, 9]),
        Err(DeserializeError::UnexpectedEof)
    ));
}

#[test]
fn player_position_stands_behind_its_constant() {
    assert_eq!(bytes_of(&pos()), pos_bytes());
    assert_eq!(value_of::<PlayerPos>(&pos_bytes()).unwrap(), pos());
    let mut wrong = pos_bytes();
    wrong[1] = 2;
    assert!(matches!(
        value_of::<PlayerPos>(&wrong),
        Err(DeserializeError::InvalidConst(Raw::U16(1), Raw::U16(2)))
    ));
}

#[test]
fn map_block_round_trip() {
    let mut param_0 = [0u16; 4096];
    param_0[0] = 0x0102;
    param_0[4095] = 0xfffe;
    let mut param_1 = [0u8; 4096];
    param_1[1] = 7;
    let block = MapBlock {
        flags: EnumSet::<MapBlockFlag>::from_repr_truncated(0b1001),
        lit_from: ALWAYS_LIT_FROM,
        param_0,
        param_1,
        param_2: [3u8; 4096],
        node_metas: vec![(5, NodeMeta), (9, NodeMeta)],
    };
    let bytes = bytes_of(&block);
    assert_eq!(bytes.len(), 1 + 2 + 2 + 8192 + 4096 + 4096 + 2 + 4 + 1);
    assert_eq!(&bytes[..7], &[9, 0xf0, 0, 2, 2, 1, 2]);
    assert_eq!(&bytes[5 + 8190..5 + 8192], &[0xff, 0xfe]);
    assert_eq!(&bytes[bytes.len() - 7..], &[0, 2, 0, 5, 0, 9, 2]);
    assert_eq!(value_of::<MapBlock>(&bytes).unwrap(), block);
    let mut wrong = bytes.clone();
    wrong[4] = 1;
    assert!(matches!(
        value_of::<MapBlock>(&wrong),
        Err(DeserializeError::InvalidConst(Raw::U8(2), Raw::U8(1)))
    ));
    let last = bytes.len() - 1;
    wrong = bytes.clone();
    wrong[last] = 3;
    assert!(matches!(
        value_of::<MapBlock>(&wrong),
        Err(DeserializeError::InvalidConst(Raw::U8(2), Raw::U8(3)))
    ));
    assert!(matches!(
        value_of::<MapBlock>(&bytes[..last]),
        Err(DeserializeError::UnexpectedEof)
    ));
}

#[test]
fn minimap_modes_put_the_current_mode_behind_the_count() {
    let mode = |t, size| MinimapMode {
        minimap_type: t,
        label: "m".into(),
        size,
        texture: String::new(),
        scale: 1,
    };
    let pkt = MinimapModePkt::new(
        1,
        vec![mode(MinimapType::NoMinimap, 0), mode(MinimapType::Radar, 512)],
    );
    assert_eq!(pkt.current(), 1);
    assert_eq!(pkt.modes().len(), 2);
    let bytes = bytes_of(&pkt);
    assert_eq!(
        bytes,
        vec![
            0, 2, // count
            0, 1, // current
            0, 0, 0, 1, b'm', 0, 0, 0, 0, 0, 1, // first mode
            0, 2, 0, 1, b'm', 2, 0, 0, 0, 0, 1, // second mode
        ]
    );
    assert_eq!(value_of::<MinimapMode>(&bytes[15..]).unwrap(), mode(MinimapType::Radar, 512));
    let mut w = Vec::new();
    pkt.mt_serialize(MtCfg::len8(), &mut w).unwrap();
    assert_eq!(&w[..3], &[2, 0, 1]);
    let many = MinimapModePkt::new(0, vec![mode(MinimapType::Surface, 1); 256]);
    assert!(matches!(
        many.mt_serialize(MtCfg::len8(), &mut Vec::new()),
        Err(SerializeError::TooBig(_))
    ));
}

fn packets() -> Vec<(u16, ToSrvPkt)> {
    vec![
        (0, ToSrvPkt::Nil),
        (
            2,
            ToSrvPkt::Init {
                serialize_version: 28,
                min_proto_version: 37,
                max_proto_version: 39,
                player_name: "singleplayer".into(),
                send_full_item_meta: true,
            },
        ),
        (17, ToSrvPkt::Init2 { lang: "de".into() }),
        (23, ToSrvPkt::JoinModChan { channel: "c".into() }),
        (24, ToSrvPkt::LeaveModChan { channel: "c".into() }),
        (25, ToSrvPkt::MsgModChan { channel: "c".into(), msg: "hello".into() }),
        (35, ToSrvPkt::PlayerPos(pos())),
        (36, ToSrvPkt::GotBlocks { blocks: vec![[1, 2, 3], [-1, -2, -3]] }),
        (37, ToSrvPkt::DeletedBlocks { blocks: vec![] }),
        (49, ToSrvPkt::InvAction { action: "Move 1".into() }),
        (50, ToSrvPkt::ChatMsg { msg: "hi 😀".into() }),
        (53, ToSrvPkt::FallDmg { amount: 3 }),
        (55, ToSrvPkt::SelectItem { select_item: 7 }),
        (56, ToSrvPkt::Respawn),
        (
            57,
            ToSrvPkt::Interact {
                action: Interaction::Place,
                item_slot: 2,
                pointed: PointedThing,
                pos: pos(),
            },
        ),
        (58, ToSrvPkt::RemovedSounds { ids: vec![1, -1] }),
        (
            59,
            ToSrvPkt::NodeMetaFields {
                pos: [1, 2, 3],
                formname: "f".into(),
                fields: vec![("k".into(), "v".into())],
            },
        ),
        (60, ToSrvPkt::InvFields { formname: "f".into(), fields: vec![] }),
        (64, ToSrvPkt::ReqMedia { filenames: vec!["a".into(), "b".into()] }),
        (
            67,
            ToSrvPkt::CltReady {
                major: 5,
                minor: 6,
                patch: 1,
                reserved: 0,
                version: "5.6.1".into(),
                formspec: 6,
            },
        ),
        (80, ToSrvPkt::FirstSrp { salt: vec![1], verifier: vec![2, 3], empty_passwd: false }),
        (81, ToSrvPkt::SrpBytesA { a: vec![1, 2], no_sha1: true }),
        (82, ToSrvPkt::SrpBytesM { m: vec![9] }),
        (0xffff, ToSrvPkt::Disco),
    ]
}

#[test]
fn every_packet_travels_at_its_discriminant() {
    for (discr, pkt) in packets() {
        let bytes = bytes_of(&pkt);
        assert_eq!(u16::from_be_bytes([bytes[0], bytes[1]]), discr, "{:?}", pkt);
        assert_eq!(value_of::<ToSrvPkt>(&bytes).unwrap(), pkt);
    }
}

#[test]
fn packets_have_these_bytes() {
    assert_eq!(bytes_of(&ToSrvPkt::Nil), vec![0, 0]);
    assert_eq!(bytes_of(&ToSrvPkt::Disco), vec![0xff, 0xff]);
    assert_eq!(
        bytes_of(&ToSrvPkt::GotBlocks { blocks: vec![[1, 2, -3]] }),
        vec![0, 36, 1, 0, 1, 0, 2, 0xff, 0xfd]
    );
    assert_eq!(
        bytes_of(&ToSrvPkt::InvAction { action: "Drop".into() }),
        vec![0, 49, b'D', b'r', b'o', b'p']
    );
    assert_eq!(
        bytes_of(&ToSrvPkt::ChatMsg { msg: "é😀".into() }),
        vec![0, 50, 0, 3, 0, 0xe9, 0xd8, 0x3d, 0xde, 0x00]
    );
    assert_eq!(
        bytes_of(&ToSrvPkt::InvFields {
            formname: "f".into(),
            fields: vec![("a".into(), "bc".into())]
        }),
        vec![0, 60, 0, 1, b'f', 0, 1, 0, 1, b'a', 0, 2, b'b', b'c']
    );
    assert_eq!(
        bytes_of(&ToSrvPkt::Init {
            serialize_version: 28,
            min_proto_version: 37,
            max_proto_version: 39,
            player_name: "me".into(),
            send_full_item_meta: true,
        }),
        vec![0, 2, 28, 0, 1, 0, 37, 0, 39, 0, 2, b'm', b'e', 1]
    );
    let mut interact = vec![0, 57, 3, 0, 2, 0, 0, 0, 0];
    interact.extend(pos_bytes());
    assert_eq!(
        bytes_of(&ToSrvPkt::Interact {
            action: Interaction::Place,
            item_slot: 2,
            pointed: PointedThing,
            pos: pos(),
        }),
        interact
    );
}

#[test]
fn unknown_packet_is_refused_with_its_discriminant() {
    for d in [1u16, 3, 16, 18, 34, 38, 83, 0xfffe] {
        let bytes = d.to_be_bytes();
        match value_of::<ToSrvPkt>(&bytes) {
            Err(DeserializeError::InvalidEnum(name, raw)) => {
                assert_eq!(name, "ToSrvPkt");
                assert!(raw.same(&Raw::U16(d)));
            }
            other => panic!("{:?}", other),
        }
    }
    assert!(matches!(value_of::<ToSrvPkt>(&[0]), Err(DeserializeError::UnexpectedEof)));
}

#[test]
fn last_field_falls_back_where_the_packet_ends_before_it() {
    let bytes = [0u8, 2, 28, 0, 1, 0, 37, 0, 39, 0, 2, b'm', b'e'];
    assert_eq!(
        value_of::<ToSrvPkt>(&bytes).unwrap(),
        ToSrvPkt::Init {
            serialize_version: 28,
            min_proto_version: 37,
            max_proto_version: 39,
            player_name: "me".into(),
            send_full_item_meta: false,
        }
    );
}

#[test]
fn packet_cut_in_an_earlier_field_fails() {
    // in the middle of the largest protocol version
    let bytes = [0u8, 2, 28, 0, 1, 0, 37, 0];
    assert!(matches!(value_of::<ToSrvPkt>(&bytes), Err(DeserializeError::UnexpectedEof)));
    // before the name
    let bytes = [0u8, 2, 28, 0, 1, 0, 37, 0, 39];
    assert!(matches!(value_of::<ToSrvPkt>(&bytes), Err(DeserializeError::UnexpectedEof)));
    // in the middle of the name: five bytes announced, two there
    let bytes = [0u8, 2, 28, 0, 1, 0, 37, 0, 39, 0, 5, b'm', b'e'];
    assert!(matches!(value_of::<ToSrvPkt>(&bytes), Err(DeserializeError::UnexpectedEof)));
    // in the middle of the constant
    let bytes = [0u8, 2, 28, 0];
    assert!(matches!(value_of::<ToSrvPkt>(&bytes), Err(DeserializeError::UnexpectedEof)));
}

#[test]
fn packet_with_a_wrong_constant_fails() {
    let bytes = [0u8, 2, 28, 0, 2, 0, 37, 0, 39, 0, 2, b'm', b'e', 1];
    assert!(matches!(
        value_of::<ToSrvPkt>(&bytes),
        Err(DeserializeError::InvalidConst(Raw::U16(1), Raw::U16(2)))
    ));
}

#[test]
fn framed_field_with_more_bytes_is_passed_over() {
    // the thing pointed at comes with five bytes that this reader does not know
    let mut bytes = vec![0, 57, 3, 0, 2, 0, 0, 0, 5, 9, 9, 9, 9, 9];
    bytes.extend(pos_bytes());
    assert_eq!(
        value_of::<ToSrvPkt>(&bytes).unwrap(),
        ToSrvPkt::Interact {
            action: Interaction::Place,
            item_slot: 2,
            pointed: PointedThing,
            pos: pos(),
        }
    );
}

#[test]
fn packet_fields_respect_their_lengths() {
    let many = ToSrvPkt::GotBlocks { blocks: vec![[0, 0, 0]; 256] };
    assert!(matches!(
        many.mt_serialize(def_cfg(), &mut Vec::new()),
        Err(SerializeError::TooBig(_))
    ));
    let most = ToSrvPkt::GotBlocks { blocks: vec![[0, 0, 0]; 255] };
    assert_eq!(value_of::<ToSrvPkt>(&bytes_of(&most)).unwrap(), most);
    let long = ToSrvPkt::Init2 { lang: "a".repeat(65536) };
    assert!(matches!(
        long.mt_serialize(def_cfg(), &mut Vec::new()),
        Err(SerializeError::TooBig(_))
    ));
    // without a length there is no bound
    let action = ToSrvPkt::InvAction { action: "a".repeat(70000) };
    assert_eq!(bytes_of(&action).len(), 70002);
}
