use mt_ser::flags::{EnumSet, MtFlag};
use mt_ser::tagged::{
    discriminants, find_str_variant, find_variant, invalid_enum, invalid_str_enum, read_discr,
    snake_tag, write_discr, write_str_discr,
};
use mt_ser::to_clt::chat::{ChatMsgType, PlayerListUpdateType};
use mt_ser::to_clt::env::MapBlockFlag;
use mt_ser::to_clt::hud::{HotbarParam, HudFlag, HudStyleFlag, HudType, MinimapType};
use mt_ser::to_clt::media::SoundSrcType;
use mt_ser::to_clt::ModChanSig;
use mt_ser::to_srv::Interaction;
use mt_ser::{def_cfg, DeserializeError, LenWidth, MtDeserialize, MtSerialize, Raw, WrapRead};

fn bytes_of<T: MtSerialize>(item: &T) -> Vec<u8> {
    let mut writer = Vec::new();
    item.mt_serialize(def_cfg(), &mut writer).unwrap();
    writer
}

fn value_of<T: MtDeserialize>(bytes: &[u8]) -> Result<T, DeserializeError> {
    let mut reader = WrapRead::new(bytes);
    T::mt_deserialize(def_cfg(), &mut reader)
}

#[test]
fn discriminants_count_up_from_zero() {
    assert_eq!(discriminants(&[None, None, None]), Some(vec![0, 1, 2]));
    assert_eq!(discriminants(&[]), Some(vec![]));
}

#[test]
fn discriminants_follow_the_numbered_variant() {
    assert_eq!(
        discriminants(&[Some(2), None, None, Some(10), Some(32), None]),
        Some(vec![2, 3, 4, 10, 32, 33])
    );
    assert_eq!(discriminants(&[None, Some(0), None]), Some(vec![0, 0, 1]));
    assert_eq!(discriminants(&[Some(u64::MAX)]), Some(vec![u64::MAX]));
    assert_eq!(discriminants(&[Some(u64::MAX), Some(3)]), Some(vec![u64::MAX, 3]));
}

#[test]
fn discriminants_do_not_pass_the_largest_number() {
    assert_eq!(discriminants(&[Some(u64::MAX), None]), None);
}

#[test]
fn variant_is_found_by_its_discriminant() {
    let table = [2u64, 3, 4, 10, 32];
    assert_eq!(find_variant(&table, 10), Some(3));
    assert_eq!(find_variant(&table, 2), Some(0));
    assert_eq!(find_variant(&table, 5), None);
    assert_eq!(find_variant(&[7, 7], 7), Some(0));
    assert_eq!(find_variant(&[], 0), None);
}

#[test]
fn discriminant_travels_in_the_width_of_the_enum() {
    let mut w = Vec::new();
    write_discr(LenWidth::W8, 3, &mut w);
    write_discr(LenWidth::W16, 3, &mut w);
    write_discr(LenWidth::W32, 3, &mut w);
    assert_eq!(w, vec![3, 0, 3, 0, 0, 0, 3]);
    let mut reader = WrapRead::new(&w);
    assert_eq!(read_discr(LenWidth::W8, &mut reader).unwrap(), 3);
    assert_eq!(read_discr(LenWidth::W16, &mut reader).unwrap(), 3);
    assert_eq!(read_discr(LenWidth::W32, &mut reader).unwrap(), 3);
    assert!(matches!(
        read_discr(LenWidth::W8, &mut reader),
        Err(DeserializeError::UnexpectedEof)
    ));
}

#[test]
fn unknown_discriminant_carries_name_and_value() {
    match invalid_enum("Thing", LenWidth::W16, 513) {
        DeserializeError::InvalidEnum(name, raw) => {
            assert_eq!(name, "Thing");
            assert!(raw.same(&Raw::U16(513)));
        }
        other => panic!("{:?}", other),
    }
    assert!(matches!(
        invalid_enum("Thing", LenWidth::W8, 7),
        DeserializeError::InvalidEnum("Thing", Raw::U8(7))
    ));
    assert!(matches!(
        invalid_enum("Thing", LenWidth::W32, 7),
        DeserializeError::InvalidEnum("Thing", Raw::U32(7))
    ));
    assert!(matches!(
        invalid_enum("Thing", LenWidth::W64, 7),
        DeserializeError::InvalidEnum("Thing", Raw::U64(7))
    ));
}

#[test]
fn string_tag_is_snake_case() {
    assert_eq!(snake_tag("JoinModChan"), "join_mod_chan");
    assert_eq!(snake_tag("Nil"), "nil");
    assert_eq!(snake_tag("Init2"), "init_2");
    assert_ne!(snake_tag("PlayerPos"), "PlayerPos");
}

#[test]
fn plain_enums_travel_as_their_discriminant() {
    assert_eq!(bytes_of(&ChatMsgType::Raw), vec![0]);
    assert_eq!(bytes_of(&ChatMsgType::System), vec![3]);
    assert_eq!(bytes_of(&PlayerListUpdateType::Remove), vec![2]);
    assert_eq!(bytes_of(&ModChanSig::SetState), vec![5]);
    assert_eq!(bytes_of(&HudType::ImageWaypoint), vec![5]);
    assert_eq!(bytes_of(&Interaction::Activate), vec![5]);
    // these two are 16 bits wide
    assert_eq!(bytes_of(&MinimapType::Texture), vec![0, 3]);
    assert_eq!(bytes_of(&SoundSrcType::Obj), vec![0, 2]);
}

#[test]
fn plain_enums_read_back() {
    assert_eq!(value_of::<ChatMsgType>(&[2]).unwrap(), ChatMsgType::Announce);
    assert_eq!(value_of::<ModChanSig>(&[0]).unwrap(), ModChanSig::JoinOk);
    assert_eq!(value_of::<MinimapType>(&[0, 0]).unwrap(), MinimapType::NoMinimap);
    assert_eq!(value_of::<SoundSrcType>(&[0, 1]).unwrap(), SoundSrcType::Pos);
    for v in [HudType::Image, HudType::Text, HudType::Statbar, HudType::Inv, HudType::Waypoint] {
        assert_eq!(value_of::<HudType>(&bytes_of(&v)).unwrap(), v);
        assert_eq!(HudType::from_discr(v.discr()), Some(v));
    }
    assert_eq!(Interaction::Dug.discr(), 2);
    assert_eq!(Interaction::from_discr(6), None);
}

#[test]
fn plain_enum_refuses_an_unknown_discriminant() {
    assert!(matches!(
        value_of::<ChatMsgType>(&[4]),
        Err(DeserializeError::InvalidEnum("ChatMsgType", Raw::U8(4)))
    ));
    assert!(matches!(
        value_of::<MinimapType>(&[1, 0]),
        Err(DeserializeError::InvalidEnum("MinimapType", Raw::U16(256)))
    ));
    assert!(matches!(value_of::<MinimapType>(&[1]), Err(DeserializeError::UnexpectedEof)));
}

#[test]
fn flags_are_bits() {
    assert_eq!(MapBlockFlag::IsUnderground.mask(), 1);
    assert_eq!(MapBlockFlag::NotGenerated.mask(), 8);
    assert_eq!(MapBlockFlag::all(), 0b1111);
    assert_eq!(MapBlockFlag::repr(), LenWidth::W8);
    assert_eq!(HudStyleFlag::Mono.mask(), 4);
    assert_eq!(HudStyleFlag::all(), 0b111);
    assert_eq!(HudFlag::RadarMinimap.mask(), 64);
    assert_eq!(HudFlag::all(), 0b111_1111);
    assert_eq!(HudFlag::repr(), LenWidth::W32);
}

#[test]
fn flag_set_holds_its_flags() {
    let set = EnumSet::<HudFlag>::empty().with(&HudFlag::Crosshair).with(&HudFlag::Minimap);
    assert_eq!(set.as_repr(), 0b10_0100);
    assert!(set.contains(&HudFlag::Crosshair));
    assert!(set.contains(&HudFlag::Minimap));
    assert!(!set.contains(&HudFlag::Hotbar));
    assert_eq!(set.with(&HudFlag::Minimap), set);
    assert_eq!(EnumSet::<HudFlag>::empty().as_repr(), 0);
}

#[test]
fn flag_set_travels_as_its_number() {
    let set = EnumSet::<MapBlockFlag>::from_repr_truncated(0b0101);
    assert_eq!(bytes_of(&set), vec![5]);
    let wide = EnumSet::<HudStyleFlag>::from_repr_truncated(0b110);
    assert_eq!(bytes_of(&wide), vec![0, 0, 0, 6]);
    assert_eq!(value_of::<EnumSet<HudStyleFlag>>(&[0, 0, 0, 6]).unwrap(), wide);
    assert!(matches!(
        value_of::<EnumSet<HudStyleFlag>>(&[0, 0, 6]),
        Err(DeserializeError::UnexpectedEof)
    ));
}

#[test]
fn flag_set_drops_unknown_bits() {
    assert_eq!(EnumSet::<MapBlockFlag>::from_repr_truncated(0xff).as_repr(), 0x0f);
    assert_eq!(value_of::<EnumSet<MapBlockFlag>>(&[0xf3]).unwrap().as_repr(), 0x03);
    assert_eq!(
        value_of::<EnumSet<HudFlag>>(&[0xff, 0xff, 0xff, 0xff]).unwrap().as_repr(),
        0x7f
    );
}

#[test]
fn hotbar_parameters_travel_behind_their_discriminant() {
    // the size stands behind the constant 4
    assert_eq!(bytes_of(&HotbarParam::Size(9)), vec![0, 0, 0, 4, 0, 0, 0, 9]);
    assert_eq!(bytes_of(&HotbarParam::Image("a".into())), vec![0, 1, 0, 1, b'a']);
    assert_eq!(bytes_of(&HotbarParam::SelectionImage("b".into())), vec![0, 2, 0, 1, b'b']);
    assert_eq!(
        value_of::<HotbarParam>(&[0, 0, 0, 4, 0, 0, 0, 9]).unwrap(),
        HotbarParam::Size(9)
    );
    assert_eq!(
        value_of::<HotbarParam>(&[0, 2, 0, 1, b'b']).unwrap(),
        HotbarParam::SelectionImage("b".into())
    );
}

#[test]
fn hotbar_size_needs_its_constant() {
    assert!(matches!(
        value_of::<HotbarParam>(&[0, 0, 0, 8, 0, 0, 0, 9]),
        Err(DeserializeError::InvalidConst(Raw::U16(4), Raw::U16(8)))
    ));
    assert!(matches!(
        value_of::<HotbarParam>(&[0, 3]),
        Err(DeserializeError::InvalidEnum("HotbarParam", Raw::U16(3)))
    ));
}

#[test]
fn string_tags_are_written_and_found() {
    let mut w = Vec::new();
    write_str_discr("JoinModChan", &mut w).unwrap();
    assert_eq!(w, [&[0, 13][..], b"join_mod_chan"].concat());
    let idents = ["Nil", "JoinModChan", "LeaveModChan"];
    assert_eq!(find_str_variant(&idents, "join_mod_chan"), Some(1));
    assert_eq!(find_str_variant(&idents, "nil"), Some(0));
    assert_eq!(find_str_variant(&idents, "JoinModChan"), None);
    assert_eq!(find_str_variant(&[], "nil"), None);
    match invalid_str_enum("Thing", "what".to_string()) {
        DeserializeError::InvalidEnum(name, raw) => {
            assert_eq!(name, "Thing");
            assert!(raw.same(&Raw::Str("what".into())));
        }
        other => panic!("{:?}", other),
    }
}
