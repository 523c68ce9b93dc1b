use mt_ser::flags::EnumSet;
use mt_ser::remote::{
    RemoteAabb2, RemoteAabb3, RemoteDeg, RemoteEuler, RemotePoint1, RemotePoint2, RemotePoint3,
    RemoteRad, RemoteRange, RemoteRangeFrom, RemoteRangeFull, RemoteRangeInclusive, RemoteRangeTo,
    RemoteRangeToInclusive, RemoteVector1, RemoteVector2, RemoteVector3, RemoteVector4,
};
use mt_ser::to_clt::hud::{HudChange, HudElement, HudStyleFlag, HudType};
use mt_ser::pipeline::MtArgs;
use mt_ser::transform::{
    deserialize_field_mapped, deserialize_field_mapped_scaled, deserialize_field_scaled,
    deserialize_mapped, deserialize_scaled, serialize_field_mapped, serialize_field_scaled,
    serialize_field_scaled_mapped, serialize_mapped, serialize_scaled,
};
use mt_ser::{
    def_cfg, DeserializeError, Double, LenWidth, MtCfg, MtDeserialize, MtSerialize, Raw,
    SerializeError, Single, WrapRead,
};

fn bytes_of<T: MtSerialize>(item: &T) -> Vec<u8> {
    let mut writer = Vec::new();
    item.mt_serialize(def_cfg(), &mut writer).unwrap();
    writer
}

fn value_of<T: MtDeserialize>(bytes: &[u8]) -> Result<T, DeserializeError> {
    let mut reader = WrapRead::new(bytes);
    T::mt_deserialize(def_cfg(), &mut reader)
}

#[test]
fn floating_point_numbers_travel_by_their_bits() {
    let one = Single(1.0f32.to_bits());
    assert_eq!(bytes_of(&one), vec![0x3f, 0x80, 0, 0]);
    assert_eq!(value_of::<Single>(&[0x3f, 0x80, 0, 0]).unwrap(), one);
    let minus = Single((-2.5f32).to_bits());
    assert_eq!(bytes_of(&minus), vec![0xc0, 0x20, 0, 0]);
    let d = Double(1.0f64.to_bits());
    assert_eq!(bytes_of(&d), vec![0x3f, 0xf0, 0, 0, 0, 0, 0, 0]);
    assert_eq!(value_of::<Double>(&bytes_of(&d)).unwrap(), d);
    // every pattern of bits is kept, the ones that are no number too
    let nan = Single(0x7fc0_0001);
    assert_eq!(value_of::<Single>(&bytes_of(&nan)).unwrap(), nan);
    assert!(matches!(value_of::<Single>(&[0, 0, 0]), Err(DeserializeError::UnexpectedEof)));
    assert!(matches!(value_of::<Double>(&[0; 7]), Err(DeserializeError::UnexpectedEof)));
}

fn element() -> HudElement {
    let s = |v: f32| Single(v.to_bits());
    HudElement {
        hud_type: HudType::Text,
        pos: [s(0.5), s(0.25)],
        name: "n".into(),
        scale: [s(1.0), s(1.0)],
        text: "t".into(),
        number: 1,
        item: 2,
        dir: 3,
        align: [s(0.0), s(0.0)],
        offset: [s(-1.0), s(1.0)],
        world_pos: [s(1.0), s(2.0), s(3.0)],
        z_index: -1,
        text_2: String::new(),
        style: EnumSet::<HudStyleFlag>::empty().with(&HudStyleFlag::Italic),
    }
}

#[test]
fn hud_element_round_trip() {
    let e = element();
    let bytes = bytes_of(&e);
    assert_eq!(bytes.len(), 1 + 8 + 3 + 8 + 3 + 12 + 8 + 8 + 12 + 4 + 2 + 4);
    assert_eq!(&bytes[..9], &[1, 0x3f, 0, 0, 0, 0x3e, 0x80, 0, 0]);
    assert_eq!(&bytes[bytes.len() - 4..], &[0, 0, 0, 2]);
    assert_eq!(value_of::<HudElement>(&bytes).unwrap(), e);
    assert!(matches!(
        value_of::<HudElement>(&bytes[..bytes.len() - 1]),
        Err(DeserializeError::UnexpectedEof)
    ));
    let mut wrong = bytes.clone();
    wrong[0] = 6;
    assert!(matches!(
        value_of::<HudElement>(&wrong),
        Err(DeserializeError::InvalidEnum("HudType", mt_ser::Raw::U8(6)))
    ));
}

#[test]
fn hud_changes_travel_at_their_discriminants() {
    let s = |v: f32| Single(v.to_bits());
    let changes = vec![
        HudChange::Pos([s(1.0), s(2.0)]),
        HudChange::Name("a".into()),
        HudChange::Scale([s(1.0), s(2.0)]),
        HudChange::Text("b".into()),
        HudChange::Number(4),
        HudChange::Item(5),
        HudChange::Dir(6),
        HudChange::Align([s(1.0), s(2.0)]),
        HudChange::Offset([s(1.0), s(2.0)]),
        HudChange::WorldPos([s(1.0), s(2.0), s(3.0)]),
        HudChange::ZIndex(-3),
        HudChange::Text2("c".into()),
        HudChange::Style(EnumSet::from_repr_truncated(5)),
    ];
    for (i, c) in changes.into_iter().enumerate() {
        let bytes = bytes_of(&c);
        assert_eq!(bytes[0] as usize, i);
        assert_eq!(value_of::<HudChange>(&bytes).unwrap(), c);
    }
    assert_eq!(bytes_of(&HudChange::ZIndex(-3)), vec![10, 0xff, 0xff, 0xff, 0xfd]);
    assert_eq!(bytes_of(&HudChange::Style(EnumSet::from_repr_truncated(5))), vec![12, 0, 0, 0, 5]);
    assert!(matches!(
        value_of::<HudChange>(&[13]),
        Err(DeserializeError::InvalidEnum("HudChange", mt_ser::Raw::U8(13)))
    ));
}

#[test]
fn a_change_sets_one_property() {
    let s = |v: f32| Single(v.to_bits());
    let mut e = element();
    e.apply_change(HudChange::Name("new".into()));
    assert_eq!(e, HudElement { name: "new".into(), ..element() });
    let mut e = element();
    e.apply_change(HudChange::Pos([s(9.0), s(8.0)]));
    assert_eq!(e, HudElement { pos: [s(9.0), s(8.0)], ..element() });
    let mut e = element();
    e.apply_change(HudChange::Scale([s(9.0), s(8.0)]));
    assert_eq!(e, HudElement { scale: [s(9.0), s(8.0)], ..element() });
    let mut e = element();
    e.apply_change(HudChange::Text("x".into()));
    assert_eq!(e, HudElement { text: "x".into(), ..element() });
    let mut e = element();
    e.apply_change(HudChange::Number(77));
    assert_eq!(e, HudElement { number: 77, ..element() });
    let mut e = element();
    e.apply_change(HudChange::Item(77));
    assert_eq!(e, HudElement { item: 77, ..element() });
    let mut e = element();
    e.apply_change(HudChange::Dir(77));
    assert_eq!(e, HudElement { dir: 77, ..element() });
    let mut e = element();
    e.apply_change(HudChange::Align([s(9.0), s(8.0)]));
    assert_eq!(e, HudElement { align: [s(9.0), s(8.0)], ..element() });
    let mut e = element();
    e.apply_change(HudChange::Offset([s(9.0), s(8.0)]));
    assert_eq!(e, HudElement { offset: [s(9.0), s(8.0)], ..element() });
    let mut e = element();
    e.apply_change(HudChange::WorldPos([s(9.0), s(8.0), s(7.0)]));
    assert_eq!(e, HudElement { world_pos: [s(9.0), s(8.0), s(7.0)], ..element() });
    let mut e = element();
    e.apply_change(HudChange::ZIndex(5));
    assert_eq!(e, HudElement { z_index: 5, ..element() });
    let mut e = element();
    e.apply_change(HudChange::Text2("y".into()));
    assert_eq!(e, HudElement { text_2: "y".into(), ..element() });
    let mut e = element();
    e.apply_change(HudChange::Style(EnumSet::from_repr_truncated(7)));
    assert_eq!(e, HudElement { style: EnumSet::from_repr_truncated(7), ..element() });
}

#[test]
fn layouts_travel_field_by_field() {
    assert_eq!(bytes_of(&RemoteRange { start: 1u8, end: 2u8 }), vec![1, 2]);
    assert_eq!(bytes_of(&RemoteRangeFrom { start: 1u16 }), vec![0, 1]);
    assert_eq!(bytes_of(&RemoteRangeFull), Vec::<u8>::new());
    assert_eq!(bytes_of(&RemoteRangeInclusive { start: 1u8, end: 2u8 }), vec![1, 2]);
    assert_eq!(bytes_of(&RemoteRangeTo { end: 2u8 }), vec![2]);
    assert_eq!(bytes_of(&RemoteRangeToInclusive { end: 2u8 }), vec![2]);
    assert_eq!(bytes_of(&RemoteVector1 { x: 1u8 }), vec![1]);
    assert_eq!(bytes_of(&RemoteVector2 { x: 1u8, y: 2u8 }), vec![1, 2]);
    assert_eq!(bytes_of(&RemoteVector3 { x: 1u8, y: 2u8, z: 3u8 }), vec![1, 2, 3]);
    assert_eq!(bytes_of(&RemoteVector4 { x: 1u8, y: 2u8, z: 3u8, w: 4u8 }), vec![1, 2, 3, 4]);
    assert_eq!(bytes_of(&RemotePoint1 { x: 1i16 }), vec![0, 1]);
    assert_eq!(bytes_of(&RemotePoint2 { x: 1i16, y: -1i16 }), vec![0, 1, 0xff, 0xff]);
    assert_eq!(bytes_of(&RemotePoint3 { x: 1u8, y: 2u8, z: 3u8 }), vec![1, 2, 3]);
    assert_eq!(bytes_of(&RemoteDeg(90u16)), vec![0, 90]);
    assert_eq!(bytes_of(&RemoteRad(Single(0))), vec![0, 0, 0, 0]);
    assert_eq!(bytes_of(&RemoteEuler { x: 1u8, y: 2u8, z: 3u8 }), vec![1, 2, 3]);
    assert_eq!(
        bytes_of(&RemoteAabb2 {
            min: RemotePoint2 { x: 1u8, y: 2u8 },
            max: RemotePoint2 { x: 3u8, y: 4u8 }
        }),
        vec![1, 2, 3, 4]
    );
    assert_eq!(
        bytes_of(&RemoteAabb3 {
            min: RemotePoint3 { x: 1u8, y: 2u8, z: 3u8 },
            max: RemotePoint3 { x: 4u8, y: 5u8, z: 6u8 }
        }),
        vec![1, 2, 3, 4, 5, 6]
    );
}

#[test]
fn layouts_read_back() {
    assert_eq!(
        value_of::<RemoteRange<u16>>(&[0, 1, 0, 2]).unwrap(),
        RemoteRange { start: 1, end: 2 }
    );
    assert_eq!(value_of::<RemoteRangeFull>(&[]).unwrap(), RemoteRangeFull);
    assert_eq!(
        value_of::<RemoteVector3<i16>>(&[0, 1, 0xff, 0xff, 0, 3]).unwrap(),
        RemoteVector3 { x: 1, y: -1, z: 3 }
    );
    assert_eq!(value_of::<RemoteDeg<u8>>(&[7]).unwrap(), RemoteDeg(7));
    assert_eq!(value_of::<RemoteRad<u8>>(&[7]).unwrap(), RemoteRad(7));
    assert_eq!(
        value_of::<RemoteAabb3<u8>>(&[1, 2, 3, 4, 5, 6]).unwrap(),
        RemoteAabb3 {
            min: RemotePoint3 { x: 1, y: 2, z: 3 },
            max: RemotePoint3 { x: 4, y: 5, z: 6 }
        }
    );
    assert!(matches!(
        value_of::<RemoteAabb2<u8>>(&[1, 2, 3]),
        Err(DeserializeError::UnexpectedEof)
    ));
    // the fields take the default configuration
    let v = RemoteVector2 { x: vec![1u8], y: vec![2u8, 3u8] };
    let mut w = Vec::new();
    v.mt_serialize(MtCfg::len8(), &mut w).unwrap();
    assert_eq!(w, vec![0, 1, 1, 0, 2, 2, 3]);
    assert_eq!(value_of::<RemoteVector2<Vec<u8>>>(&w).unwrap(), v);
    assert_eq!(value_of::<RemoteRangeTo<u8>>(&[9]).unwrap(), RemoteRangeTo { end: 9 });
    assert_eq!(
        value_of::<RemoteRangeToInclusive<u8>>(&[9]).unwrap(),
        RemoteRangeToInclusive { end: 9 }
    );
    assert_eq!(value_of::<RemoteRangeFrom<u8>>(&[9]).unwrap(), RemoteRangeFrom { start: 9 });
    assert_eq!(
        value_of::<RemoteRangeInclusive<u8>>(&[8, 9]).unwrap(),
        RemoteRangeInclusive { start: 8, end: 9 }
    );
    assert_eq!(value_of::<RemoteVector1<u8>>(&[9]).unwrap(), RemoteVector1 { x: 9 });
    assert_eq!(
        value_of::<RemoteVector4<u8>>(&[1, 2, 3, 4]).unwrap(),
        RemoteVector4 { x: 1, y: 2, z: 3, w: 4 }
    );
    assert_eq!(value_of::<RemotePoint1<u8>>(&[9]).unwrap(), RemotePoint1 { x: 9 });
    assert_eq!(value_of::<RemotePoint2<u8>>(&[8, 9]).unwrap(), RemotePoint2 { x: 8, y: 9 });
    assert_eq!(
        value_of::<RemoteEuler<u8>>(&[1, 2, 3]).unwrap(),
        RemoteEuler { x: 1, y: 2, z: 3 }
    );
}

#[test]
fn scaling_multiplies_before_and_divides_after() {
    let mut w = Vec::new();
    serialize_scaled(12i32, 100i32, def_cfg(), &mut w).unwrap();
    assert_eq!(w, vec![0, 0, 0x04, 0xb0]);
    let mut reader = WrapRead::new(&w);
    let v: i32 = deserialize_scaled(100i32, def_cfg(), &mut reader).unwrap();
    assert_eq!(v, 12);
    let bytes = [0u8, 0, 0x04, 0xb1];
    let mut reader = WrapRead::new(&bytes);
    let v: i32 = deserialize_scaled(100i32, def_cfg(), &mut reader).unwrap();
    assert_eq!(v, 12);
    let mut reader = WrapRead::new(&bytes[..3]);
    assert!(matches!(
        deserialize_scaled::<i32, i32>(100, def_cfg(), &mut reader),
        Err(DeserializeError::UnexpectedEof)
    ));
}

#[test]
fn mapping_stands_before_and_after_the_codec() {
    let upper = |s: &str| -> Result<String, SerializeError> { Ok(s.to_uppercase()) };
    let mut w = Vec::new();
    serialize_mapped(upper, "ab", def_cfg(), &mut w).unwrap();
    assert_eq!(w, vec![0, 2, b'A', b'B']);
    let mut reader = WrapRead::new(&w);
    let len = |s: String| -> Result<usize, DeserializeError> { Ok(s.len()) };
    assert_eq!(deserialize_mapped(len, def_cfg(), &mut reader).unwrap(), 2);
}

#[test]
fn a_mapping_that_fails_gives_its_message() {
    let refuse = |_: u8| -> Result<u8, SerializeError> { Err(SerializeError::Other("no".into())) };
    let mut w = vec![1u8];
    match serialize_mapped(refuse, 3u8, def_cfg(), &mut w) {
        Err(SerializeError::Other(m)) => assert_eq!(m, "no"),
        other => panic!("{:?}", other),
    }
    assert_eq!(w, vec![1]);
    let odd = |v: u8| -> Result<u8, DeserializeError> {
        if v % 2 == 1 {
            Ok(v)
        } else {
            Err(DeserializeError::Other("even".into()))
        }
    };
    let bytes = [3u8, 4];
    let mut reader = WrapRead::new(&bytes);
    assert_eq!(deserialize_mapped(odd, def_cfg(), &mut reader).unwrap(), 3);
    match deserialize_mapped(odd, def_cfg(), &mut reader) {
        Err(DeserializeError::Other(m)) => assert_eq!(m, "even"),
        other => panic!("{:?}", other),
    }
    // where reading fails, the mapping is not asked
    assert!(matches!(
        deserialize_mapped(odd, def_cfg(), &mut reader),
        Err(DeserializeError::UnexpectedEof)
    ));
}

fn framed_between_constants<'a>() -> MtArgs<'a> {
    MtArgs {
        const_before: vec![Raw::U8(9)],
        const_after: vec![Raw::U8(8)],
        size: Some(LenWidth::W8),
        len: def_cfg(),
        zlib: false,
        zstd: false,
    }
}

#[test]
fn scaled_field_stands_inside_its_modifiers() {
    let a = framed_between_constants();
    let mut w = Vec::new();
    serialize_field_scaled(12i16, 100i16, &a, &mut w).unwrap();
    assert_eq!(w, vec![9, 2, 0x04, 0xb0, 8]);
    let mut reader = WrapRead::new(&w);
    let v: i16 = deserialize_field_scaled(100i16, &a, &mut reader, None).unwrap();
    assert_eq!(v, 12);
    assert_eq!(reader.remaining(), 0);
    // the fallback is divided like a value that was read
    let plain = MtArgs::plain(def_cfg());
    let mut reader = WrapRead::new(&[]);
    let v: i16 = deserialize_field_scaled(100i16, &plain, &mut reader, Some(700)).unwrap();
    assert_eq!(v, 7);
    // a wrong constant is found before anything is divided
    let mut reader = WrapRead::new(&[7, 2, 0x04, 0xb0, 8]);
    assert!(matches!(
        deserialize_field_scaled::<i16, i16>(100, &a, &mut reader, None),
        Err(DeserializeError::InvalidConst(_, _))
    ));
}

#[test]
fn mapped_field_stands_inside_its_modifiers() {
    let a = framed_between_constants();
    let upper = |s: &str| -> Result<String, SerializeError> { Ok(s.to_uppercase()) };
    let mut w = Vec::new();
    serialize_field_mapped(upper, "ab", &a, &mut w).unwrap();
    assert_eq!(w, vec![9, 4, 0, 2, b'A', b'B', 8]);
    let len = |s: String| -> Result<usize, DeserializeError> { Ok(s.len()) };
    let mut reader = WrapRead::new(&w);
    assert_eq!(deserialize_field_mapped(len, &a, &mut reader, None).unwrap(), 2);
    // a mapping that fails writes nothing, not even the constant before
    let refuse = |_: u8| -> Result<u8, SerializeError> { Err(SerializeError::Other("no".into())) };
    let mut w = vec![1u8];
    match serialize_field_mapped(refuse, 3u8, &a, &mut w) {
        Err(SerializeError::Other(m)) => assert_eq!(m, "no"),
        other => panic!("{:?}", other),
    }
    assert_eq!(w, vec![1]);
}

#[test]
fn scaling_comes_first_on_the_way_out_and_last_on_the_way_in() {
    let a = framed_between_constants();
    // 3 times 10 is 30; the mapping adds one; 31 is written
    let succ = |v: u8| -> Result<u8, SerializeError> { Ok(v + 1) };
    let mut w = Vec::new();
    serialize_field_scaled_mapped(3u8, 10u8, succ, &a, &mut w).unwrap();
    assert_eq!(w, vec![9, 1, 31, 8]);
    // 31 is read; the mapping takes one off; 30 by 10 is 3
    let pred = |v: u8| -> Result<u8, DeserializeError> { Ok(v - 1) };
    let mut reader = WrapRead::new(&w);
    let v: u8 = deserialize_field_mapped_scaled(pred, 10u8, &a, &mut reader, None).unwrap();
    assert_eq!(v, 3);
    let fail = |_: u8| -> Result<u8, DeserializeError> { Err(DeserializeError::Other("x".into())) };
    let mut reader = WrapRead::new(&w);
    match deserialize_field_mapped_scaled(fail, 10u8, &a, &mut reader, None) {
        Err(DeserializeError::Other(m)) => assert_eq!(m, "x"),
        other => panic!("{:?}", other),
    }
}
