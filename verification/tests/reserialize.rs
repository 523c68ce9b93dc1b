use mt_ser::{MtCfg, MtDeserialize, MtSerialize, SerializeError, Utf16, WrapRead};

fn reserialize<T: MtSerialize + MtDeserialize>(cfg: MtCfg, item: &T) -> T {
    let mut writer = Vec::new();
    item.mt_serialize(cfg, &mut writer).unwrap();

    let mut reader = WrapRead::new(&writer);
    T::mt_deserialize(cfg, &mut reader).unwrap()
}

#[test]
fn test_reserialize() {
    let vec = vec![1, 2, 3];
    // encoded with 8-bit length
    assert_eq!(vec, reserialize(MtCfg::len8(), &vec));

    let vec2 = vec![1, 2, 3];
    // encoded without length - drains the reader
    assert_eq!(vec2, reserialize(MtCfg::no_len(), &vec2));

    let st: String = "µ ß 私 😀\n".into();
    // encoded as UTF-16 with 32-bit length
    assert_eq!(st, reserialize(Utf16(MtCfg::len32()).cfg(), &st));

    let long: Vec<_> = (0..=256).collect();
    assert!(matches!(
        long.mt_serialize(MtCfg::len8(), &mut Vec::new()),
        Err(SerializeError::TooBig(_))
    ));
}
