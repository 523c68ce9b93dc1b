use mt_ser::{
    def_cfg, DeserializeError, LenWidth, MtCfg, MtDeserialize, MtLen, MtSerialize, OrDefault,
    SerializeError, Utf16, WrapRead,
};

fn bytes_of<T: MtSerialize>(cfg: MtCfg, item: &T) -> Vec<u8> {
    let mut writer = Vec::new();
    item.mt_serialize(cfg, &mut writer).unwrap();
    writer
}

fn value_of<T: MtDeserialize>(cfg: MtCfg, bytes: &[u8]) -> Result<T, DeserializeError> {
    let mut reader = WrapRead::new(bytes);
    T::mt_deserialize(cfg, &mut reader)
}

#[test]
fn unsigned_numbers_are_big_endian() {
    assert_eq!(bytes_of(def_cfg(), &0x12u8), vec![0x12]);
    assert_eq!(bytes_of(def_cfg(), &517u16), vec![0x02, 0x05]);
    assert_eq!(bytes_of(def_cfg(), &0x0102_0304u32), vec![1, 2, 3, 4]);
    assert_eq!(
        bytes_of(def_cfg(), &0x0102_0304_0506_0708u64),
        vec![1, 2, 3, 4, 5, 6, 7, 8]
    );
}

#[test]
fn signed_numbers_are_twos_complement() {
    assert_eq!(bytes_of(def_cfg(), &-1i8), vec![0xff]);
    assert_eq!(bytes_of(def_cfg(), &193i16), vec![0x00, 0xc1]);
    assert_eq!(bytes_of(def_cfg(), &-132i16), vec![0xff, 0x7c]);
    assert_eq!(bytes_of(def_cfg(), &-2i32), vec![0xff, 0xff, 0xff, 0xfe]);
    assert_eq!(bytes_of(def_cfg(), &i64::MIN), vec![0x80, 0, 0, 0, 0, 0, 0, 0]);
}

#[test]
fn numbers_read_back() {
    assert_eq!(value_of::<u8>(def_cfg(), &[0x12]).unwrap(), 0x12);
    assert_eq!(value_of::<u16>(def_cfg(), &[0x02, 0x05]).unwrap(), 517);
    assert_eq!(value_of::<i16>(def_cfg(), &[0xff, 0x7c]).unwrap(), -132);
    assert_eq!(value_of::<u32>(def_cfg(), &[1, 2, 3, 4]).unwrap(), 0x0102_0304);
    assert_eq!(value_of::<i32>(def_cfg(), &[0xff, 0xff, 0xff, 0xfe]).unwrap(), -2);
    assert_eq!(
        value_of::<u64>(def_cfg(), &[1, 2, 3, 4, 5, 6, 7, 8]).unwrap(),
        0x0102_0304_0506_0708
    );
    assert_eq!(value_of::<i64>(def_cfg(), &[0x80, 0, 0, 0, 0, 0, 0, 0]).unwrap(), i64::MIN);
    assert_eq!(value_of::<i8>(def_cfg(), &[0x80]).unwrap(), -128);
}

#[test]
fn numbers_ignore_the_configuration() {
    assert_eq!(bytes_of(MtCfg::no_len(), &517u16), vec![0x02, 0x05]);
    assert_eq!(bytes_of(Utf16(MtCfg::len8()).cfg(), &517u16), vec![0x02, 0x05]);
    assert_eq!(value_of::<u16>(MtCfg::len64(), &[0x02, 0x05]).unwrap(), 517);
}

#[test]
fn a_short_number_is_unexpected_eof() {
    assert!(matches!(
        value_of::<u32>(def_cfg(), &[1, 2, 3]),
        Err(DeserializeError::UnexpectedEof)
    ));
    assert!(matches!(value_of::<u8>(def_cfg(), &[]), Err(DeserializeError::UnexpectedEof)));
}

#[test]
fn a_failed_read_drains_the_source() {
    let bytes = [1u8, 2, 3];
    let mut reader = WrapRead::new(&bytes);
    assert!(u32::mt_deserialize(def_cfg(), &mut reader).is_err());
    assert_eq!(reader.remaining(), 0);
}

#[test]
fn bool_is_one_byte() {
    assert_eq!(bytes_of(def_cfg(), &true), vec![1]);
    assert_eq!(bytes_of(def_cfg(), &false), vec![0]);
    assert_eq!(value_of::<bool>(def_cfg(), &[0]).unwrap(), false);
    assert_eq!(value_of::<bool>(def_cfg(), &[1]).unwrap(), true);
}

#[test]
fn every_byte_but_zero_reads_as_true() {
    assert_eq!(value_of::<bool>(def_cfg(), &[2]).unwrap(), true);
    assert_eq!(value_of::<bool>(def_cfg(), &[0xff]).unwrap(), true);
}

#[test]
fn unit_has_no_bytes() {
    assert_eq!(bytes_of(def_cfg(), &()), Vec::<u8>::new());
    let bytes = [7u8];
    let mut reader = WrapRead::new(&bytes);
    <()>::mt_deserialize(def_cfg(), &mut reader).unwrap();
    assert_eq!(reader.remaining(), 1);
}

#[test]
fn reader_reads_exactly() {
    let bytes = [1u8, 2, 3, 4, 5];
    let mut reader = WrapRead::new(&bytes);
    assert_eq!(reader.read_exact(2).unwrap(), &[1, 2]);
    assert_eq!(reader.read_u8().unwrap(), 3);
    assert_eq!(reader.remaining(), 2);
    assert!(matches!(reader.read_exact(3), Err(DeserializeError::UnexpectedEof)));
    assert_eq!(reader.remaining(), 0);
    assert!(matches!(reader.read_u8(), Err(DeserializeError::UnexpectedEof)));
}

#[test]
fn reader_take_does_not_move_the_reader() {
    let bytes = [1u8, 2, 3, 4, 5];
    let mut reader = WrapRead::new(&bytes);
    reader.advance(1);
    let mut sub = reader.take(2);
    assert_eq!(sub.read_to_end(), &[2, 3]);
    assert_eq!(reader.remaining(), 4);
    let mut all = reader.take(100);
    assert_eq!(all.read_to_end(), &[2, 3, 4, 5]);
    assert_eq!(reader.read_to_end(), &[2, 3, 4, 5]);
    assert_eq!(reader.remaining(), 0);
}

#[test]
fn length_is_written_in_its_width() {
    let mut w = Vec::new();
    MtCfg::len8().write_len(3, &mut w).unwrap();
    MtCfg::len16().write_len(3, &mut w).unwrap();
    MtCfg::len32().write_len(3, &mut w).unwrap();
    MtCfg::len64().write_len(3, &mut w).unwrap();
    MtCfg::no_len().write_len(3, &mut w).unwrap();
    assert_eq!(w, vec![3, 0, 3, 0, 0, 0, 3, 0, 0, 0, 0, 0, 0, 0, 3]);
}

#[test]
fn length_that_does_not_fit_is_too_big() {
    let mut w = vec![9u8];
    assert!(matches!(
        MtCfg::len8().write_len(256, &mut w),
        Err(SerializeError::TooBig(_))
    ));
    assert_eq!(w, vec![9]);
    assert!(MtCfg::len8().write_len(255, &mut w).is_ok());
    assert!(matches!(
        MtCfg::len16().write_len(65536, &mut w),
        Err(SerializeError::TooBig(_))
    ));
    assert!(MtCfg::len16().write_len(65535, &mut w).is_ok());
    assert!(MtCfg::no_len().write_len(usize::MAX, &mut w).is_ok());
}

#[test]
fn length_is_read_in_its_width() {
    let bytes = [3u8, 0, 4, 0, 0, 0, 5, 0, 0, 0, 0, 0, 0, 0, 6, 7];
    let mut reader = WrapRead::new(&bytes);
    assert_eq!(MtCfg::len8().read_len(&mut reader).unwrap(), MtLen::Exact(3));
    assert_eq!(MtCfg::len16().read_len(&mut reader).unwrap(), MtLen::Exact(4));
    assert_eq!(MtCfg::len32().read_len(&mut reader).unwrap(), MtLen::Exact(5));
    assert_eq!(MtCfg::len64().read_len(&mut reader).unwrap(), MtLen::Exact(6));
    assert_eq!(MtCfg::no_len().read_len(&mut reader).unwrap(), MtLen::Unbounded);
    assert_eq!(reader.remaining(), 1);
    assert!(matches!(
        MtCfg::len16().read_len(&mut reader),
        Err(DeserializeError::UnexpectedEof)
    ));
}

#[test]
fn length_knows_its_count() {
    assert_eq!(MtLen::Exact(4).option(), Some(4));
    assert_eq!(MtLen::Unbounded.option(), None);
    assert_eq!(MtLen::Exact(4).range(), 0..4);
    assert_eq!(MtLen::Unbounded.range(), 0..usize::MAX);
    let bytes = [1u8, 2, 3];
    let reader = WrapRead::new(&bytes);
    assert_eq!(MtLen::Exact(2).take(&reader).remaining(), 2);
    assert_eq!(MtLen::Exact(9).take(&reader).remaining(), 3);
    assert_eq!(MtLen::Unbounded.take(&reader).remaining(), 3);
}

#[test]
fn configurations_nest() {
    let d = def_cfg();
    assert_eq!(d.len, Some(LenWidth::W16));
    assert!(!d.utf16());
    assert_eq!(d.inner().len, Some(LenWidth::W16));
    assert_eq!(MtCfg::len8().inner().len, Some(LenWidth::W16));
    assert_eq!(MtCfg::no_len().len, None);
    let inner = MtCfg::len8();
    let pair = MtCfg::len32().pair(&inner);
    assert_eq!(pair.len, Some(LenWidth::W32));
    assert_eq!(pair.inner().len, Some(LenWidth::W8));
    assert_eq!(pair.inner().inner().len, Some(LenWidth::W16));
    let wide = Utf16(MtCfg::len32()).cfg();
    assert!(wide.utf16());
    assert_eq!(wide.len, Some(LenWidth::W32));
    // a pair does not ask for UTF-16, whatever its first part does
    assert!(!wide.pair(&inner).utf16());
    assert_eq!(LenWidth::W8.bytes(), 1);
    assert_eq!(LenWidth::W64.bytes(), 8);
    assert!(LenWidth::W8.can_hold(255));
    assert!(!LenWidth::W8.can_hold(256));
    assert!(LenWidth::W32.can_hold(0xffff_ffff));
    assert!(!LenWidth::W32.can_hold(0x1_0000_0000));
}

#[test]
fn or_default_takes_the_place_of_a_missing_value() {
    let missing: Result<u16, DeserializeError> = Err(DeserializeError::UnexpectedEof);
    assert_eq!(missing.or_default().unwrap(), 0);
    let there: Result<u16, DeserializeError> = Ok(7);
    assert_eq!(there.or_default().unwrap(), 7);
    let broken: Result<u16, DeserializeError> = Err(DeserializeError::InvalidUtf16(0xdc00));
    assert!(matches!(broken.or_default(), Err(DeserializeError::InvalidUtf16(0xdc00))));
    let flag: Result<bool, DeserializeError> = Err(DeserializeError::UnexpectedEof);
    assert_eq!(flag.or_default().unwrap(), false);
}

#[test]
fn io_errors_are_told_apart() {
    let eof = std::io::Error::new(std::io::ErrorKind::UnexpectedEof, "short");
    assert!(matches!(DeserializeError::from(eof), DeserializeError::UnexpectedEof));
    let other = std::io::Error::new(std::io::ErrorKind::InvalidInput, "bad");
    assert!(matches!(DeserializeError::from(other), DeserializeError::IoError(_)));
    let any = std::io::Error::new(std::io::ErrorKind::UnexpectedEof, "short");
    assert!(matches!(SerializeError::from(any), SerializeError::IoError(_)));
}
