use mt_ser::text::encode_utf16;
use mt_ser::{
    def_cfg, DeserializeError, MtCfg, MtDeserialize, MtSerialize, SerializeError, Utf16, WrapRead,
};

fn bytes_of<T: MtSerialize>(cfg: MtCfg, item: &T) -> Vec<u8> {
    let mut writer = Vec::new();
    item.mt_serialize(cfg, &mut writer).unwrap();
    writer
}

fn text_of(cfg: MtCfg, bytes: &[u8]) -> Result<String, DeserializeError> {
    let mut reader = WrapRead::new(bytes);
    String::mt_deserialize(cfg, &mut reader)
}

#[test]
fn utf8_text_is_length_in_bytes_then_bytes() {
    assert_eq!(bytes_of(def_cfg(), &"hi"), vec![0, 2, b'h', b'i']);
    assert_eq!(bytes_of(def_cfg(), &"µ".to_string()), vec![0, 2, 0xc2, 0xb5]);
    assert_eq!(bytes_of(MtCfg::len8(), &"私"), vec![3, 0xe7, 0xa7, 0x81]);
    assert_eq!(bytes_of(MtCfg::no_len(), &"hi"), vec![b'h', b'i']);
    assert_eq!(bytes_of(def_cfg(), &""), vec![0, 0]);
}

#[test]
fn utf8_text_reads_back() {
    assert_eq!(text_of(def_cfg(), &[0, 2, b'h', b'i']).unwrap(), "hi");
    assert_eq!(text_of(MtCfg::len8(), &[3, 0xe7, 0xa7, 0x81]).unwrap(), "私");
    assert_eq!(text_of(MtCfg::no_len(), &[b'h', b'i']).unwrap(), "hi");
    let bytes = [0u8, 1, b'a', b'b'];
    let mut reader = WrapRead::new(&bytes);
    assert_eq!(String::mt_deserialize(def_cfg(), &mut reader).unwrap(), "a");
    assert_eq!(reader.remaining(), 1);
}

#[test]
fn utf8_text_shorter_than_its_length_fails() {
    // the length says five bytes, two are there
    let bytes = [0u8, 5, b'h', b'i'];
    let mut reader = WrapRead::new(&bytes);
    assert!(matches!(
        String::mt_deserialize(def_cfg(), &mut reader),
        Err(DeserializeError::UnexpectedEof)
    ));
    assert_eq!(reader.remaining(), 0);
    // the length says ten bytes, five are there
    assert!(matches!(
        text_of(def_cfg(), &[0, 10, b'h', b'e', b'l', b'l', b'o']),
        Err(DeserializeError::UnexpectedEof)
    ));
    // all five are there
    assert_eq!(text_of(def_cfg(), &[0, 5, b'h', b'e', b'l', b'l', b'o']).unwrap(), "hello");
}

#[test]
fn utf8_text_with_the_largest_length_and_no_bytes_fails() {
    assert!(text_of(MtCfg::len64(), &[0xff; 8]).is_err());
    assert!(matches!(
        text_of(MtCfg::len32(), &[0xff; 4]),
        Err(DeserializeError::UnexpectedEof)
    ));
}

#[test]
fn utf8_text_without_a_length_takes_all_that_is_left() {
    assert_eq!(text_of(MtCfg::no_len(), &[]).unwrap(), "");
    let bytes = [b'a', b'b', b'c'];
    let mut reader = WrapRead::new(&bytes);
    assert_eq!(String::mt_deserialize(MtCfg::no_len(), &mut reader).unwrap(), "abc");
    assert_eq!(reader.remaining(), 0);
}

#[test]
fn invalid_utf8_is_an_io_error() {
    assert!(matches!(
        text_of(def_cfg(), &[0, 1, 0xff]),
        Err(DeserializeError::IoError(_))
    ));
    // a character cut in two
    assert!(matches!(
        text_of(def_cfg(), &[0, 1, 0xc2]),
        Err(DeserializeError::IoError(_))
    ));
}

#[test]
fn text_too_long_for_its_length_is_too_big() {
    let long = "a".repeat(256);
    let mut sink = vec![7u8];
    assert!(matches!(
        long.mt_serialize(MtCfg::len8(), &mut sink),
        Err(SerializeError::TooBig(_))
    ));
    // nothing was written
    assert_eq!(sink, vec![7]);
    assert!(matches!(
        long.as_str().mt_serialize(MtCfg::len8(), &mut sink),
        Err(SerializeError::TooBig(_))
    ));
    assert_eq!(sink, vec![7]);
    assert!("a".repeat(255).mt_serialize(MtCfg::len8(), &mut Vec::new()).is_ok());
    // two code units for one character: 128 of them are 256 units
    let wide = "😀".repeat(128);
    assert!(matches!(
        wide.mt_serialize(Utf16(MtCfg::len8()).cfg(), &mut Vec::new()),
        Err(SerializeError::TooBig(_))
    ));
}

#[test]
fn utf16_units_of_characters() {
    assert_eq!(encode_utf16("a"), vec![0x61]);
    assert_eq!(encode_utf16("私"), vec![0x79c1]);
    assert_eq!(encode_utf16("😀"), vec![0xd83d, 0xde00]);
    assert_eq!(encode_utf16("\u{10000}"), vec![0xd800, 0xdc00]);
    assert_eq!(encode_utf16("\u{10ffff}"), vec![0xdbff, 0xdfff]);
    assert_eq!(encode_utf16("\u{ffff}"), vec![0xffff]);
    assert_eq!(encode_utf16(""), Vec::<u16>::new());
}

#[test]
fn utf16_text_is_length_in_units_then_units() {
    let cfg = Utf16(def_cfg()).cfg();
    assert_eq!(bytes_of(cfg, &"a😀"), vec![0, 3, 0, 0x61, 0xd8, 0x3d, 0xde, 0x00]);
    assert_eq!(
        bytes_of(Utf16(MtCfg::len32()).cfg(), &"µ"),
        vec![0, 0, 0, 1, 0x00, 0xb5]
    );
    assert_eq!(bytes_of(Utf16(MtCfg::no_len()).cfg(), &"µ"), vec![0x00, 0xb5]);
}

#[test]
fn utf16_text_reads_back() {
    let cfg = Utf16(def_cfg()).cfg();
    assert_eq!(text_of(cfg, &[0, 3, 0, 0x61, 0xd8, 0x3d, 0xde, 0x00]).unwrap(), "a😀");
    let st = "µ ß 私 😀\n";
    for c in [Utf16(MtCfg::len8()).cfg(), cfg, Utf16(MtCfg::no_len()).cfg()] {
        assert_eq!(text_of(c, &bytes_of(c, &st)).unwrap(), st);
    }
    assert_eq!(text_of(Utf16(MtCfg::no_len()).cfg(), &[0, 0x61, 0]).unwrap(), "a");
}

#[test]
fn lone_trailing_surrogate_is_invalid() {
    let cfg = Utf16(def_cfg()).cfg();
    assert!(matches!(
        text_of(cfg, &[0, 1, 0xdc, 0x00]),
        Err(DeserializeError::InvalidUtf16(0xdc00))
    ));
    assert!(matches!(
        text_of(cfg, &[0, 2, 0x00, 0x61, 0xdf, 0xff]),
        Err(DeserializeError::InvalidUtf16(0xdfff))
    ));
}

#[test]
fn leading_surrogate_needs_its_partner() {
    let cfg = Utf16(def_cfg()).cfg();
    // followed by a plain unit
    assert!(matches!(
        text_of(cfg, &[0, 2, 0xd8, 0x3d, 0x00, 0x61]),
        Err(DeserializeError::InvalidUtf16(0xd83d))
    ));
    // the last unit of the text
    assert!(matches!(
        text_of(cfg, &[0, 1, 0xd8, 0x3d]),
        Err(DeserializeError::InvalidUtf16(0xd83d))
    ));
    // followed by another leading surrogate
    assert!(matches!(
        text_of(cfg, &[0, 2, 0xd8, 0x3d, 0xd8, 0x3d]),
        Err(DeserializeError::InvalidUtf16(0xd83d))
    ));
    // the input ends where no length says how many units there are
    assert!(matches!(
        text_of(Utf16(MtCfg::no_len()).cfg(), &[0xd8, 0x3d]),
        Err(DeserializeError::InvalidUtf16(0xd83d))
    ));
}

#[test]
fn counted_utf16_text_must_be_complete() {
    let cfg = Utf16(def_cfg()).cfg();
    assert!(matches!(
        text_of(cfg, &[0, 2, 0x00, 0x61]),
        Err(DeserializeError::UnexpectedEof)
    ));
    // a missing partner is the end of the input first
    assert!(matches!(
        text_of(cfg, &[0, 2, 0xd8, 0x3d]),
        Err(DeserializeError::UnexpectedEof)
    ));
    assert!(matches!(text_of(cfg, &[0]), Err(DeserializeError::UnexpectedEof)));
}

#[test]
fn a_surrogate_fault_stops_the_reading() {
    let bytes = [0u8, 3, 0xdc, 0x00, 0x00, 0x61, 0x00, 0x62];
    let mut reader = WrapRead::new(&bytes);
    assert!(String::mt_deserialize(Utf16(def_cfg()).cfg(), &mut reader).is_err());
    // the length and the faulty unit are used, the rest is not
    assert_eq!(reader.remaining(), 4);
}
