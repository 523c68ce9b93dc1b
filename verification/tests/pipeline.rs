use mt_ser::literal::{read_const, read_consts, write_consts};
use mt_ser::pack::{pack, unpack};
use mt_ser::pipeline::{deserialize_field, serialize_args, serialize_field, MtArgs};
use mt_ser::{
    def_cfg, DeserializeError, LenWidth, MtCfg, MtDeserialize, MtSerialize, Raw, SerializeError,
    WrapRead,
};

fn args<'a>(size: Option<LenWidth>, zlib: bool, zstd: bool) -> MtArgs<'a> {
    MtArgs { const_before: vec![], const_after: vec![], size, len: def_cfg(), zlib, zstd }
}

#[test]
fn raw_values_are_written_under_the_default_configuration() {
    let mut w = Vec::new();
    Raw::U8(2).write(&mut w).unwrap();
    Raw::I8(-1).write(&mut w).unwrap();
    Raw::U16(1).write(&mut w).unwrap();
    Raw::I16(-2).write(&mut w).unwrap();
    Raw::U32(3).write(&mut w).unwrap();
    Raw::I32(-3).write(&mut w).unwrap();
    Raw::Bool(true).write(&mut w).unwrap();
    Raw::Str("ab".to_string()).write(&mut w).unwrap();
    assert_eq!(
        w,
        vec![2, 0xff, 0, 1, 0xff, 0xfe, 0, 0, 0, 3, 0xff, 0xff, 0xff, 0xfd, 1, 0, 2, b'a', b'b']
    );
    let mut w = Vec::new();
    Raw::U64(4).write(&mut w).unwrap();
    Raw::I64(-4).write(&mut w).unwrap();
    assert_eq!(w, vec![0, 0, 0, 0, 0, 0, 0, 4, 0xff, 0xff, 0xff, 0xff, 0xff, 0xff, 0xff, 0xfc]);
}

#[test]
fn raw_values_are_read_by_kind() {
    let bytes = [0u8, 7, 0xff, 0, 1, b'x', 1];
    let mut reader = WrapRead::new(&bytes);
    assert!(Raw::U16(0).read_like(&mut reader).unwrap().same(&Raw::U16(7)));
    assert!(Raw::I8(0).read_like(&mut reader).unwrap().same(&Raw::I8(-1)));
    assert!(Raw::Str(String::new()).read_like(&mut reader).unwrap().same(&Raw::Str("x".into())));
    assert!(Raw::Bool(false).read_like(&mut reader).unwrap().same(&Raw::Bool(true)));
    assert!(matches!(
        Raw::U8(0).read_like(&mut reader),
        Err(DeserializeError::UnexpectedEof)
    ));
}

#[test]
fn raw_values_compare_by_kind_and_content() {
    assert!(Raw::U8(1).same(&Raw::U8(1)));
    assert!(!Raw::U8(1).same(&Raw::U8(2)));
    assert!(!Raw::U8(1).same(&Raw::U16(1)));
    assert!(!Raw::U8(1).same(&Raw::I8(1)));
    assert!(Raw::Str("a".into()).same(&Raw::Str("a".into())));
    assert!(!Raw::Str("a".into()).same(&Raw::Str("b".into())));
    assert!(Raw::Str("a".into()).duplicate().same(&Raw::Str("a".into())));
    assert!(Raw::I64(-5).duplicate().same(&Raw::I64(-5)));
}

#[test]
fn constant_is_found() {
    let bytes = [0u8, 1, 9];
    let mut reader = WrapRead::new(&bytes);
    read_const(&Raw::U16(1), &mut reader).unwrap();
    assert_eq!(reader.remaining(), 1);
}

#[test]
fn constant_that_differs_carries_both_values() {
    let bytes = [0u8, 2, 9];
    let mut reader = WrapRead::new(&bytes);
    match read_const(&Raw::U16(1), &mut reader) {
        Err(DeserializeError::InvalidConst(want, got)) => {
            assert!(want.same(&Raw::U16(1)));
            assert!(got.same(&Raw::U16(2)));
        }
        other => panic!("{:?}", other),
    }
    assert_eq!(reader.remaining(), 1);
}

#[test]
fn constant_that_is_missing_is_unexpected_eof() {
    let bytes = [0u8];
    let mut reader = WrapRead::new(&bytes);
    assert!(matches!(
        read_const(&Raw::U16(1), &mut reader),
        Err(DeserializeError::UnexpectedEof)
    ));
}

#[test]
fn constants_are_checked_in_order() {
    let list = [Raw::U8(1), Raw::U16(2), Raw::U8(3)];
    let mut w = Vec::new();
    write_consts(&list, &mut w).unwrap();
    assert_eq!(w, vec![1, 0, 2, 3]);
    let mut reader = WrapRead::new(&w);
    read_consts(&list, &mut reader).unwrap();
    assert_eq!(reader.remaining(), 0);
    let wrong = [1u8, 0, 2, 4];
    let mut reader = WrapRead::new(&wrong);
    match read_consts(&list, &mut reader) {
        Err(DeserializeError::InvalidConst(want, got)) => {
            assert!(want.same(&Raw::U8(3)));
            assert!(got.same(&Raw::U8(4)));
        }
        other => panic!("{:?}", other),
    }
    let first = [2u8, 0, 2, 3];
    let mut reader = WrapRead::new(&first);
    assert!(matches!(
        read_consts(&list, &mut reader),
        Err(DeserializeError::InvalidConst(Raw::U8(1), Raw::U8(2)))
    ));
    assert_eq!(reader.remaining(), 3);
}

#[test]
fn text_constant_must_fit() {
    let long = [Raw::Str("a".repeat(65536))];
    assert!(matches!(
        write_consts(&long, &mut Vec::new()),
        Err(SerializeError::TooBig(_))
    ));
}

#[test]
fn field_without_modifiers_is_its_value() {
    let mut w = Vec::new();
    serialize_field(&517u16, &MtArgs::plain(def_cfg()), &mut w).unwrap();
    assert_eq!(w, vec![2, 5]);
    let mut reader = WrapRead::new(&w);
    let v: u16 = deserialize_field(&MtArgs::plain(def_cfg()), &mut reader, None).unwrap();
    assert_eq!(v, 517);
}

#[test]
fn field_takes_the_configuration_of_its_modifiers() {
    let v: Vec<u8> = vec![1, 2];
    let mut w = Vec::new();
    serialize_field(&v, &MtArgs::plain(MtCfg::len32()), &mut w).unwrap();
    assert_eq!(w, vec![0, 0, 0, 2, 1, 2]);
}

#[test]
fn modifiers_stand_in_their_order() {
    let a = MtArgs {
        const_before: vec![Raw::U8(0xa1), Raw::U8(0xa2)],
        const_after: vec![Raw::U8(0xb1), Raw::U8(0xb2)],
        size: Some(LenWidth::W16),
        len: def_cfg(),
        zlib: false,
        zstd: false,
    };
    let mut w = Vec::new();
    serialize_args(&a, vec![7, 8, 9], &mut w).unwrap();
    assert_eq!(w, vec![0xa1, 0xa2, 0, 3, 7, 8, 9, 0xb1, 0xb2]);
    let mut w = Vec::new();
    serialize_field(&0x0708u16, &a, &mut w).unwrap();
    assert_eq!(w, vec![0xa1, 0xa2, 0, 2, 7, 8, 0xb1, 0xb2]);
    let mut reader = WrapRead::new(&w);
    let v: u16 = deserialize_field(&a, &mut reader, None).unwrap();
    assert_eq!(v, 0x0708);
    assert_eq!(reader.remaining(), 0);
}

#[test]
fn wrong_constant_after_the_value_is_found() {
    let a = MtArgs {
        const_before: vec![],
        const_after: vec![Raw::U8(5)],
        size: None,
        len: def_cfg(),
        zlib: false,
        zstd: false,
    };
    let bytes = [1u8, 6];
    let mut reader = WrapRead::new(&bytes);
    assert!(matches!(
        deserialize_field::<u8>(&a, &mut reader, None),
        Err(DeserializeError::InvalidConst(Raw::U8(5), Raw::U8(6)))
    ));
}

#[test]
fn size_frame_is_size_then_bytes() {
    let mut w = Vec::new();
    serialize_field(&"ab", &MtArgs::sized(LenWidth::W32, def_cfg()), &mut w).unwrap();
    assert_eq!(w, vec![0, 0, 0, 4, 0, 2, b'a', b'b']);
    let mut w = Vec::new();
    serialize_field(&(), &MtArgs::sized(LenWidth::W8, def_cfg()), &mut w).unwrap();
    assert_eq!(w, vec![0]);
}

#[test]
fn size_frame_that_does_not_fit_is_too_big() {
    let body: Vec<u8> = vec![0; 254];
    // 254 bytes and their 16-bit length: 256 bytes
    assert!(matches!(
        serialize_field(&body, &MtArgs::sized(LenWidth::W8, def_cfg()), &mut Vec::new()),
        Err(SerializeError::TooBig(_))
    ));
    let body: Vec<u8> = vec![0; 253];
    assert!(serialize_field(&body, &MtArgs::sized(LenWidth::W8, def_cfg()), &mut Vec::new()).is_ok());
}

#[test]
fn size_frame_passes_over_what_the_value_does_not_read() {
    // a frame of five bytes, of which the value reads two
    let bytes = [0u8, 5, 0, 7, 1, 2, 3, 0xee];
    let mut reader = WrapRead::new(&bytes);
    let v: u16 = deserialize_field(&MtArgs::sized(LenWidth::W16, def_cfg()), &mut reader, None)
        .unwrap();
    assert_eq!(v, 7);
    assert_eq!(reader.read_u8().unwrap(), 0xee);
}

#[test]
fn size_frame_bounds_the_value() {
    // the frame holds one byte, the value needs two
    let bytes = [0u8, 1, 0, 7];
    let mut reader = WrapRead::new(&bytes);
    assert!(matches!(
        deserialize_field::<u16>(&MtArgs::sized(LenWidth::W16, def_cfg()), &mut reader, None),
        Err(DeserializeError::UnexpectedEof)
    ));
    // the frame was used, what follows it was not
    assert_eq!(reader.remaining(), 1);
    // a text without length ends where its frame ends
    let bytes = [2u8, b'a', b'b', b'c'];
    let mut reader = WrapRead::new(&bytes);
    let s: String =
        deserialize_field(&MtArgs::sized(LenWidth::W8, MtCfg::no_len()), &mut reader, None).unwrap();
    assert_eq!(s, "ab");
    assert_eq!(reader.remaining(), 1);
}

#[test]
fn size_frame_cut_short_holds_what_is_there() {
    let bytes = [0u8, 9, 0, 7];
    let mut reader = WrapRead::new(&bytes);
    let v: u16 = deserialize_field(&MtArgs::sized(LenWidth::W16, def_cfg()), &mut reader, None)
        .unwrap();
    assert_eq!(v, 7);
    assert_eq!(reader.remaining(), 0);
    let bytes = [0u8];
    let mut reader = WrapRead::new(&bytes);
    assert!(matches!(
        deserialize_field::<u16>(&MtArgs::sized(LenWidth::W16, def_cfg()), &mut reader, None),
        Err(DeserializeError::UnexpectedEof)
    ));
}

#[test]
fn fallback_takes_the_place_of_a_missing_value() {
    let mut reader = WrapRead::new(&[]);
    let v: u16 = deserialize_field(&MtArgs::plain(def_cfg()), &mut reader, Some(9)).unwrap();
    assert_eq!(v, 9);
    let bytes = [0u8, 3];
    let mut reader = WrapRead::new(&bytes);
    let v: u16 = deserialize_field(&MtArgs::plain(def_cfg()), &mut reader, Some(9)).unwrap();
    assert_eq!(v, 3);
    // only the end of the input is made good
    let bytes = [0u8, 1, 0xff];
    let mut reader = WrapRead::new(&bytes);
    assert!(matches!(
        deserialize_field::<String>(&MtArgs::plain(def_cfg()), &mut reader, Some(String::new())),
        Err(DeserializeError::IoError(_))
    ));
}

#[test]
fn fallback_works_inside_a_frame() {
    // an empty frame: the value is missing, what follows the frame is not touched
    let bytes = [0u8, 0, 0xee];
    let mut reader = WrapRead::new(&bytes);
    let v: u16 =
        deserialize_field(&MtArgs::sized(LenWidth::W16, def_cfg()), &mut reader, Some(4)).unwrap();
    assert_eq!(v, 4);
    assert_eq!(reader.read_u8().unwrap(), 0xee);
}

#[test]
fn zlib_region_reads_back() {
    let data: Vec<u8> = (0..200u8).chain(0..200u8).collect();
    let packed = pack(true, false, data.clone()).unwrap();
    assert_ne!(packed, data);
    // the header of a zlib stream at the default level
    assert_eq!(&packed[..2], &[0x78, 0x9c]);
    let mut input = packed.clone();
    input.extend_from_slice(&[0xee, 0xef]);
    let mut reader = WrapRead::new(&input);
    assert_eq!(unpack(true, false, &mut reader).unwrap(), data);
    // the stream says where it ends
    assert_eq!(reader.read_to_end(), &[0xee, 0xef]);
}

#[test]
fn zstd_region_reads_back() {
    let data: Vec<u8> = (0..200u8).chain(0..200u8).collect();
    let packed = pack(false, true, data.clone()).unwrap();
    assert_ne!(packed, data);
    // the magic number of a zstd frame
    assert_eq!(&packed[..4], &[0x28, 0xb5, 0x2f, 0xfd]);
    let mut input = packed.clone();
    input.extend_from_slice(&[0xee, 0xef]);
    let mut reader = WrapRead::new(&input);
    assert_eq!(unpack(false, true, &mut reader).unwrap(), data);
    assert_eq!(reader.read_to_end(), &[0xee, 0xef]);
}

#[test]
fn both_compressors_nest() {
    let data: Vec<u8> = vec![5; 1000];
    let inner = pack(true, false, data.clone()).unwrap();
    let both = pack(true, true, data.clone()).unwrap();
    assert_eq!(both, pack(false, true, inner).unwrap());
    let mut reader = WrapRead::new(&both);
    assert_eq!(unpack(true, true, &mut reader).unwrap(), data);
    assert_eq!(reader.remaining(), 0);
    assert_eq!(pack(false, false, data.clone()).unwrap(), data);
}

#[test]
fn truncated_region_is_unexpected_eof() {
    let data: Vec<u8> = (0..200u8).collect();
    let packed = pack(true, false, data).unwrap();
    let mut reader = WrapRead::new(&packed[..packed.len() - 3]);
    assert!(matches!(
        unpack(true, false, &mut reader),
        Err(DeserializeError::UnexpectedEof)
    ));
    assert_eq!(reader.remaining(), 0);
}

#[test]
fn corrupt_region_is_an_io_error() {
    let bytes = [0x78u8, 0x9c, 0xff, 0xff, 0xff, 0xff, 0xff, 0xff];
    let mut reader = WrapRead::new(&bytes);
    assert!(matches!(unpack(true, false, &mut reader), Err(DeserializeError::IoError(_))));
    let bytes = [1u8, 2, 3, 4, 5, 6, 7, 8];
    let mut reader = WrapRead::new(&bytes);
    assert!(unpack(false, true, &mut reader).is_err());
}

#[test]
fn compressed_field_reads_back() {
    let v: Vec<u16> = (0..500).collect();
    for (zlib, zstd) in [(true, false), (false, true), (true, true)] {
        for size in [None, Some(LenWidth::W32)] {
            let a = MtArgs {
                const_before: vec![Raw::U8(1)],
                const_after: vec![Raw::U16(2)],
                size,
                len: def_cfg(),
                zlib,
                zstd,
            };
            let mut w = Vec::new();
            serialize_field(&v, &a, &mut w).unwrap();
            assert_eq!(w[0], 1);
            assert_eq!(&w[w.len() - 2..], &[0, 2]);
            w.push(0xee);
            let mut reader = WrapRead::new(&w);
            let back: Vec<u16> = deserialize_field(&a, &mut reader, None).unwrap();
            assert_eq!(back, v);
            assert_eq!(reader.read_to_end(), &[0xee]);
        }
    }
}

#[test]
fn compressed_frame_holds_the_compressed_size() {
    let v: Vec<u8> = vec![0; 1000];
    let mut w = Vec::new();
    serialize_field(&v, &args(Some(LenWidth::W32), true, false), &mut w).unwrap();
    let framed = u32::from_be_bytes([w[0], w[1], w[2], w[3]]) as usize;
    assert_eq!(framed, w.len() - 4);
    assert!(framed < 100);
    let mut body = Vec::new();
    v.mt_serialize(def_cfg(), &mut body).unwrap();
    assert_eq!(&w[4..], &pack(true, false, body).unwrap()[..]);
}

#[test]
fn value_that_does_not_fit_ends_the_field() {
    let long: Vec<u8> = vec![0; 300];
    let mut w = vec![0xaa];
    assert!(matches!(
        serialize_field(&long, &MtArgs::plain(MtCfg::len8()), &mut w),
        Err(SerializeError::TooBig(_))
    ));
    assert_eq!(w, vec![0xaa]);
    let v = u8::mt_deserialize(def_cfg(), &mut WrapRead::new(&[3])).unwrap();
    assert_eq!(v, 3);
}

#[test]
fn compressed_field_falls_back_where_the_input_ended() {
    // nothing is left where the region should begin
    let mut reader = WrapRead::new(&[]);
    let v: u16 = deserialize_field(&args(None, true, false), &mut reader, Some(7)).unwrap();
    assert_eq!(v, 7);
    let mut reader = WrapRead::new(&[]);
    let v: u16 = deserialize_field(&args(None, false, true), &mut reader, Some(8)).unwrap();
    assert_eq!(v, 8);
    // the region is cut short
    let mut w = Vec::new();
    serialize_field(&0x0102u16, &args(None, true, false), &mut w).unwrap();
    let cut = &w[..w.len() - 3];
    let mut reader = WrapRead::new(cut);
    let v: u16 = deserialize_field(&args(None, true, false), &mut reader, Some(9)).unwrap();
    assert_eq!(v, 9);
    assert_eq!(reader.remaining(), 0);
    // without a fallback the end of the input is the fault
    let mut reader = WrapRead::new(cut);
    assert!(matches!(
        deserialize_field::<u16>(&args(None, true, false), &mut reader, None),
        Err(DeserializeError::UnexpectedEof)
    ));
    // the whole region reads as the value, fallback or not
    let mut reader = WrapRead::new(&w);
    let v: u16 = deserialize_field(&args(None, true, false), &mut reader, Some(9)).unwrap();
    assert_eq!(v, 0x0102);
}

#[test]
fn corrupt_region_is_no_case_for_the_fallback() {
    let bytes = [0x78u8, 0x9c, 0xff, 0xff, 0xff, 0xff, 0xff, 0xff];
    let mut reader = WrapRead::new(&bytes);
    assert!(matches!(
        deserialize_field::<u16>(&args(None, true, false), &mut reader, Some(1)),
        Err(DeserializeError::IoError(_))
    ));
}

#[test]
fn text_constants_around_a_field_read_back() {
    let a = MtArgs {
        const_before: vec![Raw::Str("v1".to_string()), Raw::U8(3)],
        const_after: vec![Raw::Str("end".to_string())],
        size: None,
        len: def_cfg(),
        zlib: false,
        zstd: false,
    };
    let mut w = Vec::new();
    serialize_field(&0x0a0bu16, &a, &mut w).unwrap();
    assert_eq!(w, vec![0, 2, b'v', b'1', 3, 0x0a, 0x0b, 0, 3, b'e', b'n', b'd']);
    w.push(0xee);
    let mut reader = WrapRead::new(&w);
    let v: u16 = deserialize_field(&a, &mut reader, None).unwrap();
    assert_eq!(v, 0x0a0b);
    assert_eq!(reader.read_to_end(), &[0xee]);
    // a text constant that is cut short is the end of the input
    let mut reader = WrapRead::new(&w[..3]);
    assert!(matches!(
        deserialize_field::<u16>(&a, &mut reader, None),
        Err(DeserializeError::UnexpectedEof)
    ));
}

#[test]
fn frame_that_refuses_leaves_the_constants_before_it() {
    let a = MtArgs {
        const_before: vec![Raw::U8(9)],
        const_after: vec![Raw::U8(8)],
        size: Some(LenWidth::W8),
        len: def_cfg(),
        zlib: false,
        zstd: false,
    };
    // 302 bytes do not fit a frame of one byte
    let v: Vec<u8> = vec![0; 300];
    let mut w = vec![0xaa];
    assert!(matches!(serialize_field(&v, &a, &mut w), Err(SerializeError::TooBig(_))));
    assert_eq!(w, vec![0xaa, 9]);
}
