use mt_ser::{
    def_cfg, mt_deserialize_seq, mt_deserialize_sized_seq, mt_serialize_seq, reserialize,
    DeserializeError, MtCfg, MtDeserialize, MtLen, MtSerialize, SerializeError, Utf16, WrapRead,
};

fn bytes_of<T: MtSerialize>(cfg: MtCfg, item: &T) -> Vec<u8> {
    let mut writer = Vec::new();
    item.mt_serialize(cfg, &mut writer).unwrap();
    writer
}

fn value_of<T: MtDeserialize>(cfg: MtCfg, bytes: &[u8]) -> Result<T, DeserializeError> {
    let mut reader = WrapRead::new(bytes);
    T::mt_deserialize(cfg, &mut reader)
}

#[test]
fn sequence_is_length_then_elements() {
    let v: Vec<u16> = vec![1, 2, 3];
    assert_eq!(bytes_of(def_cfg(), &v), vec![0, 3, 0, 1, 0, 2, 0, 3]);
    assert_eq!(bytes_of(MtCfg::len8(), &v), vec![3, 0, 1, 0, 2, 0, 3]);
    assert_eq!(bytes_of(MtCfg::len32(), &v), vec![0, 0, 0, 3, 0, 1, 0, 2, 0, 3]);
    assert_eq!(bytes_of(MtCfg::no_len(), &v), vec![0, 1, 0, 2, 0, 3]);
}

#[test]
fn elements_take_the_inner_configuration() {
    let v: Vec<Vec<u8>> = vec![vec![7, 8], vec![9]];
    // the outer length is 8 bits wide, the inner ones have the default 16 bits
    assert_eq!(bytes_of(MtCfg::len8(), &v), vec![2, 0, 2, 7, 8, 0, 1, 9]);
    let inner = MtCfg::len8();
    let both = MtCfg::len32().pair(&inner);
    assert_eq!(bytes_of(both, &v), vec![0, 0, 0, 2, 2, 7, 8, 1, 9]);
    assert_eq!(value_of::<Vec<Vec<u8>>>(both, &[0, 0, 0, 2, 2, 7, 8, 1, 9]).unwrap(), v);
}

#[test]
fn eight_bit_length_holds_255_elements() {
    let fits: Vec<u8> = vec![1; 255];
    let mut w = Vec::new();
    assert!(fits.mt_serialize(MtCfg::len8(), &mut w).is_ok());
    assert_eq!(w.len(), 256);
    assert_eq!(w[0], 255);
    assert_eq!(value_of::<Vec<u8>>(MtCfg::len8(), &w).unwrap(), fits);
}

#[test]
fn eight_bit_length_refuses_257_elements() {
    let long: Vec<u8> = vec![1; 257];
    let mut w = Vec::new();
    assert!(matches!(
        long.mt_serialize(MtCfg::len8(), &mut w),
        Err(SerializeError::TooBig(_))
    ));
    assert!(w.is_empty());
    let edge: Vec<u8> = vec![1; 256];
    assert!(matches!(
        edge.mt_serialize(MtCfg::len8(), &mut Vec::new()),
        Err(SerializeError::TooBig(_))
    ));
}

#[test]
fn an_element_that_does_not_fit_ends_the_writing() {
    let v: Vec<Vec<u8>> = vec![vec![1], vec![0; 256]];
    let inner = MtCfg::len8();
    let cfg = MtCfg::len8().pair(&inner);
    let mut w = vec![0xaa];
    assert!(matches!(v.mt_serialize(cfg, &mut w), Err(SerializeError::TooBig(_))));
    // what was written before the refusal stays
    assert_eq!(w, vec![0xaa, 2, 1, 1]);
}

#[test]
fn counted_sequence_must_be_complete() {
    assert!(matches!(
        value_of::<Vec<u16>>(def_cfg(), &[0, 3, 0, 1, 0, 2]),
        Err(DeserializeError::UnexpectedEof)
    ));
    assert!(matches!(
        value_of::<Vec<u16>>(def_cfg(), &[0, 3, 0, 1, 0, 2, 0]),
        Err(DeserializeError::UnexpectedEof)
    ));
    assert!(matches!(
        value_of::<Vec<u16>>(def_cfg(), &[0]),
        Err(DeserializeError::UnexpectedEof)
    ));
}

#[test]
fn counted_sequence_leaves_what_follows() {
    let bytes = [0u8, 2, 0, 1, 0, 2, 9, 9];
    let mut reader = WrapRead::new(&bytes);
    assert_eq!(Vec::<u16>::mt_deserialize(def_cfg(), &mut reader).unwrap(), vec![1, 2]);
    assert_eq!(reader.remaining(), 2);
}

#[test]
fn uncounted_sequence_reads_to_the_end() {
    assert_eq!(
        value_of::<Vec<u16>>(MtCfg::no_len(), &[0, 1, 0, 2, 0, 3]).unwrap(),
        vec![1, 2, 3]
    );
    assert_eq!(value_of::<Vec<u16>>(MtCfg::no_len(), &[]).unwrap(), Vec::<u16>::new());
}

#[test]
fn uncounted_sequence_ends_at_a_short_element() {
    // one byte short: the last element meets the end of the input
    let bytes = [0u8, 1, 0, 2, 0];
    let mut reader = WrapRead::new(&bytes);
    assert_eq!(Vec::<u16>::mt_deserialize(MtCfg::no_len(), &mut reader).unwrap(), vec![1, 2]);
    assert_eq!(reader.remaining(), 0);
}

#[test]
fn uncounted_sequence_passes_other_faults_on() {
    // the second text is not UTF-8: that is no end of the input
    let bytes = [0u8, 1, b'a', 0, 1, 0xff];
    assert!(matches!(
        value_of::<Vec<String>>(MtCfg::no_len(), &bytes),
        Err(DeserializeError::IoError(_))
    ));
}

#[test]
fn sequence_functions_take_slices() {
    let mut w = Vec::new();
    mt_serialize_seq::<u8>(MtCfg::len8(), &mut w, &[5, 6]).unwrap();
    assert_eq!(w, vec![2, 5, 6]);
    let mut reader = WrapRead::new(&w);
    assert_eq!(mt_deserialize_seq::<u8>(MtCfg::len8(), &mut reader).unwrap(), vec![5, 6]);
    let bytes = [1u8, 2, 3];
    let mut reader = WrapRead::new(&bytes);
    assert_eq!(
        mt_deserialize_sized_seq::<u8>(&MtLen::Exact(2), def_cfg(), &mut reader).unwrap(),
        vec![1, 2]
    );
    assert_eq!(
        mt_deserialize_sized_seq::<u8>(&MtLen::Unbounded, def_cfg(), &mut reader).unwrap(),
        vec![3]
    );
    assert!(matches!(
        mt_deserialize_sized_seq::<u8>(&MtLen::Exact(1), def_cfg(), &mut reader),
        Err(DeserializeError::UnexpectedEof)
    ));
}

#[test]
fn array_has_no_length() {
    let a: [u16; 3] = [1, 2, 3];
    assert_eq!(bytes_of(def_cfg(), &a), vec![0, 1, 0, 2, 0, 3]);
    assert_eq!(bytes_of(MtCfg::len8(), &a), vec![0, 1, 0, 2, 0, 3]);
    assert_eq!(value_of::<[u16; 3]>(def_cfg(), &[0, 1, 0, 2, 0, 3]).unwrap(), a);
    assert!(matches!(
        value_of::<[u16; 3]>(def_cfg(), &[0, 1, 0, 2]),
        Err(DeserializeError::UnexpectedEof)
    ));
    assert_eq!(value_of::<[u8; 0]>(def_cfg(), &[]).unwrap(), [0u8; 0]);
}

#[test]
fn array_elements_take_the_default_configuration() {
    let a: [Vec<u8>; 2] = [vec![1], vec![2, 3]];
    // even under an 8-bit configuration the inner lengths are 16 bits wide
    assert_eq!(bytes_of(MtCfg::len8(), &a), vec![0, 1, 1, 0, 2, 2, 3]);
    assert_eq!(value_of::<[Vec<u8>; 2]>(MtCfg::len8(), &[0, 1, 1, 0, 2, 2, 3]).unwrap(), a);
}

#[test]
fn absent_value_has_no_bytes() {
    let none: Option<u16> = None;
    assert_eq!(bytes_of(def_cfg(), &none), Vec::<u8>::new());
    assert_eq!(bytes_of(def_cfg(), &Some(5u16)), vec![0, 5]);
    assert_eq!(value_of::<Option<u16>>(def_cfg(), &[]).unwrap(), None);
    assert_eq!(value_of::<Option<u16>>(def_cfg(), &[0, 5]).unwrap(), Some(5));
    // a value cut short counts as absent too
    assert_eq!(value_of::<Option<u16>>(def_cfg(), &[0]).unwrap(), None);
}

#[test]
fn absent_value_passes_other_faults_on() {
    assert!(matches!(
        value_of::<Option<String>>(def_cfg(), &[0, 1, 0xff]),
        Err(DeserializeError::IoError(_))
    ));
}

#[test]
fn box_and_reference_are_transparent() {
    assert_eq!(bytes_of(def_cfg(), &Box::new(517u16)), vec![2, 5]);
    assert_eq!(*value_of::<Box<u16>>(def_cfg(), &[2, 5]).unwrap(), 517);
    let v: Vec<u8> = vec![1];
    assert_eq!(bytes_of(MtCfg::len8(), &&v), vec![1, 1]);
}

#[test]
fn pair_gives_its_second_part_the_inner_configuration() {
    let p: (Vec<u8>, Vec<u8>) = (vec![1], vec![2]);
    assert_eq!(bytes_of(MtCfg::len8(), &p), vec![1, 1, 0, 1, 2]);
    assert_eq!(value_of::<(Vec<u8>, Vec<u8>)>(MtCfg::len8(), &[1, 1, 0, 1, 2]).unwrap(), p);
    assert!(matches!(
        value_of::<(u8, u16)>(def_cfg(), &[1, 2]),
        Err(DeserializeError::UnexpectedEof)
    ));
}

#[test]
fn map_travels_as_pairs() {
    let m: Vec<(u16, String)> = vec![(1, "a".to_string()), (2, "bc".to_string())];
    let bytes = bytes_of(def_cfg(), &m);
    assert_eq!(bytes, vec![0, 2, 0, 1, 0, 1, b'a', 0, 2, 0, 2, b'b', b'c']);
    assert_eq!(value_of::<Vec<(u16, String)>>(def_cfg(), &bytes).unwrap(), m);
}

#[test]
fn what_is_written_comes_back() {
    assert_eq!(reserialize(MtCfg::len8(), &vec![1u16, 2, 3]), Some(vec![1u16, 2, 3]));
    assert_eq!(reserialize(MtCfg::no_len(), &vec![1i32, -2, 3]), Some(vec![1, -2, 3]));
    assert_eq!(
        reserialize(Utf16(MtCfg::len32()).cfg(), &"µ ß 私 😀\n".to_string()),
        Some("µ ß 私 😀\n".to_string())
    );
    assert_eq!(reserialize(def_cfg(), &Some(7u8)), Some(Some(7u8)));
    assert_eq!(reserialize(def_cfg(), &None::<u8>), Some(None));
    assert_eq!(reserialize(MtCfg::len8(), &vec![0u8; 256]), None);
    // an absent value before the end of nothing is told from it; a unit is not
    assert_eq!(reserialize(def_cfg(), &None::<()>), Some(Some(())));
}

#[test]
fn refused_element_leaves_what_was_written_before_it() {
    let inner = MtCfg::len8();
    let cfg = def_cfg().pair(&inner);
    let v: Vec<Vec<u8>> = vec![vec![1], vec![0; 300], vec![2]];
    let mut sink = vec![0xaa];
    assert!(matches!(v.mt_serialize(cfg, &mut sink), Err(SerializeError::TooBig(_))));
    // the count, then the first element; nothing of the third
    assert_eq!(sink, vec![0xaa, 0, 3, 1, 1]);
    let mut sink = vec![0xaa];
    assert!(matches!(
        mt_serialize_seq(cfg, &mut sink, v.as_slice()),
        Err(SerializeError::TooBig(_))
    ));
    assert_eq!(sink, vec![0xaa, 0, 3, 1, 1]);
}

#[test]
fn refused_length_leaves_the_sink_as_it_was() {
    let v: Vec<u8> = vec![0; 256];
    let mut sink = vec![0xaa];
    assert!(matches!(v.mt_serialize(MtCfg::len8(), &mut sink), Err(SerializeError::TooBig(_))));
    assert_eq!(sink, vec![0xaa]);
}
