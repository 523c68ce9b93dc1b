use mt_ser::{
    def_cfg, deserialize_map, deserialize_set, mt_deserialize_seq, serialize_map, serialize_set,
    DeserializeError, MtCfg, SerializeError, WrapRead,
};
use std::collections::{HashMap, HashSet};

#[test]
fn map_of_one_entry_is_length_key_value() {
    let mut map: HashMap<u16, u32> = HashMap::new();
    map.insert(0x0102, 0x0a0b0c0d);
    let mut writer = vec![0xff];
    serialize_map(&map, def_cfg(), &mut writer).unwrap();
    assert_eq!(writer, vec![0xff, 0, 1, 1, 2, 0x0a, 0x0b, 0x0c, 0x0d]);
}

#[test]
fn empty_map_is_its_length() {
    let map: HashMap<u8, u8> = HashMap::new();
    let mut writer = Vec::new();
    serialize_map(&map, MtCfg::len32(), &mut writer).unwrap();
    assert_eq!(writer, vec![0, 0, 0, 0]);
    let mut reader = WrapRead::new(&writer);
    let back: HashMap<u8, u8> = deserialize_map(MtCfg::len32(), &mut reader).unwrap();
    assert!(back.is_empty());
}

#[test]
fn map_comes_back_whole() {
    let mut map: HashMap<u16, Vec<u8>> = HashMap::new();
    for k in 0..40u16 {
        map.insert(k * 7, vec![k as u8; (k % 5) as usize]);
    }
    let mut writer = Vec::new();
    serialize_map(&map, def_cfg(), &mut writer).unwrap();
    let mut reader = WrapRead::new(&writer);
    let back: HashMap<u16, Vec<u8>> = deserialize_map(def_cfg(), &mut reader).unwrap();
    assert_eq!(back, map);
    assert_eq!(reader.remaining(), 0);
}

#[test]
fn map_is_written_as_the_sequence_of_its_entries() {
    let mut map: HashMap<u8, u16> = HashMap::new();
    map.insert(1, 10);
    map.insert(2, 20);
    map.insert(3, 30);
    let mut writer = Vec::new();
    serialize_map(&map, MtCfg::len8(), &mut writer).unwrap();
    assert_eq!(writer.len(), 1 + 3 * 3);
    let mut reader = WrapRead::new(&writer);
    let mut pairs: Vec<(u8, u16)> = mt_deserialize_seq(MtCfg::len8(), &mut reader).unwrap();
    pairs.sort();
    assert_eq!(pairs, vec![(1, 10), (2, 20), (3, 30)]);
}

#[test]
fn map_value_takes_the_second_inner_configuration() {
    let mut map: HashMap<u8, Vec<u8>> = HashMap::new();
    map.insert(5, vec![6, 7]);
    let second = MtCfg::len32();
    let first = def_cfg().pair(&second);
    let cfg = MtCfg::len8().pair(&first);
    let mut writer = Vec::new();
    serialize_map(&map, cfg, &mut writer).unwrap();
    // the count has the outer width, the value's length the second inner one
    assert_eq!(writer, vec![1, 5, 0, 0, 0, 2, 6, 7]);
    let mut reader = WrapRead::new(&writer);
    let back: HashMap<u8, Vec<u8>> = deserialize_map(cfg, &mut reader).unwrap();
    assert_eq!(back, map);
}

#[test]
fn later_pair_with_the_same_key_stays() {
    let bytes = [0, 3, 1, 10, 2, 20, 1, 30];
    let mut reader = WrapRead::new(&bytes);
    let map: HashMap<u8, u8> = deserialize_map(def_cfg(), &mut reader).unwrap();
    assert_eq!(map.len(), 2);
    assert_eq!(map[&1], 30);
    assert_eq!(map[&2], 20);
}

#[test]
fn map_with_too_many_entries_is_too_big() {
    let mut map: HashMap<u16, u8> = HashMap::new();
    for k in 0..256u16 {
        map.insert(k, 0);
    }
    let mut writer = vec![9];
    let r = serialize_map(&map, MtCfg::len8(), &mut writer);
    assert!(matches!(r, Err(SerializeError::TooBig(_))));
    assert_eq!(writer, vec![9]);
    map.remove(&0);
    assert!(serialize_map(&map, MtCfg::len8(), &mut writer).is_ok());
    assert_eq!(writer.len(), 1 + 1 + 255 * 3);
}

#[test]
fn map_cut_short_fails() {
    let bytes = [0, 2, 1, 10, 2];
    let mut reader = WrapRead::new(&bytes);
    let r: Result<HashMap<u8, u8>, DeserializeError> = deserialize_map(def_cfg(), &mut reader);
    assert!(matches!(r, Err(DeserializeError::UnexpectedEof)));
}

#[test]
fn set_of_one_element_is_length_then_element() {
    let mut set: HashSet<u32> = HashSet::new();
    set.insert(0x01020304);
    let mut writer = Vec::new();
    serialize_set(&set, def_cfg(), &mut writer).unwrap();
    assert_eq!(writer, vec![0, 1, 1, 2, 3, 4]);
}

#[test]
fn set_comes_back_whole() {
    let mut set: HashSet<i16> = HashSet::new();
    for k in -20..20i16 {
        set.insert(k * 3);
    }
    let mut writer = Vec::new();
    serialize_set(&set, MtCfg::len8(), &mut writer).unwrap();
    assert_eq!(writer.len(), 1 + 40 * 2);
    let mut reader = WrapRead::new(&writer);
    let back: HashSet<i16> = deserialize_set(MtCfg::len8(), &mut reader).unwrap();
    assert_eq!(back, set);
}

#[test]
fn set_drops_what_comes_twice() {
    let bytes = [4, 7, 8, 7, 9];
    let mut reader = WrapRead::new(&bytes);
    let set: HashSet<u8> = deserialize_set(MtCfg::len8(), &mut reader).unwrap();
    let mut items: Vec<u8> = set.into_iter().collect();
    items.sort();
    assert_eq!(items, vec![7, 8, 9]);
}

#[test]
fn set_with_too_many_elements_is_too_big() {
    let mut set: HashSet<u16> = HashSet::new();
    for k in 0..300u16 {
        set.insert(k);
    }
    let mut writer = Vec::new();
    let r = serialize_set(&set, MtCfg::len8(), &mut writer);
    assert!(matches!(r, Err(SerializeError::TooBig(_))));
    assert!(writer.is_empty());
}

#[test]
fn refused_value_leaves_the_count_and_its_key() {
    let mut map: HashMap<u8, Vec<u8>> = HashMap::new();
    map.insert(5, vec![0; 300]);
    let second = MtCfg::len8();
    let first = def_cfg().pair(&second);
    let cfg = def_cfg().pair(&first);
    let mut sink = vec![0xaa];
    assert!(matches!(serialize_map(&map, cfg, &mut sink), Err(SerializeError::TooBig(_))));
    assert_eq!(sink, vec![0xaa, 0, 1, 5]);
}
