use events::value::{Address, DynVal, KeyMap};
use events::wire::{
    decode_any, decode_map, decode_wide, encode_dyn, encode_map, encode_maps, encode_value,
    PublishError, WireEntry, WireMap, WireVal,
};
use events::value::Value;

fn map_of(pairs: &[(&str, i64)]) -> KeyMap {
    let mut m = KeyMap::new();
    for (k, v) in pairs {
        m.set((*k).to_owned(), *v);
    }
    m
}

#[test]
fn wide_int_round_trip_keeps_the_exact_value() {
    let big: i128 = 170141183460469231731687303715884105000;
    let w = encode_value(&Value::I128(big)).unwrap();
    assert_eq!(decode_wide(&w), Some(big));
}

#[test]
fn wide_int_round_trip_negative() {
    let x: i128 = -170141183460469231731687303715884105000;
    let w = encode_value(&Value::I128(x)).unwrap();
    assert_eq!(decode_wide(&w), Some(x));
}

#[test]
fn wide_int_decode_refuses_other_kinds() {
    let w = encode_value(&Value::U32(7)).unwrap();
    assert_eq!(decode_wide(&w), None);
}

#[test]
fn any_round_trip_small_signed_integer() {
    let w = encode_dyn(&DynVal::I32(5)).unwrap();
    assert_eq!(decode_any(&w), DynVal::I32(5));
}

#[test]
fn any_round_trip_all_supported_kinds() {
    let cases = vec![
        DynVal::Addr(Address { id: 77 }),
        DynVal::U32(4),
        DynVal::I32(-4),
        DynVal::I64(1 << 40),
        DynVal::I128(-1),
        DynVal::MapSeq(vec![map_of(&[("hello", 27)])]),
    ];
    for d in cases {
        let w = encode_dyn(&d).unwrap();
        assert_eq!(decode_any(&w), d);
    }
}

#[test]
fn unsupported_any_is_the_only_encode_error() {
    assert_eq!(encode_dyn(&DynVal::Unsupported), Err(PublishError::UnsupportedAny));
}

#[test]
fn equal_maps_encode_to_equal_entries_in_order() {
    let a = map_of(&[("hello", 27)]);
    let b = map_of(&[("hello", 27)]);
    let ws = encode_maps(&vec![a, b]);
    assert_eq!(ws.len(), 2);
    assert_eq!(ws[0], ws[1]);
    assert_eq!(
        ws[0],
        WireMap { entries: vec![WireEntry { key: "hello".to_owned(), val: 27 }] }
    );
}

#[test]
fn map_encoding_keeps_entry_order() {
    let m = map_of(&[("b", 2), ("a", 1), ("c", 3)]);
    let w = encode_map(&m);
    let keys: Vec<&str> = w.entries.iter().map(|e| e.key.as_str()).collect();
    assert_eq!(keys, vec!["b", "a", "c"]);
}

#[test]
fn map_round_trip() {
    let m = map_of(&[("b", 2), ("a", 1)]);
    let w = encode_map(&m);
    let back = decode_map(&w);
    assert_eq!(back, m);
}

#[test]
fn keymap_set_updates_in_place_and_appends_fresh_keys() {
    let mut m = KeyMap::new();
    m.set("a".to_owned(), 1);
    m.set("b".to_owned(), 2);
    m.set("a".to_owned(), 9);
    assert_eq!(m.len(), 2);
    assert_eq!(m, map_of(&[("a", 9), ("b", 2)]));
    let w = encode_map(&m);
    assert_eq!(w.entries[0].key, "a");
    assert_eq!(w.entries[0].val, 9);
    assert_eq!(w.entries[1].key, "b");
    assert_eq!(w.entries[1].val, 2);
}

#[test]
fn keymap_get_finds_present_keys_only() {
    let m = map_of(&[("a", 1), ("b", 2)]);
    assert_eq!(m.get(&"a".to_owned()), Some(1));
    assert_eq!(m.get(&"b".to_owned()), Some(2));
    assert_eq!(m.get(&"c".to_owned()), None);
    let empty = KeyMap::new();
    assert_eq!(empty.get(&"a".to_owned()), None);
}

#[test]
fn nested_any_encodes_like_a_plain_nested_field() {
    let direct = encode_value(&Value::MapSeq(vec![map_of(&[("hello", 27)])])).unwrap();
    let erased = encode_value(&Value::Any(DynVal::MapSeq(vec![map_of(&[("hello", 27)])])))
        .unwrap();
    assert_eq!(direct, erased);
    assert!(matches!(direct, WireVal::MapSeq(_)));
}
