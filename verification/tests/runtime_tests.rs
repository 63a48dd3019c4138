use ts_native::codegen::{fnv1a_64, map_event_type, property_key, StringPool, UNDEFINED};
use ts_native::runtime::{
    get_pointer, is_array, is_object, is_string, nanbox_array, nanbox_object, nanbox_pointer,
    nanbox_string, JsArray, JsObject, JsString,
};

#[test]
fn nanboxed_string_round_trips() {
    let v = nanbox_string(0x1234);
    assert_eq!(v, 0x7FFC_0000_0000_1234);
    assert_eq!(get_pointer(v), 0x1234);
    assert!(is_string(v));
    assert!(!is_array(v));
    assert!(!is_object(v));
}

#[test]
fn nanboxed_kinds_are_told_apart() {
    assert!(is_array(nanbox_array(7)));
    assert!(is_object(nanbox_object(7)));
    assert_eq!(nanbox_array(7), 0x7FFB_0000_0000_0007);
    assert_eq!(nanbox_object(7), 0x7FFA_0000_0000_0007);
    assert_eq!(nanbox_pointer(7), 0x7FFD_0000_0000_0007);
    assert_eq!(get_pointer(0xFFFF_ABCD_0000_0001), 0xABCD_0000_0001);
}

#[test]
fn undefined_is_not_a_reference() {
    assert!(!is_string(UNDEFINED));
    assert!(!is_array(UNDEFINED));
    assert!(!is_object(UNDEFINED));
}

#[test]
fn js_string_keeps_length_and_hash() {
    let s = JsString::new("ab");
    assert_eq!(s.len, 2);
    assert_eq!(s.hash, 97 * 31 + 98);
    assert_eq!(s.as_str(), "ab");
    let e = JsString::new("é");
    assert_eq!(e.len, 2);
    let c = JsString::concat("foo", "bar");
    assert_eq!(c.as_str(), "foobar");
    assert_eq!(c.len, 6);
}

#[test]
fn concat_length_and_hash_compose() {
    let a = JsString::new("ab");
    let b = JsString::new("c");
    let c = JsString::concat("ab", "c");
    assert_eq!(c.len, 3);
    assert_eq!(c.as_str(), "abc");
    assert_eq!(c.hash, 96354);
    assert_eq!(c.len, a.len + b.len);
    assert_eq!(c.hash, a.hash.wrapping_mul(31u32.wrapping_pow(b.len)).wrapping_add(b.hash));
    let u = JsString::concat("é", "ü");
    assert_eq!(u.len, 4);
}

#[test]
fn array_reads_back_pushes_and_sets() {
    let mut a = JsArray::new(0);
    assert_eq!(a.capacity, 8);
    assert!(JsArray::push(&mut a, 10));
    assert!(JsArray::push(&mut a, 20));
    assert_eq!(a.get(0), 10);
    assert_eq!(a.get(1), 20);
    assert_eq!(a.get(2), UNDEFINED);
    assert!(JsArray::set(&mut a, 1, 99));
    assert_eq!(a.get(1), 99);
    assert!(JsArray::set(&mut a, 4, 5));
    assert_eq!(a.len, 5);
    assert_eq!(a.get(2), UNDEFINED);
    assert_eq!(a.get(3), UNDEFINED);
    assert_eq!(a.get(4), 5);
}

#[test]
fn array_grows_by_doubling() {
    let mut a = JsArray::new(1);
    JsArray::push(&mut a, 1);
    assert_eq!(a.capacity, 1);
    JsArray::push(&mut a, 2);
    assert_eq!(a.capacity, 2);
    JsArray::push(&mut a, 3);
    assert_eq!(a.capacity, 4);
}

#[test]
fn array_refuses_growth_past_u32() {
    let mut a = JsArray::new(0);
    assert!(!JsArray::set(&mut a, u32::MAX, 7));
    assert_eq!(a.len, 0);
    assert_eq!(a.capacity, 8);
    let mut b = JsArray::new(0x8000_0000);
    assert!(!JsArray::set(&mut b, 0x8000_0000, 7));
    assert_eq!(b.len, 0);
    assert_eq!(b.capacity, 0x8000_0000);
    assert!(JsArray::push(&mut b, 3));
    assert_eq!(b.get(0), 3);
}

#[test]
fn object_reads_back_writes() {
    let mut o = JsObject::new();
    assert_eq!(o.get(1), UNDEFINED);
    assert!(JsObject::set(&mut o, 1, 100));
    assert!(JsObject::set(&mut o, 2, 200));
    assert_eq!(o.get(1), 100);
    assert_eq!(o.get(2), 200);
    assert!(JsObject::set(&mut o, 1, 111));
    assert_eq!(o.get(1), 111);
    assert_eq!(o.size, 2);
    assert_eq!(o.get(3), UNDEFINED);
}

#[test]
fn fnv1a_known_values() {
    assert_eq!(fnv1a_64(""), 0xcbf29ce484222325);
    assert_eq!(fnv1a_64("a"), 0xaf63dc4c8601ec8c);
    assert_eq!(property_key("a"), 0x7FFC_0000_0000_0000 | (0xaf63dc4c8601ec8c & 0x0000_FFFF_FFFF_FFFF));
    assert!(is_string(property_key("length")));
}

#[test]
fn event_names_map_to_codes() {
    assert_eq!(map_event_type("click"), 1);
    assert_eq!(map_event_type("blur"), 8);
    assert_eq!(map_event_type("changeValue"), 9);
    assert_eq!(map_event_type("dblclick"), 0);
}

#[test]
fn string_pool_stores_each_text_once() {
    let mut pool = StringPool::new();
    pool.insert(&"a".to_string());
    pool.insert(&"b".to_string());
    pool.insert(&"a".to_string());
    assert_eq!(pool.strings(), &vec!["a".to_string(), "b".to_string()]);
}
