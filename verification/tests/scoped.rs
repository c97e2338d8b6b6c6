use metainfo::{MetaInfo, TypeKey, Value};
use std::sync::Arc;

#[test]
fn test_remove() {
    let mut map = MetaInfo::new();

    map.insert(Value::I8(123));
    assert!(map.get(TypeKey::I8).is_some());

    map.remove(TypeKey::I8);
    assert!(map.get(TypeKey::I8).is_none());

    map.insert(Value::I8(123));

    let mut m2 = MetaInfo::from(Arc::new(map));

    m2.remove(TypeKey::I8);
    assert!(m2.get(TypeKey::I8).is_some());
}

#[test]
fn test_clear() {
    let mut map = MetaInfo::new();

    map.insert(Value::I8(8));
    map.insert(Value::I16(16));
    map.insert(Value::I32(32));

    assert!(map.contains(TypeKey::I8));
    assert!(map.contains(TypeKey::I16));
    assert!(map.contains(TypeKey::I32));

    map.clear();

    assert!(!map.contains(TypeKey::I8));
    assert!(!map.contains(TypeKey::I16));
    assert!(!map.contains(TypeKey::I32));

    map.insert(Value::I8(10));
    assert_eq!(map.get(TypeKey::I8), Some(&Value::I8(10)));
}

#[test]
fn test_integers() {
    let mut map = MetaInfo::new();

    map.insert(Value::I8(8));
    map.insert(Value::I16(16));
    map.insert(Value::I32(32));
    map.insert(Value::I64(64));
    map.insert(Value::I128(128));
    map.insert(Value::U8(8));
    map.insert(Value::U16(16));
    map.insert(Value::U32(32));
    map.insert(Value::U64(64));
    map.insert(Value::U128(128));
    assert!(map.get(TypeKey::I8).is_some());
    assert!(map.get(TypeKey::I16).is_some());
    assert!(map.get(TypeKey::I32).is_some());
    assert!(map.get(TypeKey::I64).is_some());
    assert!(map.get(TypeKey::I128).is_some());
    assert!(map.get(TypeKey::U8).is_some());
    assert!(map.get(TypeKey::U16).is_some());
    assert!(map.get(TypeKey::U32).is_some());
    assert!(map.get(TypeKey::U64).is_some());
    assert!(map.get(TypeKey::U128).is_some());

    let m2 = MetaInfo::from(Arc::new(map));
    assert!(m2.get(TypeKey::I8).is_some());
    assert!(m2.get(TypeKey::I16).is_some());
    assert!(m2.get(TypeKey::I32).is_some());
    assert!(m2.get(TypeKey::I64).is_some());
    assert!(m2.get(TypeKey::I128).is_some());
    assert!(m2.get(TypeKey::U8).is_some());
    assert!(m2.get(TypeKey::U16).is_some());
    assert!(m2.get(TypeKey::U32).is_some());
    assert!(m2.get(TypeKey::U64).is_some());
    assert!(m2.get(TypeKey::U128).is_some());
}

#[test]
fn test_composition() {
    // three payloads of distinct types living side by side
    let mut map = MetaInfo::new();

    map.insert(Value::Bool(false));
    map.insert(Value::U32(0));
    map.insert(Value::U64(999));

    match map.get(TypeKey::Bool) {
        Some(Value::Bool(god)) => assert!(!god),
        _ => panic!("missing entry"),
    }
    assert_eq!(map.get(TypeKey::U32), Some(&Value::U32(0)));
    assert_eq!(map.get(TypeKey::U64), Some(&Value::U64(999)));
}

#[test]
fn test_metainfo() {
    let mut metainfo = MetaInfo::new();

    metainfo.insert(Value::I32(5));
    metainfo.insert(Value::I64(10));

    assert_eq!(metainfo.get(TypeKey::I32), Some(&Value::I32(5)));

    assert_eq!(metainfo.remove(TypeKey::I32), Some(Value::I32(5)));
    assert!(metainfo.get(TypeKey::I32).is_none());

    assert_eq!(metainfo.get(TypeKey::Bool), None);
    assert_eq!(metainfo.get(TypeKey::I64), Some(&Value::I64(10)));
}

#[test]
fn test_extend() {
    let mut metainfo = MetaInfo::new();

    metainfo.insert(Value::I32(5));
    metainfo.insert(Value::I64(10));

    let mut other = MetaInfo::new();

    other.insert(Value::I32(15));
    other.insert(Value::U8(20));

    metainfo.extend(other);

    assert_eq!(metainfo.get(TypeKey::I32), Some(&Value::I32(15)));

    assert_eq!(metainfo.remove(TypeKey::I32), Some(Value::I32(15)));
    assert!(metainfo.get(TypeKey::I32).is_none());

    assert_eq!(metainfo.get(TypeKey::Bool), None);
    assert_eq!(metainfo.get(TypeKey::I64), Some(&Value::I64(10)));

    assert_eq!(metainfo.get(TypeKey::U8), Some(&Value::U8(20)));
}

#[test]
fn test_parent_fallback() {
    let mut root = MetaInfo::new();
    root.insert(Value::U16(7));
    let child = MetaInfo::from(Arc::new(root));
    assert_eq!(child.get(TypeKey::U16), Some(&Value::U16(7)));
    assert!(child.contains(TypeKey::U16));
}

#[test]
fn test_shadow_then_unshadow() {
    let mut root = MetaInfo::new();
    root.insert(Value::I32(1));
    let mut child = MetaInfo::from(Arc::new(root));
    child.insert(Value::I32(2));
    assert_eq!(child.get(TypeKey::I32), Some(&Value::I32(2)));
    assert_eq!(child.remove(TypeKey::I32), Some(Value::I32(2)));
    assert_eq!(child.get(TypeKey::I32), Some(&Value::I32(1)));
}

#[test]
fn test_noop_removal() {
    let mut root = MetaInfo::new();
    root.insert(Value::I32(1));
    let mut child = MetaInfo::from(Arc::new(root));
    assert_eq!(child.remove(TypeKey::I32), None);
    assert_eq!(child.get(TypeKey::I32), Some(&Value::I32(1)));
}

#[test]
fn test_clear_isolation() {
    let mut root = MetaInfo::new();
    root.insert(Value::I8(1));
    let mut child = MetaInfo::from(Arc::new(root));
    child.insert(Value::U8(2));
    assert!(child.contains(TypeKey::U8));
    child.clear();
    assert!(!child.contains(TypeKey::U8));
    assert_eq!(child.get(TypeKey::I8), Some(&Value::I8(1)));
}

#[test]
fn test_scoped_end_to_end() {
    let mut root = MetaInfo::new();
    root.insert(Value::I8(2));
    let mut child = MetaInfo::from(Arc::new(root));
    assert_eq!(child.get(TypeKey::I8), Some(&Value::I8(2)));
    child.insert(Value::I8(4));
    assert_eq!(child.get(TypeKey::I8), Some(&Value::I8(4)));
    child.remove(TypeKey::I8);
    assert_eq!(child.get(TypeKey::I8), Some(&Value::I8(2)));
}

#[test]
fn test_strings() {
    let mut root = MetaInfo::new();
    root.insert_string("k".to_string(), "v".to_string());
    assert!(root.contains_string("k"));
    assert_eq!(root.get_string("k"), Some(&"v".to_string()));
    assert_eq!(root.get_string("missing"), None);

    let mut child = MetaInfo::from(Arc::new(root));
    assert_eq!(child.get_string("k"), Some(&"v".to_string()));
    assert!(child.contains_string("k"));

    child.insert_string("k".to_string(), "v2".to_string());
    assert_eq!(child.get_string("k"), Some(&"v2".to_string()));

    assert_eq!(child.remove_string("k"), Some("v2".to_string()));
    assert_eq!(child.get_string("k"), Some(&"v".to_string()));
    assert_eq!(child.remove_string("k"), None);
}

#[test]
fn test_extend_strings() {
    let mut a = MetaInfo::new();
    a.insert_string("x".to_string(), "5".to_string());
    a.insert_string("only_a".to_string(), "a".to_string());

    let mut b = MetaInfo::new();
    b.insert_string("x".to_string(), "15".to_string());
    b.insert_string("only_b".to_string(), "b".to_string());

    a.extend(b);

    assert_eq!(a.get_string("x"), Some(&"15".to_string()));
    assert_eq!(a.get_string("only_a"), Some(&"a".to_string()));
    assert_eq!(a.get_string("only_b"), Some(&"b".to_string()));
}

#[test]
fn test_extend_ignores_other_parent() {
    let mut grand = MetaInfo::new();
    grand.insert(Value::I16(44));
    let mut b = MetaInfo::from(Arc::new(grand));
    b.insert(Value::U8(3));

    let mut a = MetaInfo::new();
    a.extend(b);

    // only b's own entries moved; what b saw through its parent did not
    assert_eq!(a.get(TypeKey::U8), Some(&Value::U8(3)));
    assert!(!a.contains(TypeKey::I16));
}

#[test]
fn test_clear_keeps_string_fallback() {
    let mut root = MetaInfo::new();
    root.insert_string("k".to_string(), "v".to_string());
    let mut child = MetaInfo::from(Arc::new(root));
    child.insert_string("own".to_string(), "w".to_string());
    child.clear();
    assert!(!child.contains_string("own"));
    assert_eq!(child.get_string("k"), Some(&"v".to_string()));
}
