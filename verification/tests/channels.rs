use metainfo::{Channel, Node, KV};

#[test]
fn test_add_stale() {
    let mut node = Node::default();
    node.set_stale("key".to_string(), "value".to_string());
    println!("{:?}", node);
}

#[test]
fn test_kv_new() {
    let kv = KV::new("a".to_string(), "b".to_string());
    assert_eq!(kv.key, "a".to_string());
    assert_eq!(kv.value, "b".to_string());
}

#[test]
fn test_persistent_append_first_match() {
    let mut node = Node::default();
    node.set_persistent("k".to_string(), "1".to_string());
    node.set_persistent("k".to_string(), "2".to_string());
    assert_eq!(node.get_persistent("k"), Some("1".to_string()));
    node.del_persistent("k");
    assert_eq!(node.get_persistent("k"), Some("2".to_string()));
    node.del_persistent("k");
    assert_eq!(node.get_persistent("k"), None);
}

#[test]
fn test_channel_lazy_absent() {
    let mut node = Node::default();
    assert!(node.get_all(Channel::Persistent).is_none());
    assert!(node.get_all(Channel::Transient).is_none());
    assert!(node.get_all(Channel::Stale).is_none());
    // deleting on a channel never written is a no-op and creates nothing
    node.del_transient("k");
    assert!(node.get_all(Channel::Transient).is_none());
    node.set_transient("k".to_string(), "v".to_string());
    let all = node.get_all(Channel::Transient).unwrap();
    assert_eq!(all.len(), 1);
    // a drained channel stays present (empty), no longer absent
    node.del_transient("k");
    let all = node.get_all(Channel::Transient).unwrap();
    assert_eq!(all.len(), 0);
}

#[test]
fn test_del_removes_first_only() {
    let mut node = Node::default();
    node.set_stale("k".to_string(), "1".to_string());
    node.set_stale("other".to_string(), "x".to_string());
    node.set_stale("k".to_string(), "2".to_string());
    node.del_stale("k");
    assert_eq!(node.get_stale("k"), Some("2".to_string()));
    assert_eq!(node.get_stale("other"), Some("x".to_string()));
    let all = node.get_all(Channel::Stale).unwrap();
    assert_eq!(all.len(), 2);
    assert_eq!(all[0].key, "other".to_string());
    assert_eq!(all[1].key, "k".to_string());
}

#[test]
fn test_channels_independent() {
    let mut node = Node::default();
    node.set_persistent("k".to_string(), "p".to_string());
    node.set_transient("k".to_string(), "t".to_string());
    node.set_stale("k".to_string(), "s".to_string());
    assert_eq!(node.get_persistent("k"), Some("p".to_string()));
    assert_eq!(node.get_transient("k"), Some("t".to_string()));
    assert_eq!(node.get_stale("k"), Some("s".to_string()));
    node.del_transient("k");
    assert_eq!(node.get_persistent("k"), Some("p".to_string()));
    assert_eq!(node.get_transient("k"), None);
    assert_eq!(node.get_stale("k"), Some("s".to_string()));
}

#[test]
fn test_generic_channel_api() {
    let mut node = Node::default();
    node.set(Channel::Persistent, "a".to_string(), "1".to_string());
    node.set(Channel::Persistent, "b".to_string(), "2".to_string());
    assert_eq!(node.get(Channel::Persistent, "a"), Some("1".to_string()));
    assert_eq!(node.get(Channel::Persistent, "b"), Some("2".to_string()));
    assert_eq!(node.get(Channel::Persistent, "c"), None);
    node.del(Channel::Persistent, "a");
    assert_eq!(node.get(Channel::Persistent, "a"), None);
    let all = node.get_all(Channel::Persistent).unwrap();
    assert_eq!(all.len(), 1);
    assert_eq!(all[0].key, "b".to_string());
    assert_eq!(all[0].value, "2".to_string());
}

#[test]
fn test_get_unknown_key_none() {
    let mut node = Node::default();
    node.set_persistent("k".to_string(), "v".to_string());
    assert_eq!(node.get_persistent("missing"), None);
    assert_eq!(node.get_transient("k"), None);
}
