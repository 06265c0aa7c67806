use sharded_kv::command::{Command, Response};
use sharded_kv::hashing::{calculate_hash, shard_index};
use sharded_kv::shard::Shard;
use sharded_kv::store::new_sharded_db;

fn bytes_of(s: &str) -> Vec<u8> {
    s.as_bytes().to_vec()
}

#[test]
fn hash_is_the_same_on_every_call() {
    assert_eq!(calculate_hash("hello1"), calculate_hash("hello1"));
    assert_eq!(calculate_hash(""), calculate_hash(&String::new()));
}

#[test]
fn hash_differs_between_keys() {
    assert_ne!(calculate_hash("hello1"), calculate_hash("hello2"));
}

#[test]
fn shard_index_is_hash_modulo_count() {
    for key in ["a", "hello1", "missingkey", ""] {
        let h = calculate_hash(key);
        assert_eq!(shard_index(key, 10), (h % 10) as usize);
        assert_eq!(shard_index(key, 10), shard_index(key, 10));
        assert_eq!(shard_index(key, 1), 0);
    }
}

#[test]
fn store_route_matches_shard_index() {
    let db = new_sharded_db(16);
    assert_eq!(db.shard_count(), 16);
    for key in ["x", "y", "hello1"] {
        assert_eq!(db.route(key), shard_index(key, 16));
        assert!(db.route(key) < 16);
    }
}

#[test]
fn read_after_write() {
    let mut db = new_sharded_db(10);
    db.set("hello1".to_string(), bytes_of("world2"));
    assert_eq!(db.get(&"hello1".to_string()), Some(bytes_of("world2")));
}

#[test]
fn never_set_key_is_absent() {
    let mut db = new_sharded_db(10);
    assert_eq!(db.get(&"k".to_string()), None);
    db.set("other".to_string(), bytes_of("v"));
    assert_eq!(db.get(&"k".to_string()), None);
}

#[test]
fn repeated_set_is_idempotent() {
    let mut db = new_sharded_db(4);
    db.set("k".to_string(), bytes_of("v"));
    let first = db.get(&"k".to_string());
    db.set("k".to_string(), bytes_of("v"));
    assert_eq!(db.get(&"k".to_string()), first);
    assert_eq!(first, Some(bytes_of("v")));
}

#[test]
fn last_write_wins() {
    let mut db = new_sharded_db(4);
    db.set("k".to_string(), bytes_of("v1"));
    db.set("k".to_string(), bytes_of("v2"));
    assert_eq!(db.get(&"k".to_string()), Some(bytes_of("v2")));
    db.set("k".to_string(), bytes_of("v1"));
    assert_eq!(db.get(&"k".to_string()), Some(bytes_of("v1")));
}

#[test]
fn empty_key_and_empty_value() {
    let mut db = new_sharded_db(3);
    db.set(String::new(), Vec::new());
    assert_eq!(db.get(&String::new()), Some(Vec::new()));
}

#[test]
fn single_shard_store_holds_many_keys() {
    let mut db = new_sharded_db(1);
    for i in 0..50u8 {
        db.set(format!("key{}", i), vec![i]);
    }
    for i in 0..50u8 {
        assert_eq!(db.get(&format!("key{}", i)), Some(vec![i]));
    }
}

#[test]
fn keys_land_in_their_routed_shard() {
    let mut db = new_sharded_db(8);
    let keys = ["alpha", "beta", "gamma", "delta", "epsilon"];
    for k in keys {
        db.set(k.to_string(), bytes_of(k));
    }
    let shards = db.into_shards();
    assert_eq!(shards.len(), 8);
    let total: usize = shards.iter().map(|s| s.len()).sum();
    assert_eq!(total, keys.len());
    for k in keys {
        let i = shard_index(k, 8);
        assert_eq!(shards[i].get(&k.to_string()), Some(bytes_of(k)));
    }
}

#[test]
fn shard_set_and_get() {
    let mut s = Shard::new();
    assert_eq!(s.len(), 0);
    assert_eq!(s.get(&"a".to_string()), None);
    s.set("a".to_string(), vec![1]);
    s.set("b".to_string(), vec![2]);
    s.set("a".to_string(), vec![3]);
    assert_eq!(s.len(), 2);
    assert_eq!(s.get(&"a".to_string()), Some(vec![3]));
    assert_eq!(s.get(&"b".to_string()), Some(vec![2]));
}

#[test]
fn shard_execute_serves_commands() {
    let mut s = Shard::new();
    let r = s.execute(Command::Put { key: "k".to_string(), value: vec![9] });
    assert!(matches!(r, Some(Response::Ack)));
    let r = s.execute(Command::Get { key: "k".to_string() });
    assert!(matches!(r, Some(Response::Bulk(v)) if v == vec![9]));
    let r = s.execute(Command::Get { key: "z".to_string() });
    assert!(matches!(r, Some(Response::Null)));
    assert!(s.execute(Command::Unsupported).is_none());
    assert_eq!(s.len(), 1);
}

#[test]
fn scenario_set_then_get() {
    let mut db = new_sharded_db(10);
    let r = db.execute(Command::Put { key: "hello1".to_string(), value: bytes_of("world2") });
    assert!(matches!(r, Some(Response::Ack)));
    let r = db.execute(Command::Get { key: "hello1".to_string() });
    assert!(matches!(r, Some(Response::Bulk(v)) if v == bytes_of("world2")));
}

#[test]
fn scenario_get_missing_key() {
    let mut db = new_sharded_db(10);
    let r = db.execute(Command::Get { key: "missingkey".to_string() });
    assert!(matches!(r, Some(Response::Null)));
}

#[test]
fn unsupported_command_leaves_store_unchanged() {
    let mut db = new_sharded_db(10);
    db.set("k".to_string(), bytes_of("v"));
    assert!(db.execute(Command::Unsupported).is_none());
    assert_eq!(db.get(&"k".to_string()), Some(bytes_of("v")));
}
