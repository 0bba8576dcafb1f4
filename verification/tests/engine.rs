use europa::client::{Client, PrePostHeader};
use europa::codec::{
    decode_stored, encode_stored, real_child_key, real_key, strip_prefix, tracing_key, BlockHash,
    SEPARATOR,
};
use europa::db::NUM_COLUMNS;
use europa::engine::{can_delete_under, to_hash, StateKv};
use europa::error::StateKvError;
use europa::extensions::{ContractTracingDb, ContractTracingDbExt, DbRef};
use europa::statekv::ClientStateKv;
use europa::rpc::{
    backward_to_height, extrinsic_changes, forward_to_height, limit_gas, state_kvs,
    ContractCallError, EuropaRpcError, NumberOrHash, GAS_LIMIT,
};
use europa::transaction::StateKvTransaction;

fn store() -> StateKv {
    StateKv::new(kvdb_memorydb::create(NUM_COLUMNS)).expect("the backend has all columns")
}

fn hash_of(byte: u8) -> BlockHash {
    [byte; 32]
}

fn commit_block(kv: &mut StateKv, number: u64) -> BlockHash {
    let hash = hash_of(number as u8);
    kv.set_hash_and_number(hash, number).unwrap();
    let mut t = kv.transaction(hash);
    t.set_kv(b"key", Some(&[number as u8]));
    t.set_kv(b"gone", None);
    t.set_child_kv(b"child", b"k", Some(&[number as u8, 1]));
    kv.commit(t).unwrap();
    kv.set_extrinsic_changes(number, 0, format!("[{}]", number)).unwrap();
    kv.set_extrinsic_changes(number, 1, "[]".to_string()).unwrap();
    kv.set_contract_tracing(number, 0, format!("trace {}", number)).unwrap();
    hash
}

#[test]
fn round_trip_of_a_present_value() {
    let mut kv = store();
    let hash = hash_of(0xAA);
    let mut t = kv.transaction(hash);
    t.set_kv(b"foo", Some(b"bar"));
    kv.commit(t).unwrap();
    assert_eq!(kv.get(hash, b"foo").unwrap(), Some(b"bar".to_vec()));
}

#[test]
fn round_trip_of_a_deletion() {
    let mut kv = store();
    let hash = hash_of(1);
    let mut t = kv.transaction(hash);
    t.set_kv(b"foo", None);
    kv.commit(t).unwrap();
    assert_eq!(kv.get(hash, b"foo").unwrap(), None);
    assert_eq!(kv.get_kvs_by_hash(hash).unwrap(), Some(vec![(b"foo".to_vec(), None)]));
    assert_eq!(kv.get(hash, b"never").unwrap(), None);
}

#[test]
fn an_empty_value_is_no_deletion() {
    let mut kv = store();
    let hash = hash_of(2);
    kv.set_kv(hash, b"empty", Some(b"")).unwrap();
    kv.set_kv(hash, b"deleted", None).unwrap();
    assert_eq!(kv.get(hash, b"empty").unwrap(), Some(vec![]));
    assert_eq!(
        kv.get_kvs_by_hash(hash).unwrap(),
        Some(vec![(b"deleted".to_vec(), None), (b"empty".to_vec(), Some(vec![]))])
    );
}

#[test]
fn a_value_that_spells_a_marker_is_a_value() {
    let mut kv = store();
    let hash = hash_of(3);
    kv.set_kv(hash, b"k", Some(b":DELETE:")).unwrap();
    kv.set_kv(hash, b"zero", Some(&[0])).unwrap();
    assert_eq!(kv.get(hash, b"k").unwrap(), Some(b":DELETE:".to_vec()));
    assert_eq!(kv.get(hash, b"zero").unwrap(), Some(vec![0]));
}

#[test]
fn isolation_by_hash() {
    let mut kv = store();
    let a = hash_of(0x0A);
    let b = hash_of(0x0B);
    let mut t = kv.transaction(a);
    t.set_kv(b"key", Some(b"of a"));
    kv.commit(t).unwrap();
    let mut t = kv.transaction(b);
    t.set_kv(b"key", Some(b"of b"));
    kv.commit(t).unwrap();
    assert_eq!(
        kv.get_kvs_by_hash(a).unwrap(),
        Some(vec![(b"key".to_vec(), Some(b"of a".to_vec()))])
    );
    assert_eq!(
        kv.get_kvs_by_hash(b).unwrap(),
        Some(vec![(b"key".to_vec(), Some(b"of b".to_vec()))])
    );
}

#[test]
fn child_isolation() {
    let mut kv = store();
    let hash = hash_of(4);
    let mut t = kv.transaction(hash);
    t.set_child_kv(b"child_1", b"k", Some(b"one"));
    t.set_child_kv(b"child_2", b"k", Some(b"two"));
    kv.commit(t).unwrap();
    assert_eq!(
        kv.get_child_kvs_by_hash(hash, b"child_1").unwrap(),
        Some(vec![(b"k".to_vec(), Some(b"one".to_vec()))])
    );
    assert_eq!(kv.get_child(hash, b"child_2", b"k").unwrap(), Some(b"two".to_vec()));
    assert_eq!(kv.get_child(hash, b"child_1", b"other").unwrap(), None);
    assert_eq!(kv.get_child_kvs_by_hash(hash, b"child_3").unwrap(), None);
    assert_eq!(kv.get_kvs_by_hash(hash).unwrap(), None);
}

#[test]
fn a_child_is_told_from_one_whose_id_begins_with_its_id() {
    let mut kv = store();
    let hash = hash_of(0xBB);
    let mut t = kv.transaction(hash);
    t.set_child_kv(&[0xCC, 0xDD], b"k", Some(b"v"));
    kv.commit(t).unwrap();
    assert_eq!(kv.get_child_kvs_by_hash(hash, &[0xCC]).unwrap(), None);
    assert_eq!(
        kv.get_child_kvs_by_hash(hash, &[0xCC, 0xDD]).unwrap(),
        Some(vec![(b"k".to_vec(), Some(b"v".to_vec()))])
    );
    kv.set_child_kv(hash, &[0xCC], b"own", Some(b"1")).unwrap();
    assert_eq!(
        kv.get_child_kvs_by_hash(hash, &[0xCC]).unwrap(),
        Some(vec![(b"own".to_vec(), Some(b"1".to_vec()))])
    );
    assert_eq!(kv.get_child_kvs_by_hash(hash, &[]).unwrap(), None);
}

#[test]
fn a_separator_in_a_child_id_reads_as_the_end_of_the_id() {
    let mut kv = store();
    let hash = hash_of(5);
    kv.set_child_kv(hash, b"a|b", b"k", Some(b"v")).unwrap();
    assert_eq!(
        kv.get_child_kvs_by_hash(hash, b"a").unwrap(),
        Some(vec![(b"b|k".to_vec(), Some(b"v".to_vec()))])
    );
    assert_eq!(kv.get_child(hash, b"a", b"b|k").unwrap(), Some(b"v".to_vec()));
}

#[test]
fn deleting_a_child_leaves_every_other_row() {
    let mut kv = store();
    let hash = hash_of(0x0C);
    let other_hash = hash_of(0x0D);
    let mut t = kv.transaction(hash);
    t.set_child_kv(b"c", b"k", Some(b"gone"));
    t.set_child_kv(b"c", b"l", None);
    t.set_child_kv(b"cd", b"k", Some(b"longer"));
    t.set_child_kv(b"b", b"k", Some(b"other"));
    t.set_kv(b"c", Some(b"top"));
    kv.commit(t).unwrap();
    kv.set_child_kv(other_hash, b"c", b"k", Some(b"other block")).unwrap();

    kv.delete_child_kvs_by_hash(hash, b"c").unwrap();
    assert_eq!(kv.get_child_kvs_by_hash(hash, b"c").unwrap(), None);
    assert_eq!(
        kv.get_child_kvs_by_hash(hash, b"cd").unwrap(),
        Some(vec![(b"k".to_vec(), Some(b"longer".to_vec()))])
    );
    assert_eq!(
        kv.get_child_kvs_by_hash(hash, b"b").unwrap(),
        Some(vec![(b"k".to_vec(), Some(b"other".to_vec()))])
    );
    assert_eq!(
        kv.get_kvs_by_hash(hash).unwrap(),
        Some(vec![(b"c".to_vec(), Some(b"top".to_vec()))])
    );
    assert_eq!(
        kv.get_child_kvs_by_hash(other_hash, b"c").unwrap(),
        Some(vec![(b"k".to_vec(), Some(b"other block".to_vec()))])
    );
    kv.delete_child_kvs_by_hash(hash, b"absent").unwrap();
    assert_eq!(
        kv.get_child_kvs_by_hash(hash, b"cd").unwrap(),
        Some(vec![(b"k".to_vec(), Some(b"longer".to_vec()))])
    );
}

#[test]
fn a_number_recorded_again_leaves_no_stale_pair() {
    let mut kv = store();
    let h1 = hash_of(1);
    let h2 = hash_of(2);
    kv.set_hash_and_number(h1, 7).unwrap();
    kv.set_hash_and_number(h2, 7).unwrap();
    assert_eq!(kv.get_hash(7).unwrap(), Some(h2));
    assert_eq!(kv.get_number(h2).unwrap(), Some(7));
    assert_eq!(kv.get_number(h1).unwrap(), None);

    kv.set_hash_and_number(h2, 8).unwrap();
    assert_eq!(kv.get_number(h2).unwrap(), Some(8));
    assert_eq!(kv.get_hash(8).unwrap(), Some(h2));
    assert_eq!(kv.get_hash(7).unwrap(), None);

    kv.set_hash_and_number(h1, 7).unwrap();
    kv.set_hash_and_number(h1, 8).unwrap();
    assert_eq!(kv.get_hash(8).unwrap(), Some(h1));
    assert_eq!(kv.get_number(h1).unwrap(), Some(8));
    assert_eq!(kv.get_hash(7).unwrap(), None);
    assert_eq!(kv.get_number(h2).unwrap(), None);

    kv.set_hash_and_number(h1, 8).unwrap();
    assert_eq!(kv.get_hash(8).unwrap(), Some(h1));
    assert_eq!(kv.get_number(h1).unwrap(), Some(8));
}

#[test]
fn staged_writes_are_invisible_before_the_commit() {
    let mut kv = store();
    let hash = hash_of(6);
    let mut t = kv.transaction(hash);
    t.set_kv(b"one", Some(b"1"));
    t.set_kv(b"two", Some(b"2"));
    t.set_child_kv(b"c", b"three", None);
    assert_eq!(t.len(), 3);
    assert_eq!(kv.get(hash, b"one").unwrap(), None);
    assert_eq!(kv.get_kvs_by_hash(hash).unwrap(), None);
    kv.commit(t).unwrap();
    assert_eq!(kv.get(hash, b"one").unwrap(), Some(b"1".to_vec()));
    assert_eq!(kv.get(hash, b"two").unwrap(), Some(b"2".to_vec()));
    assert_eq!(
        kv.get_child_kvs_by_hash(hash, b"c").unwrap(),
        Some(vec![(b"three".to_vec(), None)])
    );
}

#[test]
fn a_later_staged_write_wins() {
    let mut kv = store();
    let hash = hash_of(7);
    let mut t = kv.transaction(hash);
    t.set_kv(b"k", Some(b"first"));
    t.set_kv(b"k", Some(b"second"));
    kv.commit(t).unwrap();
    assert_eq!(kv.get(hash, b"k").unwrap(), Some(b"second".to_vec()));
}

#[test]
fn remove_takes_back_the_first_staged_write() {
    let mut kv = store();
    let hash = hash_of(8);
    let mut t = kv.transaction(hash);
    t.set_kv(b"k", Some(b"first"));
    t.set_kv(b"other", Some(b"kept"));
    t.set_kv(b"k", Some(b"second"));
    t.set_child_kv(b"c", b"k", Some(b"child"));
    t.remove(b"k");
    assert_eq!(t.len(), 3);
    t.remove(b"missing");
    assert_eq!(t.len(), 3);
    t.remove_child(b"k", b"c");
    assert_eq!(t.len(), 3);
    t.remove_child(b"c", b"k");
    assert_eq!(t.len(), 2);
    kv.commit(t).unwrap();
    assert_eq!(kv.get(hash, b"k").unwrap(), Some(b"second".to_vec()));
    assert_eq!(kv.get(hash, b"other").unwrap(), Some(b"kept".to_vec()));
    assert_eq!(kv.get_child(hash, b"c", b"k").unwrap(), None);
}

#[test]
fn clear_discards_all_staged_writes() {
    let mut kv = store();
    let hash = hash_of(9);
    let mut t = kv.transaction(hash);
    t.set_kv(b"k", Some(b"v"));
    t.set_child_kv(b"c", b"k", Some(b"v"));
    t.clear();
    assert_eq!(t.len(), 0);
    kv.commit(t).unwrap();
    assert_eq!(kv.get_kvs_by_hash(hash).unwrap(), None);
}

#[test]
fn a_transaction_knows_its_block() {
    let t = StateKvTransaction::new(hash_of(0x42));
    assert_eq!(t.block_hash(), hash_of(0x42));
    assert_eq!(t.len(), 0);
    let d = StateKvTransaction::default();
    assert_eq!(d.block_hash(), [0u8; 32]);
    assert_eq!(d.len(), 0);
}

#[test]
fn listings_ascend_by_key() {
    let mut kv = store();
    let hash = hash_of(10);
    let mut t = kv.transaction(hash);
    t.set_kv(b"b", Some(b"2"));
    t.set_kv(b"a", Some(b"1"));
    t.set_kv(b"ab", Some(b"3"));
    t.set_kv(b"", Some(b"0"));
    kv.commit(t).unwrap();
    assert_eq!(
        kv.get_kvs_by_hash(hash).unwrap(),
        Some(vec![
            (b"".to_vec(), Some(b"0".to_vec())),
            (b"a".to_vec(), Some(b"1".to_vec())),
            (b"ab".to_vec(), Some(b"3".to_vec())),
            (b"b".to_vec(), Some(b"2".to_vec())),
        ])
    );
}

#[test]
fn concrete_scenario() {
    let mut kv = store();
    let aa = hash_of(0xAA);
    let bb = hash_of(0xBB);
    kv.set_hash_and_number(aa, 1).unwrap();
    let mut t = kv.transaction(aa);
    t.set_kv(b"foo", Some(b"bar"));
    kv.commit(t).unwrap();
    assert_eq!(kv.get(aa, b"foo").unwrap(), Some(b"bar".to_vec()));

    kv.set_hash_and_number(bb, 2).unwrap();
    let mut t = kv.transaction(bb);
    t.set_child_kv(&[0xCC], b"k", Some(b"v"));
    kv.commit(t).unwrap();
    assert_eq!(
        kv.get_child_kvs_by_hash(bb, &[0xCC]).unwrap(),
        Some(vec![(b"k".to_vec(), Some(b"v".to_vec()))])
    );
    assert_eq!(kv.get_kvs_by_hash(bb).unwrap(), None);

    kv.delete_kvs_by_hash(aa).unwrap();
    assert_eq!(kv.get_kvs_by_hash(aa).unwrap(), None);
}

#[test]
fn extrinsic_change_storage() {
    let mut kv = store();
    let json = r#"[{"type":"Put","data":{"key":"0x00","value":null}}]"#;
    kv.set_extrinsic_changes(5, 0, json.to_string()).unwrap();
    assert_eq!(kv.get_extrinsic_changes(5, 0).unwrap(), Some(json.to_string()));
    assert_eq!(kv.get_extrinsic_changes(5, 1).unwrap(), None);
    assert_eq!(kv.get_extrinsic_changes(4, 0).unwrap(), None);
    kv.delete_extrinsic_changes(5, 0).unwrap();
    assert_eq!(kv.get_extrinsic_changes(5, 0).unwrap(), None);
}

#[test]
fn stored_text_keeps_characters_of_several_bytes() {
    let mut kv = store();
    let text = "größe → 大";
    kv.set_contract_tracing(1, 2, text.to_string()).unwrap();
    assert_eq!(kv.get_contract_tracing(1, 2).unwrap(), Some(text.to_string()));
}

#[test]
fn contract_tracing_storage() {
    let mut kv = store();
    kv.set_contract_tracing(7, 0, "zero".to_string()).unwrap();
    kv.set_contract_tracing(7, 1, "one".to_string()).unwrap();
    kv.set_contract_tracing(8, 0, "other".to_string()).unwrap();
    assert_eq!(kv.get_contract_tracing(7, 1).unwrap(), Some("one".to_string()));
    kv.remove_contract_tracing(7, 1).unwrap();
    assert_eq!(kv.get_contract_tracing(7, 1).unwrap(), None);
    assert_eq!(kv.get_contract_tracing(7, 0).unwrap(), Some("zero".to_string()));
    kv.set_contract_tracing(7, 1, "one".to_string()).unwrap();
    kv.remove_contract_tracings_by_number(7).unwrap();
    assert_eq!(kv.get_contract_tracing(7, 0).unwrap(), None);
    assert_eq!(kv.get_contract_tracing(7, 1).unwrap(), None);
    assert_eq!(kv.get_contract_tracing(8, 0).unwrap(), Some("other".to_string()));
}

#[test]
fn hash_and_number_find_each_other() {
    let mut kv = store();
    for n in 1..=5u64 {
        kv.set_hash_and_number(hash_of(n as u8), n).unwrap();
    }
    for n in 1..=5u64 {
        let hash = kv.get_hash(n).unwrap().unwrap();
        assert_eq!(hash, hash_of(n as u8));
        assert_eq!(kv.get_number(hash).unwrap(), Some(n));
        assert_eq!(kv.get_hash(kv.get_number(hash).unwrap().unwrap()).unwrap(), Some(hash));
    }
    assert_eq!(kv.get_hash(6).unwrap(), None);
    assert_eq!(kv.get_number(hash_of(6)).unwrap(), None);
    assert_eq!(kv.get_hash(u64::MAX).unwrap(), None);
}

#[test]
fn revert_removes_one_block_and_only_it() {
    let mut kv = store();
    let mut hashes = Vec::new();
    for n in 1..=10u64 {
        hashes.push(commit_block(&mut kv, n));
    }
    kv.revert_all(5).unwrap();
    let five = hashes[4];
    assert_eq!(kv.get_kvs_by_hash(five).unwrap(), None);
    assert_eq!(kv.get_child_kvs_by_hash(five, b"child").unwrap(), None);
    assert_eq!(kv.get_extrinsic_changes(5, 0).unwrap(), None);
    assert_eq!(kv.get_extrinsic_changes(5, 1).unwrap(), None);
    assert_eq!(kv.get_contract_tracing(5, 0).unwrap(), None);
    assert_eq!(kv.get_hash(5).unwrap(), Some(five));
    assert_eq!(kv.get_number(five).unwrap(), Some(5));
    for n in (1..=10u64).filter(|n| *n != 5) {
        let hash = hashes[(n - 1) as usize];
        assert_eq!(
            kv.get_kvs_by_hash(hash).unwrap(),
            Some(vec![(b"gone".to_vec(), None), (b"key".to_vec(), Some(vec![n as u8]))])
        );
        assert_eq!(
            kv.get_child_kvs_by_hash(hash, b"child").unwrap(),
            Some(vec![(b"k".to_vec(), Some(vec![n as u8, 1]))])
        );
        assert_eq!(kv.get_extrinsic_changes(n, 0).unwrap(), Some(format!("[{}]", n)));
        assert_eq!(kv.get_contract_tracing(n, 0).unwrap(), Some(format!("trace {}", n)));
    }
    kv.revert_all(5).unwrap();
    assert_eq!(kv.get_kvs_by_hash(five).unwrap(), None);
    assert_eq!(kv.get_hash(5).unwrap(), Some(five));
    assert_eq!(kv.get_extrinsic_changes(6, 0).unwrap(), Some("[6]".to_string()));
}

#[test]
fn a_hash_without_a_successor_is_deleted_like_any_other() {
    let last = hash_of(0xff);
    let mut below = hash_of(0xff);
    below[31] = 0xfe;
    let mut kv = store();
    for hash in [last, below] {
        let mut t = kv.transaction(hash);
        t.set_kv(b"a", Some(b"1"));
        t.set_kv(b"b", None);
        t.set_child_kv(b"child", b"k", Some(b"2"));
        kv.commit(t).unwrap();
    }
    kv.delete_kvs_by_hash(last).unwrap();
    assert_eq!(kv.get_kvs_by_hash(last).unwrap(), None);
    assert_eq!(kv.get_child(last, b"child", b"k").unwrap(), Some(b"2".to_vec()));
    assert_eq!(
        kv.get_kvs_by_hash(below).unwrap(),
        Some(vec![(b"a".to_vec(), Some(b"1".to_vec())), (b"b".to_vec(), None)])
    );
    kv.delete_kvs_by_hash(last).unwrap();
    assert_eq!(kv.get_kvs_by_hash(last).unwrap(), None);
    kv.delete_kvs_by_hash(below).unwrap();
    assert_eq!(kv.get_kvs_by_hash(below).unwrap(), None);
    assert_eq!(kv.get_child(below, b"child", b"k").unwrap(), Some(b"2".to_vec()));
}

#[test]
fn a_block_whose_hash_has_no_successor_is_reverted_like_any_other() {
    let last = hash_of(0xff);
    let mut kv = store();
    let kept = commit_block(&mut kv, 1);
    kv.set_hash_and_number(last, 2).unwrap();
    let mut t = kv.transaction(last);
    t.set_kv(b"a", Some(b"1"));
    t.set_kv(b"b", Some(b"2"));
    t.set_child_kv(b"child", b"k", Some(b"3"));
    kv.commit(t).unwrap();
    kv.set_extrinsic_changes(2, 0, "[2]".to_string()).unwrap();
    kv.set_contract_tracing(2, 0, "trace 2".to_string()).unwrap();
    kv.revert_all(2).unwrap();
    assert_eq!(kv.get_kvs_by_hash(last).unwrap(), None);
    assert_eq!(kv.get(last, b"a").unwrap(), None);
    assert_eq!(kv.get_child_kvs_by_hash(last, b"child").unwrap(), None);
    assert_eq!(kv.get_extrinsic_changes(2, 0).unwrap(), None);
    assert_eq!(kv.get_contract_tracing(2, 0).unwrap(), None);
    assert_eq!(kv.get_hash(2).unwrap(), Some(last));
    assert_eq!(
        kv.get_kvs_by_hash(kept).unwrap(),
        Some(vec![(b"gone".to_vec(), None), (b"key".to_vec(), Some(vec![1]))])
    );
    assert_eq!(kv.get_extrinsic_changes(1, 0).unwrap(), Some("[1]".to_string()));
    kv.revert_all(2).unwrap();
    assert_eq!(kv.get_kvs_by_hash(last).unwrap(), None);
}

#[test]
fn the_backend_is_asked_only_for_what_it_can_delete_under() {
    assert!(can_delete_under(&[]));
    assert!(can_delete_under(&[0xff; 16]));
    assert!(!can_delete_under(&[0xff; 17]));
    assert!(!can_delete_under(&[0xff; 32]));
    let mut hash = [0xff; 32];
    hash[20] = 0xfe;
    assert!(can_delete_under(&hash));
    let mut children = vec![0xff; 32];
    children.push(SEPARATOR);
    assert!(can_delete_under(&children));
}

#[test]
fn revert_of_an_unknown_number_fails() {
    let mut kv = store();
    commit_block(&mut kv, 1);
    assert!(matches!(kv.revert_all(2), Err(StateKvError::NoHashForNumber(2))));
    assert_eq!(kv.get_extrinsic_changes(1, 0).unwrap(), Some("[1]".to_string()));
}

#[test]
fn delete_child_kvs_by_hash_removes_one_child() {
    let mut kv = store();
    let hash = hash_of(11);
    let mut t = kv.transaction(hash);
    t.set_child_kv(b"one", b"k", Some(b"1"));
    t.set_child_kv(b"two", b"k", Some(b"2"));
    t.set_kv(b"top", Some(b"t"));
    kv.commit(t).unwrap();
    kv.delete_child_kvs_by_hash(hash, b"one").unwrap();
    assert_eq!(kv.get_child_kvs_by_hash(hash, b"one").unwrap(), None);
    assert_eq!(kv.get_child(hash, b"two", b"k").unwrap(), Some(b"2".to_vec()));
    assert_eq!(kv.get(hash, b"top").unwrap(), Some(b"t".to_vec()));
}

#[test]
fn a_backend_with_too_few_columns_is_refused() {
    assert!(matches!(
        StateKv::new(kvdb_memorydb::create(NUM_COLUMNS - 1)),
        Err(StateKvError::MissingColumns)
    ));
    assert!(StateKv::new(kvdb_memorydb::create(NUM_COLUMNS + 1)).is_ok());
}

#[test]
fn composite_keys_have_their_layout() {
    let hash = hash_of(0x11);
    let mut expected = vec![0x11u8; 32];
    expected.push(b'|');
    expected.extend_from_slice(b"key");
    assert_eq!(real_key(&hash, b"key"), expected);

    let mut expected = vec![0x11u8; 32];
    expected.extend_from_slice(b"|child|key");
    assert_eq!(real_child_key(&hash, b"child", b"key"), expected);

    assert_eq!(
        tracing_key(0x0102030405060708, 0x0a0b0c0d),
        vec![8, 7, 6, 5, 4, 3, 2, 1, b'|', 0x0d, 0x0c, 0x0b, 0x0a]
    );
    assert_eq!(tracing_key(5, 0), vec![5, 0, 0, 0, 0, 0, 0, 0, b'|', 0, 0, 0, 0]);
}

#[test]
fn the_separator_is_checked_when_a_key_is_stripped() {
    assert_eq!(strip_prefix(b"ab|key", 2), Some(b"key".to_vec()));
    assert_eq!(strip_prefix(b"ab|", 2), Some(vec![]));
    assert_eq!(strip_prefix(b"abxkey", 2), None);
    assert_eq!(strip_prefix(b"ab", 2), None);
    assert_eq!(strip_prefix(b"a|b|c", 1), Some(b"b|c".to_vec()));
}

#[test]
fn stored_values_are_tagged() {
    assert_eq!(encode_stored(Some(b"ab")), vec![1, b'a', b'b']);
    assert_eq!(encode_stored(Some(b"")), vec![1]);
    assert_eq!(encode_stored(None), vec![0]);
    assert_eq!(decode_stored(&[1, 7, 8]), Some(Some(vec![7, 8])));
    assert_eq!(decode_stored(&[1]), Some(Some(vec![])));
    assert_eq!(decode_stored(&[0]), Some(None));
    assert_eq!(decode_stored(&[0, 1]), None);
    assert_eq!(decode_stored(&[2]), None);
    assert_eq!(decode_stored(&[]), None);
}

#[test]
fn a_hash_has_its_width() {
    assert_eq!(to_hash(&[7u8; 32]), Some([7u8; 32]));
    assert_eq!(to_hash(&[7u8; 31]), None);
    assert_eq!(to_hash(&[7u8; 33]), None);
}

#[test]
fn import_records_the_block_and_its_changes() {
    let mut client = Client::new(store());
    let hash = hash_of(0x21);
    let main = vec![(b"a".to_vec(), Some(b"1".to_vec())), (b"b".to_vec(), None)];
    let children = vec![
        (b"c1".to_vec(), vec![(b"x".to_vec(), Some(b"9".to_vec()))]),
        (b"c2".to_vec(), vec![(b"y".to_vec(), None), (b"z".to_vec(), Some(vec![]))]),
    ];
    client.notify_imported(hash, 3, &main, &children).unwrap();
    let kv = client.state_kv();
    assert_eq!(kv.get_hash(3).unwrap(), Some(hash));
    assert_eq!(kv.get_number(hash).unwrap(), Some(3));
    assert_eq!(
        kv.get_kvs_by_hash(hash).unwrap(),
        Some(vec![(b"a".to_vec(), Some(b"1".to_vec())), (b"b".to_vec(), None)])
    );
    assert_eq!(
        kv.get_child_kvs_by_hash(hash, b"c1").unwrap(),
        Some(vec![(b"x".to_vec(), Some(b"9".to_vec()))])
    );
    assert_eq!(
        kv.get_child_kvs_by_hash(hash, b"c2").unwrap(),
        Some(vec![(b"y".to_vec(), None), (b"z".to_vec(), Some(vec![]))])
    );
    client.state_kv_mut().set_kv(hash, b"late", Some(b"1")).unwrap();
    assert_eq!(client.state_kv().get(hash, b"late").unwrap(), Some(b"1".to_vec()));
}

#[test]
fn backward_reverts_every_block_above_the_height() {
    let mut kv = store();
    let mut hashes = Vec::new();
    for n in 1..=6u64 {
        hashes.push(commit_block(&mut kv, n));
    }
    backward_to_height(&mut kv, 6, 3).unwrap();
    for n in 4..=6u64 {
        assert_eq!(kv.get_kvs_by_hash(hashes[(n - 1) as usize]).unwrap(), None);
        assert_eq!(kv.get_extrinsic_changes(n, 0).unwrap(), None);
        assert_eq!(kv.get_contract_tracing(n, 0).unwrap(), None);
    }
    for n in 1..=3u64 {
        assert!(kv.get_kvs_by_hash(hashes[(n - 1) as usize]).unwrap().is_some());
        assert_eq!(kv.get_extrinsic_changes(n, 0).unwrap(), Some(format!("[{}]", n)));
    }
}

#[test]
fn backward_refuses_a_bad_target_before_it_changes_anything() {
    let mut kv = store();
    for n in [1u64, 2, 4, 5] {
        commit_block(&mut kv, n);
    }
    assert!(matches!(
        backward_to_height(&mut kv, 5, 5),
        Err(EuropaRpcError::InvalidBackwardHeight(5, 5))
    ));
    assert!(matches!(
        backward_to_height(&mut kv, 5, 7),
        Err(EuropaRpcError::InvalidBackwardHeight(7, 5))
    ));
    assert!(matches!(
        backward_to_height(&mut kv, 5, 1),
        Err(EuropaRpcError::Client(StateKvError::NoHashForNumber(3)))
    ));
    assert_eq!(kv.get_extrinsic_changes(5, 0).unwrap(), Some("[5]".to_string()));
    assert_eq!(kv.get_extrinsic_changes(4, 0).unwrap(), Some("[4]".to_string()));
}

#[test]
fn forward_needs_a_height_above_the_best_block() {
    assert!(matches!(forward_to_height(5, 9), Ok(4)));
    assert!(matches!(forward_to_height(5, 5), Err(EuropaRpcError::InvalidForwardHeight(5, 5))));
    assert!(matches!(forward_to_height(5, 2), Err(EuropaRpcError::InvalidForwardHeight(2, 5))));
}

#[test]
fn state_kvs_answers_for_a_block_or_a_child() {
    let mut kv = store();
    let hash = commit_block(&mut kv, 1);
    let id = NumberOrHash::Number(1);
    assert_eq!(
        state_kvs(&kv, id, Some(hash), None).unwrap(),
        vec![(b"gone".to_vec(), None), (b"key".to_vec(), Some(vec![1]))]
    );
    assert_eq!(
        state_kvs(&kv, id, Some(hash), Some(b"child")).unwrap(),
        vec![(b"k".to_vec(), Some(vec![1, 1]))]
    );
    assert!(matches!(
        state_kvs(&kv, id, None, None),
        Err(EuropaRpcError::InvalidBlockId(NumberOrHash::Number(1)))
    ));
    assert!(matches!(
        state_kvs(&kv, id, Some(hash_of(9)), None),
        Err(EuropaRpcError::NoStateKvs(NumberOrHash::Number(1)))
    ));
    match state_kvs(&kv, id, Some(hash), Some(b"other")) {
        Err(EuropaRpcError::NoChildStateKvs(NumberOrHash::Number(1), root)) => {
            assert_eq!(root, b"other".to_vec())
        }
        _ => panic!("the child has no entries"),
    }
    let by_hash = NumberOrHash::Hash(hash_of(9));
    match state_kvs(&kv, by_hash, Some(hash_of(9)), None) {
        Err(EuropaRpcError::NoStateKvs(NumberOrHash::Hash(named))) => {
            assert_eq!(named, hash_of(9))
        }
        _ => panic!("the block has no entries"),
    }
}

#[test]
fn extrinsic_changes_answers_for_an_extrinsic() {
    let mut kv = store();
    commit_block(&mut kv, 1);
    let id = NumberOrHash::Hash(hash_of(1));
    assert_eq!(extrinsic_changes(&kv, id, Some(1), 0).unwrap(), "[1]".to_string());
    match extrinsic_changes(&kv, id, Some(1), 7) {
        Err(EuropaRpcError::NoExtrinsic(NumberOrHash::Hash(named), 7)) => {
            assert_eq!(named, hash_of(1))
        }
        _ => panic!("the block has no such extrinsic"),
    }
    match extrinsic_changes(&kv, id, None, 0) {
        Err(EuropaRpcError::InvalidBlockId(NumberOrHash::Hash(named))) => {
            assert_eq!(named, hash_of(1))
        }
        _ => panic!("the chain has no such block"),
    }
    assert!(matches!(
        extrinsic_changes(&kv, NumberOrHash::Number(3), None, 0),
        Err(EuropaRpcError::InvalidBlockId(NumberOrHash::Number(3)))
    ));
}

#[test]
fn the_gas_limit_has_a_ceiling() {
    assert_eq!(GAS_LIMIT, 5_000_000_000_000);
    assert_eq!(limit_gas(0), Ok(()));
    assert_eq!(limit_gas(GAS_LIMIT), Ok(()));
    assert_eq!(
        limit_gas(GAS_LIMIT + 1),
        Err(ContractCallError::GasLimitTooHigh(GAS_LIMIT + 1, GAS_LIMIT))
    );
}

#[test]
fn the_tracing_extension_stores_the_trace() {
    let mut ext = ContractTracingDbExt::new(DbRef::new(store()));
    ext.0.set_tracing(3, 1, "trace".to_string()).unwrap();
    ext.store_tracing(3, 2, "other trace".as_bytes()).unwrap();
    ext.store_tracing(3, 3, &[b'a', 0xff, b'b']).unwrap();
    let kv = ext.0.into_inner();
    assert_eq!(kv.get_contract_tracing(3, 1).unwrap(), Some("trace".to_string()));
    assert_eq!(kv.get_contract_tracing(3, 2).unwrap(), Some("other trace".to_string()));
    assert_eq!(kv.get_contract_tracing(3, 3).unwrap(), Some("a\u{fffd}b".to_string()));
}

fn import_through_the_contract<S: europa::statekv::StateKv>(
    store: S,
) -> Result<Option<Vec<u8>>, StateKvError> {
    let mut client = Client::new(store);
    let hash = hash_of(0x31);
    client.notify_imported(hash, 9, &vec![(b"k".to_vec(), Some(b"v".to_vec()))], &Vec::new())?;
    client.state_kv().get(hash, b"k")
}

#[test]
fn the_store_keeps_its_contract() {
    assert_eq!(import_through_the_contract(store()), Ok(Some(b"v".to_vec())));
}

#[test]
fn the_post_header_is_the_later_one() {
    assert_eq!(*PrePostHeader::Same(1u8).post(), 1);
    assert_eq!(*PrePostHeader::Different(1u8, 2u8).post(), 2);
    assert_eq!(PrePostHeader::Same("a").into_post(), "a");
    assert_eq!(PrePostHeader::Different("a", "b").into_post(), "b");
}
