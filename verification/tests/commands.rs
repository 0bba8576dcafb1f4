use europa::codec::BlockHash;
use europa::columns::{STATE_CHILD_KV, STATE_KV};
use europa::db::NUM_COLUMNS;
use europa::engine::StateKv;
use europa::error::StateKvError;
use europa::hex::{decode, encode, HexError};
use europa::params::{
    parse_count, ImportParams, KeepBlocks, PruningError, PruningMode, PruningParams, Role,
    SharedParams,
};
use europa::rpc::NumberOrHash;
use europa::run_cmd::{
    check_node_name, is_node_name_valid, node_name, parse_cors, rpc_interface, Cors, Interface,
    InterfaceError, RpcMethods,
};
use europa::runtime::{
    deposit, EuropaExt, ExtensionCall, ExtensionError, WeightToFee, CENTS, DOLLARS, DOTS,
    MILLICENTS,
};
use europa::proposer::{
    current_number, Admission, MandatoryInherentFailed, Proposing, Pushed, Verdict,
    MAX_SKIPPED_TRANSACTIONS,
};
use europa::sandbox::{
    checked_range, from_ret_val, from_val, from_vals, memory_get, memory_set, to_ret_val, to_val,
    EngineTrapCode, Error, ReturnValue, Trap, TrapCode, Val, Value,
};
use europa::source::{open_plan, DatabaseSource};
use europa::statekv_cmd::{parse_bytes, ParseBytesError, StateKvCmd, StateKvCmdError};
use kvdb::KeyValueDB;
use europa::workspace::{
    remove_name, DefaultCmd, DeleteCmd, Metadata, WorkspaceCmd, WorkspaceSubCmd,
    DEFAULT_WORKSPACE, METADATA_FILE,
};

#[test]
fn tests_node_name_good() {
    assert!(is_node_name_valid("short name").is_ok());
}

#[test]
fn tests_node_name_bad() {
    assert!(is_node_name_valid(
        "very very long names are really not very cool for the ui at all, really they're not"
    )
    .is_err());
    assert!(is_node_name_valid("Dots.not.Ok").is_err());
    assert!(is_node_name_valid("http://visit.me").is_err());
    assert!(is_node_name_valid("https://visit.me").is_err());
    assert!(is_node_name_valid("www.visit.me").is_err());
    assert!(is_node_name_valid("email@domain").is_err());
}

#[test]
fn node_names_are_refused_for_their_reason() {
    assert_eq!(is_node_name_valid(&"a".repeat(63)), Ok(()));
    assert_eq!(is_node_name_valid(&"a".repeat(64)), Err("Node name too long"));
    assert_eq!(is_node_name_valid(&"ä".repeat(63)), Ok(()));
    assert_eq!(
        is_node_name_valid("a.b"),
        Err("Node name should not contain invalid chars such as '.' and '@'")
    );
    assert_eq!(
        is_node_name_valid("back\\slash"),
        Err("Node name should not contain invalid chars such as '.' and '@'")
    );
    assert_eq!(is_node_name_valid("mywwwnode"), Err("Node name should not contain urls"));
    assert_eq!(is_node_name_valid("http://node"), Ok(()));
    assert_eq!(check_node_name(64, false, false), Err("Node name too long"));
    assert_eq!(check_node_name(1, false, true), Err("Node name should not contain urls"));
    assert_eq!(check_node_name(1, false, false), Ok(()));
}

#[test]
fn the_node_name_has_a_default() {
    assert_eq!(node_name(None), Ok("europa-sandbox".to_string()));
    assert_eq!(node_name(Some("mine")), Ok("mine".to_string()));
    assert_eq!(node_name(Some("www")), Err("Node name should not contain urls"));
}

fn origins(cors: Cors) -> Option<Vec<String>> {
    cors.into_origins()
}

#[test]
fn cors_origins_are_split_at_commas() {
    assert_eq!(
        origins(parse_cors("http://a,https://b")),
        Some(vec!["http://a".to_string(), "https://b".to_string()])
    );
    assert_eq!(origins(parse_cors("one")), Some(vec!["one".to_string()]));
    assert_eq!(origins(parse_cors("")), Some(vec!["".to_string()]));
    assert_eq!(
        origins(parse_cors("a,,b,")),
        Some(vec!["a".to_string(), "".to_string(), "b".to_string(), "".to_string()])
    );
    assert_eq!(
        origins(parse_cors("größe,大")),
        Some(vec!["größe".to_string(), "大".to_string()])
    );
    assert_eq!(origins(parse_cors("all")), None);
    assert_eq!(origins(parse_cors("*")), None);
    assert_eq!(origins(parse_cors("http://a,*,b")), None);
    assert_eq!(origins(parse_cors("a,all")), None);
    assert_eq!(origins(parse_cors("ALL")), Some(vec!["ALL".to_string()]));
    assert_eq!(origins(parse_cors("all ")), Some(vec!["all ".to_string()]));
}

#[test]
fn the_interface_follows_the_flags() {
    assert_eq!(rpc_interface(false, false, RpcMethods::Auto, true), Ok(Interface::Localhost));
    assert_eq!(rpc_interface(false, true, RpcMethods::Auto, true), Ok(Interface::Unspecified));
    assert_eq!(rpc_interface(true, false, RpcMethods::Unsafe, true), Ok(Interface::Unspecified));
    assert_eq!(rpc_interface(true, false, RpcMethods::Safe, false), Ok(Interface::Unspecified));
    assert_eq!(
        rpc_interface(true, false, RpcMethods::Auto, true),
        Err(InterfaceError::ExternalOnValidator)
    );
    assert_eq!(
        rpc_interface(true, true, RpcMethods::Safe, true),
        Err(InterfaceError::ExternalOnValidator)
    );
}

fn shared() -> SharedParams {
    SharedParams {
        chain: None,
        base_path: None,
        workspace: None,
        log: Vec::new(),
        disable_log_color: false,
        disable_log_reloading: false,
        tracing_targets: None,
    }
}

#[test]
fn shared_params_hand_out_their_fields() {
    let empty = shared();
    assert_eq!(empty.chain_id(), "");
    assert_eq!(empty.workspace(), None);
    assert!(empty.log_filters().is_empty());
    assert!(!empty.disable_log_color());
    assert!(!empty.is_log_filter_reloading_disabled());
    assert_eq!(empty.tracing_targets(), None);
    let full = SharedParams {
        chain: Some("dev".to_string()),
        base_path: Some(std::path::PathBuf::from("/tmp/base")),
        workspace: Some("mine".to_string()),
        log: vec!["sync=debug".to_string(), "state=trace".to_string()],
        disable_log_color: true,
        disable_log_reloading: true,
        tracing_targets: Some("state,pallet".to_string()),
    };
    assert_eq!(full.chain_id(), "dev");
    assert_eq!(full.workspace(), Some("mine"));
    assert_eq!(full.log_filters(), ["sync=debug".to_string(), "state=trace".to_string()]);
    assert!(full.disable_log_color());
    assert!(full.is_log_filter_reloading_disabled());
    assert_eq!(full.tracing_targets(), Some("state,pallet".to_string()));
    assert_eq!(ImportParams { state_cache_size: 67108864 }.state_cache_size(), 67108864);
}

fn pruning(mode: Option<&str>) -> PruningParams {
    PruningParams { pruning: mode.map(|m| m.to_string()), keep_blocks: None }
}

#[test]
fn the_pruning_mode_follows_the_role() {
    let kept = |n| Ok(PruningMode::Constrained { max_blocks: Some(n) });
    assert_eq!(pruning(None).state_pruning(false, &Role::Authority), Ok(PruningMode::ArchiveAll));
    assert_eq!(pruning(None).state_pruning(false, &Role::Full), kept(256));
    assert_eq!(pruning(None).state_pruning(true, &Role::Light), kept(256));
    assert_eq!(
        pruning(Some("archive")).state_pruning(false, &Role::Authority),
        Ok(PruningMode::ArchiveAll)
    );
    assert_eq!(
        pruning(Some("archive")).state_pruning(false, &Role::Full),
        Ok(PruningMode::ArchiveAll)
    );
    assert_eq!(
        pruning(Some("100")).state_pruning(false, &Role::Authority),
        Err(PruningError::ValidatorMustArchive)
    );
    assert_eq!(pruning(Some("100")).state_pruning(true, &Role::Authority), kept(100));
    assert_eq!(pruning(Some("100")).state_pruning(false, &Role::Full), kept(100));
    assert_eq!(
        pruning(Some("many")).state_pruning(false, &Role::Full),
        Err(PruningError::InvalidMode)
    );
    assert_eq!(
        pruning(Some("Archive")).state_pruning(true, &Role::Authority),
        Err(PruningError::InvalidMode)
    );
    assert!(Role::Authority.is_authority());
    assert!(!Role::Full.is_authority());
}

#[test]
fn kept_blocks_follow_the_parameter() {
    assert_eq!(PruningParams { pruning: None, keep_blocks: None }.keep_blocks(), KeepBlocks::All);
    assert_eq!(
        PruningParams { pruning: None, keep_blocks: Some(7) }.keep_blocks(),
        KeepBlocks::Recent(7)
    );
}

#[test]
fn counts_are_decimal_numbers_of_thirty_two_bits() {
    assert_eq!(parse_count(b"0"), Some(0));
    assert_eq!(parse_count(b"256"), Some(256));
    assert_eq!(parse_count(b"+12"), Some(12));
    assert_eq!(parse_count(b"0012"), Some(12));
    assert_eq!(parse_count(b"4294967295"), Some(4294967295));
    assert_eq!(parse_count(b"4294967296"), None);
    assert_eq!(parse_count(b"99999999999999999999999"), None);
    assert_eq!(parse_count(b""), None);
    assert_eq!(parse_count(b"+"), None);
    assert_eq!(parse_count(b"-1"), None);
    assert_eq!(parse_count(b"1a"), None);
    assert_eq!(parse_count(b" 1"), None);
    for text in ["0", "42", "+42", "4294967295", "4294967296", "", "+", "1_000", "٣"] {
        assert_eq!(parse_count(text.as_bytes()), text.parse::<u32>().ok(), "{}", text);
    }
}

fn metadata(list: Option<&[&str]>, current: Option<&str>) -> Metadata {
    Metadata {
        workspaces: list.map(|l| l.iter().map(|n| n.to_string()).collect()),
        current_workspace: current.map(|c| c.to_string()),
    }
}

fn names(m: &Metadata) -> (Option<Vec<String>>, Option<String>) {
    (m.workspaces.clone(), m.current_workspace.clone())
}

#[test]
fn a_workspace_command_updates_the_record() {
    assert_eq!(METADATA_FILE, "_metadata");
    assert_eq!(DEFAULT_WORKSPACE, "default");
    let before = metadata(Some(&["a", "b", "a", "c"]), Some("a"));
    let list = WorkspaceCmd { shared_params: shared(), subcommand: WorkspaceSubCmd::List };
    assert_eq!(names(&list.update(before.clone())), names(&before));
    assert_eq!(list.removed_workspace(), None);

    let set = WorkspaceCmd {
        shared_params: shared(),
        subcommand: WorkspaceSubCmd::Default(DefaultCmd { default: "new".to_string() }),
    };
    assert_eq!(
        names(&set.update(before.clone())),
        names(&metadata(Some(&["a", "b", "a", "c"]), Some("new")))
    );

    let delete = |name: &str| WorkspaceCmd {
        shared_params: shared(),
        subcommand: WorkspaceSubCmd::Delete(DeleteCmd { deleted: name.to_string() }),
    };
    assert_eq!(
        names(&delete("a").update(before.clone())),
        names(&metadata(Some(&["b", "c"]), None))
    );
    assert_eq!(
        names(&delete("b").update(before.clone())),
        names(&metadata(Some(&["a", "a", "c"]), Some("a")))
    );
    assert_eq!(
        names(&delete("x").update(metadata(None, None))),
        names(&metadata(None, None))
    );
    assert_eq!(delete("a").removed_workspace(), Some("a".to_string()));
    assert_eq!(before.current_or_default(), "a");
    assert_eq!(metadata(None, None).current_or_default(), "default");
    assert_eq!(
        remove_name(&vec!["x".to_string(), "y".to_string(), "x".to_string()], &"x".to_string()),
        vec!["y".to_string()]
    );
}

#[test]
fn values_cross_the_border_unchanged() {
    assert_eq!(from_val(Val::I32(-7)), Some(Value::I32(-7)));
    assert_eq!(from_val(Val::I64(1 << 40)), Some(Value::I64(1 << 40)));
    assert_eq!(from_val(Val::F32(0x3f80_0000)), Some(Value::F32(0x3f80_0000)));
    assert_eq!(from_val(Val::F64(0x3ff0_0000_0000_0000)), Some(Value::F64(0x3ff0_0000_0000_0000)));
    assert_eq!(from_val(Val::V128(1)), None);
    assert_eq!(from_val(Val::FuncRef), None);
    assert_eq!(from_val(Val::ExternRef), None);
    assert_eq!(to_val(Value::I32(5)), Val::I32(5));
    assert_eq!(to_val(Value::I64(-5)), Val::I64(-5));
    assert_eq!(to_val(Value::F32(9)), Val::F32(9));
    assert_eq!(to_val(Value::F64(9)), Val::F64(9));
    assert_eq!(to_ret_val(Val::I32(1)), Some(ReturnValue::Value(Value::I32(1))));
    assert_eq!(to_ret_val(Val::FuncRef), None);
    assert_eq!(from_ret_val(ReturnValue::Unit), None);
    assert_eq!(from_ret_val(ReturnValue::Value(Value::I64(3))), Some(Val::I64(3)));
    assert_eq!(
        from_vals(&vec![Val::I32(1), Val::F64(2)]),
        Some(vec![Value::I32(1), Value::F64(2)])
    );
    assert_eq!(from_vals(&vec![Val::I32(1), Val::ExternRef]), None);
    assert_eq!(from_vals(&Vec::new()), Some(Vec::new()));
}

#[test]
fn traps_keep_their_reason_and_their_lines() {
    let trap = Trap::from_engine(
        Some(EngineTrapCode::IntegerDivisionByZero),
        vec!["wasm trap".to_string(), "  at f".to_string()],
    );
    assert_eq!(trap.code, TrapCode::IntegerDivisionByZero);
    assert_eq!(trap.to_text(), "wasm trap  at f");
    assert_eq!(Trap::from_engine(None, Vec::new()).code, TrapCode::Unknown);
    assert_eq!(Trap::from_engine(None, Vec::new()).to_text(), "");
    assert_eq!(Trap::from_engine(Some(EngineTrapCode::Other), Vec::new()).code, TrapCode::Unknown);
    assert_eq!(
        Trap::from_engine(Some(EngineTrapCode::StackOverflow), Vec::new()).code,
        TrapCode::StackOverflow
    );
    assert_eq!(
        Trap::from_engine(Some(EngineTrapCode::UnreachableCodeReached), Vec::new()).code,
        TrapCode::UnreachableCodeReached
    );
}

#[test]
fn the_deposit_counts_items_and_bytes() {
    assert_eq!(DOTS, 1_000_000_000_000);
    assert_eq!(DOLLARS, DOTS / 100);
    assert_eq!(CENTS, DOLLARS / 100);
    assert_eq!(MILLICENTS, CENTS / 1_000);
    assert_eq!(deposit(0, 0), 0);
    assert_eq!(deposit(1, 0), 200_000_000_000);
    assert_eq!(deposit(0, 1), 10_000_000);
    assert_eq!(deposit(3, 7), 600_070_000_000);
    assert_eq!(
        deposit(u32::MAX, u32::MAX),
        u32::MAX as u128 * 200_000_000_000 + u32::MAX as u128 * 10_000_000
    );
}

#[test]
fn the_fee_polynomial_has_one_term() {
    let c = WeightToFee::polynomial(125_000_000);
    assert_eq!(c.degree, 1);
    assert!(!c.negative);
    assert_eq!(c.coeff_integer, 0);
    assert_eq!(c.coeff_frac_numerator, 100_000_000);
    assert_eq!(c.coeff_frac_denominator, 1_250_000_000);
    let c = WeightToFee::polynomial(1_000_000);
    assert_eq!(c.coeff_integer, 10);
    assert_eq!(c.coeff_frac_numerator, 0);
    let c = WeightToFee::polynomial(3);
    assert_eq!(c.coeff_integer, 3_333_333);
    assert_eq!(c.coeff_frac_numerator, 10);
    assert_eq!(c.coeff_frac_denominator, 30);
}

#[test]
fn the_chain_extension_knows_its_functions() {
    assert_eq!(EuropaExt::call(0x01000000), Ok(ExtensionCall::Curve { weight: 100_000 }));
    assert_eq!(EuropaExt::call(0x01000001), Ok(ExtensionCall::Curve { weight: 8_000_000 }));
    assert_eq!(EuropaExt::call(0x010000fe), Ok(ExtensionCall::Curve { weight: 100_000 }));
    assert_eq!(EuropaExt::call(0x010000ff), Ok(ExtensionCall::Curve { weight: 8_000_000 }));
    assert_eq!(EuropaExt::call(0x01000100), Err(ExtensionError::Unimplemented));
    assert_eq!(EuropaExt::call(0x00ffffff), Err(ExtensionError::Unimplemented));
    assert_eq!(EuropaExt::call(0xfeffff00), Ok(ExtensionCall::Log));
    assert_eq!(EuropaExt::call(0), Err(ExtensionError::Unimplemented));
    assert!(EuropaExt::enabled());
}

#[test]
fn bytes_are_shown_in_hexadecimal_digits() {
    assert_eq!(encode(&[]), "");
    assert_eq!(encode(&[0x00, 0x0f, 0xa5, 0xff]), "000fa5ff");
    assert_eq!(encode(b"kiwi"), "6b697769");
    assert_eq!(decode(b"000fA5ff"), Ok(vec![0x00, 0x0f, 0xa5, 0xff]));
    assert_eq!(decode(b""), Ok(vec![]));
    assert_eq!(decode(b"123"), Err(HexError::OddLength));
    assert_eq!(decode(b"12g4"), Err(HexError::InvalidHexCharacter { c: 'g', index: 2 }));
    assert_eq!(decode(b"x2g4"), Err(HexError::InvalidHexCharacter { c: 'x', index: 0 }));
    assert_eq!(decode(b"1 "), Err(HexError::InvalidHexCharacter { c: ' ', index: 1 }));
}

#[test]
fn a_child_is_named_in_hexadecimal_digits_behind_a_prefix() {
    assert_eq!(parse_bytes("0x"), Ok(vec![]));
    assert_eq!(parse_bytes("0xcc"), Ok(vec![0xcc]));
    assert_eq!(parse_bytes("0x00Ff10"), Ok(vec![0x00, 0xff, 0x10]));
    assert_eq!(parse_bytes("cc"), Err(ParseBytesError::MissingPrefix));
    assert_eq!(parse_bytes(""), Err(ParseBytesError::MissingPrefix));
    assert_eq!(parse_bytes("0Xcc"), Err(ParseBytesError::MissingPrefix));
    assert_eq!(parse_bytes("0xc"), Err(ParseBytesError::Hex(HexError::OddLength)));
    assert_eq!(
        parse_bytes("0xzz"),
        Err(ParseBytesError::Hex(HexError::InvalidHexCharacter { c: 'z', index: 0 }))
    );
}

fn store_with_block(hash: BlockHash, number: u64) -> StateKv {
    let mut kv = StateKv::new(kvdb_memorydb::create(NUM_COLUMNS)).unwrap();
    kv.set_hash_and_number(hash, number).unwrap();
    let mut t = kv.transaction(hash);
    t.set_kv(&[0x01], Some(&[0xab, 0xcd]));
    t.set_kv(&[0x02], None);
    t.set_child_kv(&[0xcc], &[0x03], Some(&[]));
    kv.commit(t).unwrap();
    kv
}

fn command(input: NumberOrHash, child: Option<Vec<u8>>) -> StateKvCmd {
    StateKvCmd {
        input,
        child,
        shared_params: shared(),
        import_params: ImportParams { state_cache_size: 0 },
    }
}

#[test]
fn the_command_shows_the_modified_state() {
    let hash: BlockHash = [0x5a; 32];
    let kv = store_with_block(hash, 4);
    let hex = "5a".repeat(32);

    let report = command(NumberOrHash::Number(4), None).run(&kv).unwrap();
    assert_eq!(report.hash, hash);
    assert_eq!(
        report.lines(None),
        vec![
            format!("modified state for block:0x{}", hex),
            "\tkey:01|value:abcd".to_string(),
            "\tkey:02|value:[DELETED]".to_string(),
        ]
    );

    let report = command(NumberOrHash::Hash(hash), Some(vec![0xcc])).run(&kv).unwrap();
    assert_eq!(
        report.lines(Some(&[0xcc])),
        vec![
            format!("modified state for block:0x{}", hex),
            "\tkey:01|value:abcd".to_string(),
            "\tkey:02|value:[DELETED]".to_string(),
            format!("modified child state for block:0x{}|child:cc", hex),
            "\tkey:03|value:".to_string(),
        ]
    );
}

#[test]
fn the_command_says_what_is_missing() {
    let hash: BlockHash = [0x5a; 32];
    let kv = store_with_block(hash, 4);
    assert!(matches!(
        command(NumberOrHash::Number(5), None).run(&kv),
        Err(StateKvCmdError::NoHashForNumber(5))
    ));
    match command(NumberOrHash::Hash([1; 32]), None).run(&kv) {
        Err(StateKvCmdError::NoState(h)) => assert_eq!(h, [1u8; 32]),
        _ => panic!("the block has no state"),
    }
    match command(NumberOrHash::Number(4), Some(vec![0xdd])).run(&kv) {
        Err(StateKvCmdError::NoChildState(child, found)) => {
            assert_eq!(child, vec![0xdd]);
            assert_eq!(found.hash, hash);
            assert_eq!(found.child_kvs, None);
            assert_eq!(
                found.lines(None),
                vec![
                    format!("modified state for block:0x{}", "5a".repeat(32)),
                    "\tkey:01|value:abcd".to_string(),
                    "\tkey:02|value:[DELETED]".to_string(),
                ]
            );
        }
        _ => panic!("the child has no state"),
    }
}

#[test]
fn the_command_keeps_what_it_found_before_a_malformed_child_entry() {
    let hash: BlockHash = [0x5a; 32];
    let db = kvdb_memorydb::create(NUM_COLUMNS);
    let mut row = hash.to_vec();
    row.extend_from_slice(b"|\xdd|k");
    let mut raw = db.transaction();
    raw.put(STATE_CHILD_KV, &row, &[7]);
    db.write(raw).unwrap();
    let mut kv = StateKv::new(db).unwrap();
    let mut t = kv.transaction(hash);
    t.set_kv(&[0x01], Some(&[0xab]));
    kv.commit(t).unwrap();
    match command(NumberOrHash::Hash(hash), Some(vec![0xdd])).run(&kv) {
        Err(StateKvCmdError::ChildStore(e, found)) => {
            assert_eq!(e, StateKvError::Corrupted);
            assert_eq!(found.hash, hash);
            assert_eq!(found.kvs, vec![(vec![0x01], Some(vec![0xab]))]);
            assert_eq!(found.child_kvs, None);
        }
        _ => panic!("the entry of the child is malformed"),
    }
    let mut bad = hash.to_vec();
    bad.extend_from_slice(b"|k");
    let db = kvdb_memorydb::create(NUM_COLUMNS);
    let mut raw = db.transaction();
    raw.put(STATE_KV, &bad, &[7]);
    db.write(raw).unwrap();
    let kv = StateKv::new(db).unwrap();
    assert!(matches!(
        command(NumberOrHash::Hash(hash), Some(vec![0xdd])).run(&kv),
        Err(StateKvCmdError::Store(StateKvError::Corrupted))
    ));
}

#[test]
fn only_a_rocksdb_database_is_opened() {
    let plan = open_plan(DatabaseSource::RocksDb, false).unwrap();
    assert_eq!(plan.dir_name, "db_state_kv");
    assert_eq!(plan.columns, 9);
    assert!(!plan.secondary);
    let plan = open_plan(DatabaseSource::RocksDb, true).unwrap();
    assert_eq!(plan.dir_name, "db_state_kv");
    assert_eq!(plan.columns, NUM_COLUMNS);
    assert!(plan.secondary);
    assert_eq!(open_plan(DatabaseSource::ParityDb, false).unwrap_err(), "with-parity-db");
    assert_eq!(open_plan(DatabaseSource::Auto, true).unwrap_err(), "auto");
    assert_eq!(open_plan(DatabaseSource::Custom, false).unwrap_err(), "with-custom-db");
}

#[test]
fn a_run_selects_its_workspace() {
    let chosen = metadata(Some(&["a", "b"]), Some("a")).select(Some("c"));
    assert_eq!(names(&chosen), names(&metadata(Some(&["a", "b", "c"]), Some("c"))));
    let kept = metadata(Some(&["a", "b"]), Some("a")).select(None);
    assert_eq!(names(&kept), names(&metadata(Some(&["a", "b"]), Some("a"))));
    let known = metadata(Some(&["a", "b"]), Some("a")).select(Some("b"));
    assert_eq!(names(&known), names(&metadata(Some(&["a", "b"]), Some("b"))));
    let first = metadata(None, None).select(None);
    assert_eq!(names(&first), names(&metadata(Some(&["default"]), Some("default"))));
    let current = metadata(None, Some("x")).select(None);
    assert_eq!(names(&current), names(&metadata(Some(&["x"]), Some("x"))));
    assert!(europa::workspace::has_name(&vec!["a".to_string()], &"a".to_string()));
    assert!(!europa::workspace::has_name(&vec!["a".to_string()], &"b".to_string()));
}

#[test]
fn memory_is_read_and_written_within_its_bounds() {
    assert_eq!(checked_range(2, 3, 5), Some(2..5));
    assert_eq!(checked_range(2, 3, 4), None);
    assert_eq!(checked_range(0, 0, 0), Some(0..0));
    assert_eq!(checked_range(usize::MAX, 1, usize::MAX), None);
    let mut memory = vec![0u8, 1, 2, 3, 4, 5];
    assert_eq!(memory_get(&memory, 1, 3).unwrap(), vec![1, 2, 3]);
    assert_eq!(memory_get(&memory, 6, 0).unwrap(), Vec::<u8>::new());
    assert!(matches!(memory_get(&memory, 4, 3), Err(Error::OutOfBounds)));
    memory_set(&mut memory, 2, &[9, 8]).unwrap();
    assert_eq!(memory, vec![0, 1, 9, 8, 4, 5]);
    assert!(matches!(memory_set(&mut memory, 5, &[7, 7]), Err(Error::OutOfBounds)));
    assert_eq!(memory, vec![0, 1, 9, 8, 4, 5]);
}

#[test]
fn the_proposer_counts_and_skips() {
    assert_eq!(MAX_SKIPPED_TRANSACTIONS, 8);
    assert_eq!(current_number(41), 42);
    assert_eq!(current_number(u32::MAX), 4294967296);
    let mut p = Proposing::new();
    assert_eq!(p.trace_index(), 0);
    assert_eq!(p.after_inherent(Pushed::Done), Ok(()));
    assert_eq!(p.trace_index(), 1);
    assert_eq!(
        p.after_inherent(Pushed::Invalid { exhausted_resources: true, was_mandatory: true }),
        Ok(())
    );
    assert_eq!(p.after_inherent(Pushed::Failed), Ok(()));
    assert_eq!(
        p.after_inherent(Pushed::Invalid { exhausted_resources: false, was_mandatory: false }),
        Ok(())
    );
    assert_eq!(
        p.after_inherent(Pushed::Invalid { exhausted_resources: false, was_mandatory: true }),
        Err(MandatoryInherentFailed)
    );
    assert_eq!(p.trace_index(), 1);

    assert_eq!(p.before_transaction(true, 0, 0, 100), Admission::Stop);
    assert_eq!(p.before_transaction(false, 60, 40, 100), Admission::Push);
    assert_eq!(
        p.after_transaction(Pushed::Failed),
        Verdict { go_on: true, unqueue: true }
    );
    assert_eq!(p.after_transaction(Pushed::Done), Verdict { go_on: true, unqueue: false });
    assert_eq!(p.trace_index(), 2);
    assert!(p.transaction_pushed);
    for skipped in 1..=8 {
        assert_eq!(p.before_transaction(false, 60, 41, 100), Admission::Skip);
        assert_eq!(p.skipped, skipped);
    }
    assert_eq!(
        p.after_transaction(Pushed::Failed),
        Verdict { go_on: true, unqueue: false }
    );
    assert_eq!(
        p.after_transaction(Pushed::Invalid { exhausted_resources: true, was_mandatory: false }),
        Verdict { go_on: false, unqueue: false }
    );
    assert_eq!(p.before_transaction(false, 60, 41, 100), Admission::Stop);
    assert!(p.hit_block_size_limit);
    assert!(!p.hit_limit_without_transaction());

    let mut q = Proposing::new();
    assert_eq!(
        q.after_transaction(Pushed::Invalid { exhausted_resources: true, was_mandatory: false }),
        Verdict { go_on: true, unqueue: false }
    );
    assert_eq!(q.skipped, 1);
    q.skipped = 8;
    assert_eq!(q.before_transaction(false, 1, 1, 1), Admission::Stop);
    assert!(q.hit_limit_without_transaction());
}
