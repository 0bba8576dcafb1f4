use europa::block_tracing::events::{
    Append, ClearChildPrefix, ClearPrefix, Event, KillChild, Put, PutChild,
};
use europa::block_tracing::grouping::{count_group, largest_group_id, parse, TraceFields};
use europa::block_tracing::subscriber::{parse_target, ExtrinsicSubscriber, Level};
use europa::block_tracing::parser::{
    parse_event, parse_id, parse_message, parse_message_bytes, parse_opt_val, Message,
};

#[test]
fn test_opt_val_parser() {
    let parsed = parse_opt_val("None");
    assert_eq!(parsed, None);
    let parsed = parse_opt_val("Some()");
    assert_eq!(parsed, None);
    let parsed = parse_opt_val("Some(0000abcd)");
    assert_eq!(parsed, Some(b"0000abcd".to_vec()));
}

#[test]
fn test_message_parser() {
    let parsed = parse_message("0001: PutChild(0002) 0003=Some(0004)");
    assert_eq!(
        parsed,
        Some(Message {
            id: 1,
            event: Event::PutChild(PutChild {
                child_id: b"0002".to_vec(),
                key: b"0003".to_vec(),
                value: Some(b"0004".to_vec()),
            })
        })
    );

    let parsed = parse_message("0001: KillChild(0002)");
    assert_eq!(
        parsed,
        Some(Message {
            id: 1,
            event: Event::KillChild(KillChild { child_id: b"0002".to_vec() })
        })
    );

    let parsed = parse_message("0001: ClearPrefix 0002");
    assert_eq!(
        parsed,
        Some(Message {
            id: 1,
            event: Event::ClearPrefix(ClearPrefix { prefix: b"0002".to_vec() })
        })
    );

    let parsed = parse_message("0001: ClearChildPrefix(0002) 0003");
    assert_eq!(
        parsed,
        Some(Message {
            id: 1,
            event: Event::ClearChildPrefix(ClearChildPrefix {
                child_id: b"0002".to_vec(),
                prefix: b"0003".to_vec(),
            })
        })
    );

    let parsed = parse_message("533a: Append 0002=0003");
    assert_eq!(
        parsed,
        Some(Message {
            id: 21306,
            event: Event::Append(Append { key: b"0002".to_vec(), append: b"0003".to_vec() })
        })
    );

    let parsed = parse_message("0001: Append 0002 0003");
    assert_eq!(parsed, Some(Message { id: 1, event: Event::NotConcerned }));
}

#[test]
fn messages_without_an_id_or_an_event_do_not_parse() {
    assert_eq!(parse_message(""), None);
    assert_eq!(parse_message("no colon at all"), None);
    assert_eq!(parse_message(": KillChild(00)"), None);
    assert_eq!(parse_message("0001:"), None);
    assert_eq!(parse_message("0001:   \t\r\n"), None);
    assert_eq!(
        parse_message("0001:KillChild(00)"),
        Some(Message { id: 1, event: Event::KillChild(KillChild { child_id: b"00".to_vec() }) })
    );
    assert_eq!(
        parse_message_bytes(b"0002: \n KillChild(00)"),
        Some(Message { id: 2, event: Event::KillChild(KillChild { child_id: b"00".to_vec() }) })
    );
}

#[test]
fn other_events_are_of_no_concern() {
    for text in [
        "Root 00",
        "Hash 00=None",
        "PutChild",
        "PutChild() 00=None",
        "PutChild(00)00=None",
        "PutChild(00) 00=Nothing",
        "PutChild(00) =None",
        "PutChild(00) 00=Some()",
        "KillChild",
        "KillChild(",
        "KillChild()",
        "KillChild(00",
        "ClearPrefix",
        "ClearPrefix00",
        "ClearPrefix xyz",
        "ClearChildPrefix(00) ",
        "ClearChildPrefix(00) g",
        "Append",
        "Append00=11",
        "Append =11",
        " KillChild(00)",
    ] {
        assert_eq!(parse_event(text.as_bytes()), Event::NotConcerned, "{}", text);
    }
}

#[test]
fn events_take_what_their_form_says() {
    assert_eq!(
        parse_event(b"PutChild(00) 11=None rest"),
        Event::PutChild(PutChild { child_id: b"00".to_vec(), key: b"11".to_vec(), value: None })
    );
    assert_eq!(
        parse_event(b"PutChild(a b) \t k y=Some(v)"),
        Event::PutChild(PutChild {
            child_id: b"a b".to_vec(),
            key: b"k y".to_vec(),
            value: Some(b"v".to_vec())
        })
    );
    assert_eq!(
        parse_event(b"ClearPrefix 00ffAaxyz"),
        Event::ClearPrefix(ClearPrefix { prefix: b"00ffAa".to_vec() })
    );
    assert_eq!(
        parse_event(b"Append k=a=b c"),
        Event::Append(Append { key: b"k".to_vec(), append: b"a=b c".to_vec() })
    );
    assert_eq!(
        parse_event(b"Append k="),
        Event::Append(Append { key: b"k".to_vec(), append: vec![] })
    );
    assert_eq!(
        parse_event("KillChild(größe)".as_bytes()),
        Event::KillChild(KillChild { child_id: "größe".as_bytes().to_vec() })
    );
}

#[test]
fn ids_are_hexadecimal_numbers_of_sixteen_bits() {
    assert_eq!(parse_id(b"0"), 0);
    assert_eq!(parse_id(b"0001"), 1);
    assert_eq!(parse_id(b"533a"), 21306);
    assert_eq!(parse_id(b"533A"), 21306);
    assert_eq!(parse_id(b"ffff"), 65535);
    assert_eq!(parse_id(b"0000ffff"), 65535);
    assert_eq!(parse_id(b"+1f"), 31);
    assert_eq!(parse_id(b"10000"), 0);
    assert_eq!(parse_id(b"fffffffffffffffffffff"), 0);
    assert_eq!(parse_id(b""), 0);
    assert_eq!(parse_id(b"+"), 0);
    assert_eq!(parse_id(b"-1"), 0);
    assert_eq!(parse_id(b"12 "), 0);
    assert_eq!(parse_id(b"0x12"), 0);
    assert_eq!(parse_id(b"1g"), 0);
    for text in ["0", "7b", "+7B", "ffff", "10000", "", "+", "++1", "zz", "00012"] {
        assert_eq!(
            parse_id(text.as_bytes()),
            u16::from_str_radix(text, 16).unwrap_or_default(),
            "{}",
            text
        );
    }
}

fn fields() -> TraceFields {
    TraceFields { method: None, key: None, value: None, ext_id: None, message: None }
}

#[test]
fn a_put_is_read_from_the_fields() {
    let event = TraceFields {
        method: Some("Put".to_string()),
        key: Some("3a65".to_string()),
        value: Some("Some(00000000)".to_string()),
        ext_id: Some(0x1_0007),
        ..fields()
    };
    assert_eq!(
        Message::from(event),
        Message {
            id: 7,
            event: Event::Put(Put { key: b"3a65".to_vec(), value: Some(b"00000000".to_vec()) })
        }
    );
    let event = TraceFields {
        method: Some("Put".to_string()),
        key: Some("3a65".to_string()),
        value: Some("None".to_string()),
        ..fields()
    };
    assert_eq!(
        Message::from(event),
        Message { id: 0, event: Event::Put(Put { key: b"3a65".to_vec(), value: None }) }
    );
}

#[test]
fn other_methods_and_texts_give_the_default_message() {
    let get = TraceFields {
        method: Some("Get".to_string()),
        message: Some("0001: KillChild(00)".to_string()),
        ..fields()
    };
    assert_eq!(Message::from(get), Message::default());
    assert_eq!(Message::from(fields()), Message::default());
    let bad = TraceFields { message: Some("no message".to_string()), ..fields() };
    assert_eq!(Message::from(bad), Message { id: 0, event: Event::NotConcerned });
    let kill = TraceFields { message: Some("00a1: KillChild(00)".to_string()), ..fields() };
    assert_eq!(
        Message::from(kill),
        Message { id: 0xa1, event: Event::KillChild(KillChild { child_id: b"00".to_vec() }) }
    );
}

fn kill(id: u16, child: &[u8]) -> Message {
    Message { id, event: Event::KillChild(KillChild { child_id: child.to_vec() }) }
}

fn idle(id: u16) -> Message {
    Message { id, event: Event::NotConcerned }
}

#[test]
fn the_largest_group_is_picked() {
    let msgs = vec![kill(2, b"a"), idle(1), kill(1, b"b"), kill(2, b"c"), idle(1), idle(1)];
    assert_eq!(count_group(&msgs, 1), 1);
    assert_eq!(count_group(&msgs, 2), 2);
    assert_eq!(count_group(&msgs, 3), 0);
    assert_eq!(largest_group_id(&msgs), Some(2));
    assert_eq!(
        parse(msgs),
        vec![
            Event::KillChild(KillChild { child_id: b"a".to_vec() }),
            Event::KillChild(KillChild { child_id: b"c".to_vec() }),
        ]
    );
}

#[test]
fn among_groups_of_one_size_the_smallest_id_is_picked() {
    let msgs = vec![kill(9, b"a"), kill(4, b"b"), kill(9, b"c"), kill(4, b"d"), kill(7, b"e")];
    assert_eq!(largest_group_id(&msgs), Some(4));
    assert_eq!(
        parse(msgs),
        vec![
            Event::KillChild(KillChild { child_id: b"b".to_vec() }),
            Event::KillChild(KillChild { child_id: b"d".to_vec() }),
        ]
    );
}

#[test]
fn no_message_of_concern_gives_no_event() {
    assert_eq!(largest_group_id(&vec![idle(1), idle(2)]), None);
    assert_eq!(parse(vec![idle(1), idle(2)]), Vec::<Event>::new());
    assert_eq!(parse(Vec::new()), Vec::<Event>::new());
    assert!(!Event::NotConcerned.is_concerned());
    assert!(Event::KillChild(KillChild { child_id: vec![] }).is_concerned());
}

#[test]
fn targets_are_names_with_a_level() {
    assert_eq!(parse_target("state"), ("state".to_string(), Level::Trace));
    assert_eq!(parse_target("state=debug"), ("state".to_string(), Level::Debug));
    assert_eq!(parse_target("state=INFO"), ("state".to_string(), Level::Info));
    assert_eq!(parse_target("state=1"), ("state".to_string(), Level::Error));
    assert_eq!(parse_target("state=2"), ("state".to_string(), Level::Warn));
    assert_eq!(parse_target("state=loud"), ("state".to_string(), Level::Trace));
    assert_eq!(parse_target("state="), ("state".to_string(), Level::Trace));
    assert_eq!(parse_target("a=b=warn"), ("a".to_string(), Level::Trace));
    assert_eq!(parse_target("=warn"), ("".to_string(), Level::Warn));
    assert_eq!(parse_target(""), ("".to_string(), Level::Trace));
    assert_eq!(parse_target("größe=error"), ("größe".to_string(), Level::Error));
    assert_eq!(Level::Error.rank(), 1);
    assert_eq!(Level::Trace.rank(), 5);
}

#[test]
fn a_recorder_has_the_targets_of_its_list() {
    let s = ExtrinsicSubscriber::new("state,pallet=info");
    assert_eq!(
        s.targets,
        vec![
            ("state".to_string(), Level::Trace),
            ("pallet".to_string(), Level::Info),
            ("wasm_tracing".to_string(), Level::Trace),
        ]
    );
    assert!(s.events.is_empty());
    assert_eq!(
        ExtrinsicSubscriber::new("").targets,
        vec![("".to_string(), Level::Trace), ("wasm_tracing".to_string(), Level::Trace)]
    );
}

#[test]
fn events_are_recorded_for_their_level_and_target() {
    let mut s = ExtrinsicSubscriber::new("state,pallet=info");
    assert!(s.self_enabled(Level::Trace, "state"));
    assert!(s.self_enabled(Level::Error, "state_machine"));
    assert!(!s.self_enabled(Level::Trace, "stat"));
    assert!(s.self_enabled(Level::Info, "pallet_contracts"));
    assert!(s.self_enabled(Level::Warn, "pallet"));
    assert!(!s.self_enabled(Level::Debug, "pallet"));
    assert!(s.self_enabled(Level::Trace, "wasm_tracing"));
    assert!(!s.self_enabled(Level::Error, "other"));

    let kill = TraceFields { message: Some("0001: KillChild(00)".to_string()), ..fields() };
    s.event(Level::Trace, "state", kill);
    s.event(Level::Debug, "pallet", fields());
    s.event(Level::Error, "other", fields());
    assert_eq!(s.events.len(), 1);
    let recorded = s.drain();
    assert_eq!(recorded.len(), 1);
    assert_eq!(recorded[0].message, Some("0001: KillChild(00)".to_string()));
    assert!(s.events.is_empty());
    assert_eq!(s.targets.len(), 3);
    let messages = recorded.into_iter().map(Message::from).collect();
    assert_eq!(parse(messages), vec![Event::KillChild(KillChild { child_id: b"00".to_vec() })]);
}
