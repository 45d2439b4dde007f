use events::emitter::{DefaultEvent, EventEmitter};
use events::event::{Descriptor, EventInstance, FieldDecl};
use events::publish::{Context, DataEntry};
use events::value::{Address, DynVal, KeyMap, SemType, Value};
use events::wire::{PublishError, WireEntry, WireMap, WireVal};

fn field(name: &str, is_topic: bool, ty: SemType) -> FieldDecl {
    FieldDecl { name: name.to_owned(), is_topic, ty }
}

fn hello_27() -> KeyMap {
    let mut m = KeyMap::new();
    m.set("hello".to_owned(), 27);
    m
}

fn wire_hello_27() -> WireMap {
    WireMap { entries: vec![WireEntry { key: "hello".to_owned(), val: 27 }] }
}

#[test]
fn topic_order_follows_declaration_order() {
    let ev = EventInstance {
        descriptor: Descriptor {
            fields: vec![
                field("a", false, SemType::U32),
                field("b", true, SemType::U32),
                field("c", false, SemType::I128),
                field("d", true, SemType::Addr),
            ],
        },
        vals: vec![
            Value::U32(1),
            Value::U32(2),
            Value::I128(3),
            Value::Addr(Address { id: 9 }),
        ],
    };
    let mut ctx = Context::new(Address { id: 1 });
    assert_eq!(ctx.publish(ev), Ok(()));
    assert_eq!(ctx.log.len(), 1);
    let entry = &ctx.log[0];
    assert_eq!(
        entry.topics,
        vec![WireVal::U32(2), WireVal::Addr(Address { id: 9 })]
    );
}

#[test]
fn data_container_holds_exactly_the_non_topic_fields() {
    let ev = EventInstance {
        descriptor: Descriptor {
            fields: vec![
                field("a", false, SemType::U32),
                field("b", true, SemType::U32),
                field("c", false, SemType::I128),
                field("d", true, SemType::Addr),
            ],
        },
        vals: vec![
            Value::U32(1),
            Value::U32(2),
            Value::I128(3),
            Value::Addr(Address { id: 9 }),
        ],
    };
    let mut ctx = Context::new(Address { id: 1 });
    assert_eq!(ctx.publish(ev), Ok(()));
    let entry = &ctx.log[0];
    assert_eq!(
        entry.data,
        vec![
            DataEntry { name: "a".to_owned(), val: WireVal::U32(1) },
            DataEntry { name: "c".to_owned(), val: WireVal::I128(3) },
        ]
    );
}

#[test]
fn empty_schema_publishes_an_empty_entry() {
    let ev = EventInstance { descriptor: Descriptor { fields: vec![] }, vals: vec![] };
    let mut ctx = Context::new(Address { id: 1 });
    assert_eq!(ctx.publish(ev), Ok(()));
    assert_eq!(ctx.log.len(), 1);
    assert!(ctx.log[0].topics.is_empty());
    assert!(ctx.log[0].data.is_empty());
}

#[test]
fn all_topics_schema_leaves_data_empty() {
    let ev = EventInstance {
        descriptor: Descriptor {
            fields: vec![field("a", true, SemType::U32), field("b", true, SemType::U32)],
        },
        vals: vec![Value::U32(10), Value::U32(11)],
    };
    let mut ctx = Context::new(Address { id: 1 });
    assert_eq!(ctx.publish(ev), Ok(()));
    assert_eq!(ctx.log[0].topics, vec![WireVal::U32(10), WireVal::U32(11)]);
    assert!(ctx.log[0].data.is_empty());
}

#[test]
fn unsupported_any_aborts_without_partial_append() {
    let ev = EventInstance {
        descriptor: Descriptor {
            fields: vec![
                field("a", true, SemType::U32),
                field("bad", false, SemType::Any),
            ],
        },
        vals: vec![Value::U32(1), Value::Any(DynVal::Unsupported)],
    };
    let mut ctx = Context::new(Address { id: 1 });
    assert_eq!(ctx.publish(ev), Err(PublishError::UnsupportedAny));
    assert_eq!(ctx.log_len(), 0);
}

#[test]
fn default_event_abort_leaves_earlier_entries_alone() {
    let mut ctx = Context::new(Address { id: 4 });
    EventEmitter::emit(&mut ctx);
    let bad = DefaultEvent {
        addr: Address { id: 4 },
        num: 1,
        bignum: 0,
        nested: vec![],
        any: DynVal::Unsupported,
    };
    assert_eq!(bad.publish(&mut ctx), Err(PublishError::UnsupportedAny));
    assert_eq!(ctx.log.len(), 1);
}

#[test]
fn end_to_end_default_event() {
    let mut ctx = Context::new(Address { id: 7 });
    EventEmitter::emit(&mut ctx);
    assert_eq!(ctx.log.len(), 1);
    let entry = &ctx.log[0];
    assert_eq!(
        entry.topics,
        vec![WireVal::Addr(Address { id: 7 }), WireVal::U32(2)]
    );
    assert_eq!(
        entry.data,
        vec![
            DataEntry {
                name: "bignum".to_owned(),
                val: WireVal::I128(170141183460469231731687303715884105000),
            },
            DataEntry {
                name: "nested".to_owned(),
                val: WireVal::MapSeq(vec![wire_hello_27(), wire_hello_27()]),
            },
            DataEntry { name: "any".to_owned(), val: WireVal::I32(5) },
        ]
    );
}

#[test]
fn default_event_publish_matches_manual_instance() {
    let mut ctx1 = Context::new(Address { id: 3 });
    let mut ctx2 = Context::new(Address { id: 3 });
    let ev = DefaultEvent {
        addr: Address { id: 3 },
        num: 8,
        bignum: -42,
        nested: vec![hello_27()],
        any: DynVal::I64(-1),
    };
    assert_eq!(ev.publish(&mut ctx1), Ok(()));
    let manual = EventInstance {
        descriptor: Descriptor {
            fields: vec![
                field("addr", true, SemType::Addr),
                field("num", true, SemType::U32),
                field("bignum", false, SemType::I128),
                field("nested", false, SemType::MapSeq),
                field("any", false, SemType::Any),
            ],
        },
        vals: vec![
            Value::Addr(Address { id: 3 }),
            Value::U32(8),
            Value::I128(-42),
            Value::MapSeq(vec![hello_27()]),
            Value::Any(DynVal::I64(-1)),
        ],
    };
    assert_eq!(ctx2.publish(manual), Ok(()));
    assert_eq!(ctx1.log, ctx2.log);
}

#[test]
fn publish_appends_in_call_order() {
    let mut ctx = Context::new(Address { id: 2 });
    for n in 0..3u32 {
        let ev = EventInstance {
            descriptor: Descriptor { fields: vec![field("n", true, SemType::U32)] },
            vals: vec![Value::U32(n)],
        };
        assert_eq!(ctx.publish(ev), Ok(()));
    }
    assert_eq!(ctx.log.len(), 3);
    for n in 0..3u32 {
        assert_eq!(ctx.log[n as usize].topics, vec![WireVal::U32(n)]);
    }
}
