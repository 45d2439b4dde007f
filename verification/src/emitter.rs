//! The default event of this contract and the operation that emits it.
//!
//! The schema has two topic fields (the emitting contract's address and a
//! 32-bit counter) and three data fields (a wide integer, a sequence of
//! composite maps, and a type-erased value), in that declaration order.

use vstd::prelude::*;

use crate::event::{Descriptor, EventInstance, FieldDecl};
use crate::publish::Context;
use crate::value::{Address, DynVal, KeyMap, SemType, Value};
use crate::wire::{enc_dyn, enc_maps, PublishError, WireView};

verus! {

/// One populated record of the default schema.
#[derive(Debug)]
pub struct DefaultEvent {
    pub addr: Address,
    pub num: u32,
    pub bignum: i128,
    pub nested: Vec<KeyMap>,
    pub any: DynVal,
}

/// The field list of the default schema: `addr` and `num` are topics,
/// `bignum`, `nested` and `any` are data fields, in declaration order.
pub open spec fn default_event_decls(fs: Seq<FieldDecl>) -> bool {
    &&& fs.len() == 5
    &&& fs[0].name@ == "addr"@ && fs[0].is_topic && fs[0].ty == SemType::Addr
    &&& fs[1].name@ == "num"@ && fs[1].is_topic && fs[1].ty == SemType::U32
    &&& fs[2].name@ == "bignum"@ && !fs[2].is_topic && fs[2].ty == SemType::I128
    &&& fs[3].name@ == "nested"@ && !fs[3].is_topic && fs[3].ty == SemType::MapSeq
    &&& fs[4].name@ == "any"@ && !fs[4].is_topic && fs[4].ty == SemType::Any
}

impl DefaultEvent {
    /// Every composite map in the record has unique keys.
    pub open spec fn wf(self) -> bool {
        &&& forall|i: int| 0 <= i < self.nested@.len() ==> (#[trigger] self.nested@[i]).wf()
        &&& Value::Any(self.any).wf()
    }

    /// Lay the record out as a populated instance of the default schema.
    pub fn into_instance(self) -> (r: EventInstance)
        requires
            self.wf(),
        ensures
            r.wf(),
            default_event_decls(r.descriptor.fields@),
            r.vals@ == seq![
                Value::Addr(self.addr),
                Value::U32(self.num),
                Value::I128(self.bignum),
                Value::MapSeq(self.nested),
                Value::Any(self.any),
            ],
    {
        let DefaultEvent { addr, num, bignum, nested, any } = self;
        let mut fields: Vec<FieldDecl> = Vec::new();
        fields.push(FieldDecl { name: "addr".to_owned(), is_topic: true, ty: SemType::Addr });
        fields.push(FieldDecl { name: "num".to_owned(), is_topic: true, ty: SemType::U32 });
        fields.push(FieldDecl { name: "bignum".to_owned(), is_topic: false, ty: SemType::I128 });
        fields.push(FieldDecl { name: "nested".to_owned(), is_topic: false, ty: SemType::MapSeq });
        fields.push(FieldDecl { name: "any".to_owned(), is_topic: false, ty: SemType::Any });
        let mut vals: Vec<Value> = Vec::new();
        vals.push(Value::Addr(addr));
        vals.push(Value::U32(num));
        vals.push(Value::I128(bignum));
        vals.push(Value::MapSeq(nested));
        vals.push(Value::Any(any));
        let r = EventInstance { descriptor: Descriptor { fields }, vals };
        proof {
            assert(r.vals@ =~= seq![
                Value::Addr(self.addr),
                Value::U32(self.num),
                Value::I128(self.bignum),
                Value::MapSeq(self.nested),
                Value::Any(self.any),
            ]);
        }
        r
    }

    /// Encode this record under the default schema and append it to the
    /// context's event log as one atomic entry. Fails exactly when the
    /// type-erased field holds an unsupported kind, and then appends
    /// nothing.
    pub fn publish(self, ctx: &mut Context) -> (r: Result<(), PublishError>)
        requires
            self.wf(),
        ensures
            r is Ok <==> enc_dyn(self.any).is_some(),
            r matches Err(e) ==> e == PublishError::UnsupportedAny && *final(ctx) == *old(
                ctx,
            ),
            r is Ok ==> final(ctx).address == old(ctx).address && final(ctx).log@.len()
                == old(ctx).log@.len() + 1 && final(ctx).log@.subrange(
                0,
                old(ctx).log@.len() as int,
            ) == old(ctx).log@ && final(ctx).log@.last().topics_view() == seq![
                WireView::Addr(self.addr),
                WireView::U32(self.num),
            ] && final(ctx).log@.last().data_view() == seq![
                ("bignum"@, WireView::I128(self.bignum)),
                ("nested"@, WireView::MapSeq(enc_maps(self.nested@))),
                ("any"@, enc_dyn(self.any).unwrap()),
            ],
    {
        let ghost g_addr = self.addr;
        let ghost g_num = self.num;
        let ghost g_bignum = self.bignum;
        let ghost g_nested = self.nested;
        let ghost g_any = self.any;
        let ev = self.into_instance();
        proof {
            lemma_default_event_views(ev);
            if enc_dyn(g_any).is_some() {
                assert forall|i: int| 0 <= i < ev.vals@.len() implies crate::wire::value_encodable(
                    #[trigger] ev.vals@[i],
                ) by {
                    assert(ev.vals@ == seq![
                        Value::Addr(g_addr),
                        Value::U32(g_num),
                        Value::I128(g_bignum),
                        Value::MapSeq(g_nested),
                        Value::Any(g_any),
                    ]);
                }
            } else {
                assert(!crate::wire::value_encodable(ev.vals@[4]));
            }
        }
        let r = ctx.publish(ev);
        proof {
            if r is Ok {
                assert(ctx.log@.last().topics_view() =~= seq![
                    WireView::Addr(g_addr),
                    WireView::U32(g_num),
                ]);
                assert(ctx.log@.last().data_view() =~= seq![
                    ("bignum"@, WireView::I128(g_bignum)),
                    ("nested"@, WireView::MapSeq(enc_maps(g_nested@))),
                    ("any"@, enc_dyn(g_any).unwrap()),
                ]);
            }
        }
        r
    }
}

/// The one composite map this contract nests into its default event:
/// `"hello"` bound to `27`.
pub fn hello_map() -> (r: KeyMap)
    ensures
        r@ == seq![("hello"@, 27i64)],
        r.wf(),
{
    let mut m = KeyMap::new();
    m.set("hello".to_owned(), 27);
    proof {
        assert(m@ =~= seq![("hello"@, 27i64)]);
    }
    m
}

/// The contract whose sole operation publishes one default event.
#[derive(Debug)]
pub struct EventEmitter;

impl EventEmitter {
    /// Publish the default event: topics are the contract's own address
    /// and the counter `2`; data fields are the wide integer
    /// `170141183460469231731687303715884105000`, two copies of the
    /// `"hello": 27` map, and a type-erased `5` of the 32-bit signed
    /// kind. Exactly one entry is appended to the context's log.
    pub fn emit(ctx: &mut Context)
        ensures
            final(ctx).address == old(ctx).address,
            final(ctx).log@.len() == old(ctx).log@.len() + 1,
            final(ctx).log@.subrange(0, old(ctx).log@.len() as int) == old(ctx).log@,
            final(ctx).log@.last().topics_view() == seq![
                WireView::Addr(old(ctx).address),
                WireView::U32(2u32),
            ],
            final(ctx).log@.last().data_view() == seq![
                ("bignum"@, WireView::I128(170141183460469231731687303715884105000i128)),
                ("nested"@, WireView::MapSeq(seq![
                    seq![("hello"@, 27i64)],
                    seq![("hello"@, 27i64)],
                ])),
                ("any"@, WireView::I32(5i32)),
            ],
    {
        let mut nested: Vec<KeyMap> = Vec::new();
        nested.push(hello_map());
        nested.push(hello_map());
        let ghost g_nested = nested@;
        let ev = DefaultEvent {
            addr: ctx.current_address(),
            num: 2,
            bignum: 170141183460469231731687303715884105000,
            nested,
            any: DynVal::I32(5),
        };
        proof {
            assert(enc_maps(g_nested) =~= seq![
                seq![("hello"@, 27i64)],
                seq![("hello"@, 27i64)],
            ]);
        }
        let r = ev.publish(ctx);
        match r {
            Ok(u) => u,
            Err(_) => {
                proof {
                    assert(false);
                }
            },
        }
    }
}

/// Unfolds the expected topic sequence and data container of a populated
/// default-schema instance.
proof fn lemma_default_event_views(ev: EventInstance)
    requires
        default_event_decls(ev.descriptor.fields@),
        ev.vals@.len() == 5,
    ensures
        crate::event::spec_topics(ev.descriptor.fields@, ev.vals@) == seq![
            crate::wire::enc_value(ev.vals@[0]).unwrap(),
            crate::wire::enc_value(ev.vals@[1]).unwrap(),
        ],
        crate::event::spec_data(ev.descriptor.fields@, ev.vals@) == seq![
            (ev.descriptor.fields@[2].name@, crate::wire::enc_value(ev.vals@[2]).unwrap()),
            (ev.descriptor.fields@[3].name@, crate::wire::enc_value(ev.vals@[3]).unwrap()),
            (ev.descriptor.fields@[4].name@, crate::wire::enc_value(ev.vals@[4]).unwrap()),
        ],
{
    let fs = ev.descriptor.fields@;
    let vs = ev.vals@;
    let fs4 = fs.drop_last();
    let vs4 = vs.drop_last();
    let fs3 = fs4.drop_last();
    let vs3 = vs4.drop_last();
    let fs2 = fs3.drop_last();
    let vs2 = vs3.drop_last();
    let fs1 = fs2.drop_last();
    let vs1 = vs2.drop_last();
    let fs0 = fs1.drop_last();
    let vs0 = vs1.drop_last();
    assert(fs0.len() == 0);
    assert(crate::event::spec_topics(fs1, vs1) == seq![
        crate::wire::enc_value(vs[0]).unwrap(),
    ]) by {
        assert(crate::event::spec_topics(fs0, vs0) == Seq::<WireView>::empty());
        assert(crate::event::spec_topics(fs1, vs1) =~= Seq::<WireView>::empty().push(
            crate::wire::enc_value(vs[0]).unwrap(),
        ));
    }
    assert(crate::event::spec_topics(fs2, vs2) =~= seq![
        crate::wire::enc_value(vs[0]).unwrap(),
        crate::wire::enc_value(vs[1]).unwrap(),
    ]);
    assert(crate::event::spec_topics(fs3, vs3) == crate::event::spec_topics(fs2, vs2));
    assert(crate::event::spec_topics(fs4, vs4) == crate::event::spec_topics(fs2, vs2));
    assert(crate::event::spec_topics(fs, vs) == crate::event::spec_topics(fs2, vs2));
    assert(crate::event::spec_data(fs2, vs2) == Seq::<(Seq<char>, WireView)>::empty()) by {
        assert(crate::event::spec_data(fs0, vs0) == Seq::<(Seq<char>, WireView)>::empty());
        assert(crate::event::spec_data(fs1, vs1) == Seq::<(Seq<char>, WireView)>::empty());
    }
    assert(crate::event::spec_data(fs3, vs3) =~= seq![
        (fs[2].name@, crate::wire::enc_value(vs[2]).unwrap()),
    ]);
    assert(crate::event::spec_data(fs4, vs4) =~= seq![
        (fs[2].name@, crate::wire::enc_value(vs[2]).unwrap()),
        (fs[3].name@, crate::wire::enc_value(vs[3]).unwrap()),
    ]);
    assert(crate::event::spec_data(fs, vs) =~= seq![
        (fs[2].name@, crate::wire::enc_value(vs[2]).unwrap()),
        (fs[3].name@, crate::wire::enc_value(vs[3]).unwrap()),
        (fs[4].name@, crate::wire::enc_value(vs[4]).unwrap()),
    ]);
}

} // verus!
