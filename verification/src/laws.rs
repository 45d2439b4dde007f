//! The guarantees this core makes across its operations, proved once and
//! for all schemas and values.

use vstd::prelude::*;

use crate::event::{
    data_count, data_index, spec_data, spec_topics, topic_count, topic_index, FieldDecl,
};
use crate::value::{DynVal, KeyMap, Value};
use crate::wire::{dec_wide, enc_dyn, enc_maps, enc_value, WireView};

verus! {

/// Every field is either a topic field or a data field, never both and
/// never neither: the two counts partition the declaration list.
pub proof fn lemma_field_partition(decls: Seq<FieldDecl>)
    ensures
        topic_count(decls) + data_count(decls) == decls.len(),
    decreases decls.len(),
{
    if decls.len() > 0 {
        lemma_field_partition(decls.drop_last());
    }
}

/// Topic order fidelity: the emitted topic sequence has exactly one entry
/// per topic-marked field, and its `k`-th entry is the encoding of the
/// value of the `k`-th topic-marked field in declaration order, whatever
/// the data fields hold.
pub proof fn lemma_topic_order_fidelity(decls: Seq<FieldDecl>, vals: Seq<Value>, k: int)
    requires
        decls.len() == vals.len(),
    ensures
        spec_topics(decls, vals).len() == topic_count(decls),
        0 <= k < topic_count(decls) ==> {
            let i = topic_index(decls, k);
            &&& 0 <= i < decls.len()
            &&& decls[i].is_topic
            &&& topic_count(decls.take(i)) == k
            &&& spec_topics(decls, vals)[k] == enc_value(vals[i]).unwrap()
        },
    decreases decls.len(),
{
    if decls.len() == 0 {
        return;
    }
    let d = decls.drop_last();
    let v = vals.drop_last();
    lemma_topic_order_fidelity(d, v, k);
    if 0 <= k < topic_count(decls) {
        if decls.last().is_topic && topic_count(d) == k {
            assert(decls.take(decls.len() - 1) =~= d);
        } else {
            let i = topic_index(d, k);
            assert(decls.take(i) =~= d.take(i));
        }
    }
}

/// The index of an earlier topic entry is an earlier declaration: the
/// emitted topic order is the declaration order.
pub proof fn lemma_topic_order_monotone(decls: Seq<FieldDecl>, k1: int, k2: int)
    requires
        0 <= k1 < k2 < topic_count(decls),
    ensures
        topic_index(decls, k1) < topic_index(decls, k2),
    decreases decls.len(),
{
    if decls.len() == 0 {
        return;
    }
    let d = decls.drop_last();
    if decls.last().is_topic && topic_count(d) == k2 {
        lemma_topic_index_in_range(d, k1);
    } else {
        lemma_topic_order_monotone(d, k1, k2);
    }
}

/// A valid topic ordinal points into the declaration list.
pub proof fn lemma_topic_index_in_range(decls: Seq<FieldDecl>, k: int)
    requires
        0 <= k < topic_count(decls),
    ensures
        0 <= topic_index(decls, k) < decls.len(),
    decreases decls.len(),
{
    if decls.len() == 0 {
        return;
    }
    let d = decls.drop_last();
    if decls.last().is_topic && topic_count(d) == k {
    } else {
        lemma_topic_index_in_range(d, k);
    }
}

/// Data completeness: the emitted data container has exactly one entry
/// per non-topic field, and its `k`-th entry carries the declared name
/// and the encoded value of the `k`-th non-topic field in declaration
/// order.
pub proof fn lemma_data_completeness(decls: Seq<FieldDecl>, vals: Seq<Value>, k: int)
    requires
        decls.len() == vals.len(),
    ensures
        spec_data(decls, vals).len() == data_count(decls),
        0 <= k < data_count(decls) ==> {
            let i = data_index(decls, k);
            &&& 0 <= i < decls.len()
            &&& !decls[i].is_topic
            &&& data_count(decls.take(i)) == k
            &&& spec_data(decls, vals)[k] == (decls[i].name@, enc_value(vals[i]).unwrap())
        },
    decreases decls.len(),
{
    if decls.len() == 0 {
        return;
    }
    let d = decls.drop_last();
    let v = vals.drop_last();
    lemma_data_completeness(d, v, k);
    if 0 <= k < data_count(decls) {
        if !decls.last().is_topic && data_count(d) == k {
            assert(decls.take(decls.len() - 1) =~= d);
        } else {
            let i = data_index(d, k);
            assert(decls.take(i) =~= d.take(i));
        }
    }
}

/// The index of an earlier data entry is an earlier declaration: the
/// data container iterates in declaration order.
pub proof fn lemma_data_order_monotone(decls: Seq<FieldDecl>, k1: int, k2: int)
    requires
        0 <= k1 < k2 < data_count(decls),
    ensures
        data_index(decls, k1) < data_index(decls, k2),
    decreases decls.len(),
{
    if decls.len() == 0 {
        return;
    }
    let d = decls.drop_last();
    if !decls.last().is_topic && data_count(d) == k2 {
        lemma_data_index_in_range(d, k1);
    } else {
        lemma_data_order_monotone(d, k1, k2);
    }
}

/// A valid data ordinal points into the declaration list.
pub proof fn lemma_data_index_in_range(decls: Seq<FieldDecl>, k: int)
    requires
        0 <= k < data_count(decls),
    ensures
        0 <= data_index(decls, k) < decls.len(),
    decreases decls.len(),
{
    if decls.len() == 0 {
        return;
    }
    let d = decls.drop_last();
    if !decls.last().is_topic && data_count(d) == k {
    } else {
        lemma_data_index_in_range(d, k);
    }
}

/// A prefix of a schema never has more topic fields than the whole.
pub proof fn lemma_topic_count_take(decls: Seq<FieldDecl>, j: int)
    requires
        0 <= j <= decls.len(),
    ensures
        topic_count(decls.take(j)) <= topic_count(decls),
    decreases decls.len() - j,
{
    if j == decls.len() {
        assert(decls.take(j) =~= decls);
    } else {
        lemma_topic_count_take(decls, j + 1);
        assert(decls.take(j + 1).drop_last() =~= decls.take(j));
        assert(decls.take(j + 1).last() == decls[j]);
    }
}

/// A prefix of a schema never has more data fields than the whole.
pub proof fn lemma_data_count_take(decls: Seq<FieldDecl>, j: int)
    requires
        0 <= j <= decls.len(),
    ensures
        data_count(decls.take(j)) <= data_count(decls),
    decreases decls.len() - j,
{
    if j == decls.len() {
        assert(decls.take(j) =~= decls);
    } else {
        lemma_data_count_take(decls, j + 1);
        assert(decls.take(j + 1).drop_last() =~= decls.take(j));
        assert(decls.take(j + 1).last() == decls[j]);
    }
}

/// No topic field is left out: the `i`-th declaration, if topic-marked,
/// is emitted, at the topic ordinal given by the topic fields before it.
/// Together with `lemma_topic_order_fidelity` this makes the topic
/// sequence exactly the topic-marked fields, in declaration order.
pub proof fn lemma_topic_field_is_emitted(decls: Seq<FieldDecl>, vals: Seq<Value>, i: int)
    requires
        decls.len() == vals.len(),
        0 <= i < decls.len(),
        decls[i].is_topic,
    ensures
        ({
            let k = topic_count(decls.take(i)) as int;
            &&& 0 <= k < topic_count(decls)
            &&& topic_index(decls, k) == i
            &&& spec_topics(decls, vals)[k] == enc_value(vals[i]).unwrap()
        }),
    decreases decls.len(),
{
    let k = topic_count(decls.take(i)) as int;
    let d = decls.drop_last();
    let v = vals.drop_last();
    if i == decls.len() - 1 {
        assert(decls.take(i) =~= d);
    } else {
        assert(decls.take(i) =~= d.take(i));
        lemma_topic_field_is_emitted(d, v, i);
        assert(d.take(i + 1).drop_last() =~= d.take(i));
        assert(d.take(i + 1).last() == decls[i]);
        lemma_topic_count_take(d, i + 1);
        assert(k < topic_count(d));
    }
    lemma_topic_order_fidelity(decls, vals, k);
}

/// No data field is left out: the `i`-th declaration, if not
/// topic-marked, appears in the data container, at the data ordinal
/// given by the data fields before it. Together with
/// `lemma_data_completeness` this makes the data container exactly the
/// non-topic fields, under their names, in declaration order.
pub proof fn lemma_data_field_is_emitted(decls: Seq<FieldDecl>, vals: Seq<Value>, i: int)
    requires
        decls.len() == vals.len(),
        0 <= i < decls.len(),
        !decls[i].is_topic,
    ensures
        ({
            let k = data_count(decls.take(i)) as int;
            &&& 0 <= k < data_count(decls)
            &&& data_index(decls, k) == i
            &&& spec_data(decls, vals)[k] == (decls[i].name@, enc_value(vals[i]).unwrap())
        }),
    decreases decls.len(),
{
    let k = data_count(decls.take(i)) as int;
    let d = decls.drop_last();
    let v = vals.drop_last();
    if i == decls.len() - 1 {
        assert(decls.take(i) =~= d);
    } else {
        assert(decls.take(i) =~= d.take(i));
        lemma_data_field_is_emitted(d, v, i);
        assert(d.take(i + 1).drop_last() =~= d.take(i));
        assert(d.take(i + 1).last() == decls[i]);
        lemma_data_count_take(d, i + 1);
        assert(k < data_count(d));
    }
    lemma_data_completeness(decls, vals, k);
}

/// Nested container encoding: a sequence of composite maps encodes
/// entry by entry, append order preserved, and structurally equal maps
/// encode to structurally equal entries.
pub proof fn lemma_nested_encoding(ms: Seq<KeyMap>)
    ensures
        enc_maps(ms).len() == ms.len(),
        forall|i: int| 0 <= i < ms.len() ==> enc_maps(ms)[i] == ms[i]@,
        forall|i: int, j: int|
            0 <= i < ms.len() && 0 <= j < ms.len() && ms[i]@ == ms[j]@ ==> enc_maps(ms)[i]
                == enc_maps(ms)[j],
{
}

/// Type-erased round trip for a small signed integer: the only dynamic
/// value that encodes to the 32-bit signed wire kind with payload `x` is
/// that same integer under that same kind.
pub proof fn lemma_any_round_trip(x: i32, d: DynVal)
    requires
        enc_dyn(d) == Some(WireView::I32(x)),
    ensures
        d == DynVal::I32(x),
{
}

/// Wide-integer round trip: encoding a 128-bit signed value and decoding
/// the wire form reproduces the exact value, with no precision loss.
pub proof fn lemma_wide_int_round_trip(x: i128)
    ensures
        enc_value(Value::I128(x)) == Some(WireView::I128(x)),
        dec_wide(enc_value(Value::I128(x)).unwrap()) == Some(x),
{
}

} // verus!
