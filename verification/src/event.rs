//! Event schemas and populated event instances.
//!
//! A descriptor is an ordered list of field declarations, each classified
//! as a topic field or a data field. The classification and the order are
//! part of the wire contract: an independent decoder must agree on both.

use vstd::prelude::*;

use crate::value::{SemType, Value};
use crate::wire::{enc_value, value_encodable, WireView};

verus! {

/// One field of an event schema: a name (wire-encoded only for data
/// fields, as their key in the data container), a topic/data
/// classification, and a semantic type.
#[derive(Debug)]
pub struct FieldDecl {
    pub name: String,
    pub is_topic: bool,
    pub ty: SemType,
}

/// An event schema: the ordered field list, fixed at construction.
#[derive(Debug)]
pub struct Descriptor {
    pub fields: Vec<FieldDecl>,
}

/// A populated event: one runtime value per declared field, in
/// declaration order. Consumed by value when published.
#[derive(Debug)]
pub struct EventInstance {
    pub descriptor: Descriptor,
    pub vals: Vec<Value>,
}

impl EventInstance {
    /// Every field holds a value of its declared semantic type, and every
    /// composite map inside has unique keys.
    pub open spec fn wf(self) -> bool {
        &&& self.vals@.len() == self.descriptor.fields@.len()
        &&& forall|i: int|
            0 <= i < self.vals@.len() ==> (#[trigger] self.vals@[i]).conforms(
                self.descriptor.fields@[i].ty,
            ) && self.vals@[i].wf()
    }

    /// Every field value has a wire form; this fails only through a
    /// type-erased payload of unsupported kind.
    pub open spec fn encodable(self) -> bool {
        forall|i: int| 0 <= i < self.vals@.len() ==> value_encodable(#[trigger] self.vals@[i])
    }
}

/// The topic sequence an event encodes to: the wire forms of exactly the
/// topic-marked fields, in declaration order.
pub open spec fn spec_topics(decls: Seq<FieldDecl>, vals: Seq<Value>) -> Seq<WireView>
    decreases decls.len(),
{
    if decls.len() == 0 {
        Seq::empty()
    } else {
        let rest = spec_topics(decls.drop_last(), vals.drop_last());
        if decls.last().is_topic {
            rest.push(enc_value(vals.last()).unwrap())
        } else {
            rest
        }
    }
}

/// The data container an event encodes to: the wire forms of exactly the
/// non-topic fields, keyed by field name, in declaration order.
pub open spec fn spec_data(decls: Seq<FieldDecl>, vals: Seq<Value>) -> Seq<
    (Seq<char>, WireView),
>
    decreases decls.len(),
{
    if decls.len() == 0 {
        Seq::empty()
    } else {
        let rest = spec_data(decls.drop_last(), vals.drop_last());
        if !decls.last().is_topic {
            rest.push((decls.last().name@, enc_value(vals.last()).unwrap()))
        } else {
            rest
        }
    }
}

/// The number of topic-marked fields of a schema.
pub open spec fn topic_count(decls: Seq<FieldDecl>) -> nat
    decreases decls.len(),
{
    if decls.len() == 0 {
        0
    } else {
        topic_count(decls.drop_last()) + if decls.last().is_topic {
            1nat
        } else {
            0nat
        }
    }
}

/// The number of data (non-topic) fields of a schema.
pub open spec fn data_count(decls: Seq<FieldDecl>) -> nat
    decreases decls.len(),
{
    if decls.len() == 0 {
        0
    } else {
        data_count(decls.drop_last()) + if decls.last().is_topic {
            0nat
        } else {
            1nat
        }
    }
}

/// The declaration index of the `k`-th topic-marked field.
pub open spec fn topic_index(decls: Seq<FieldDecl>, k: int) -> int
    decreases decls.len(),
{
    if decls.len() == 0 {
        0
    } else if decls.last().is_topic && topic_count(decls.drop_last()) == k {
        decls.len() - 1
    } else {
        topic_index(decls.drop_last(), k)
    }
}

/// The declaration index of the `k`-th data (non-topic) field.
pub open spec fn data_index(decls: Seq<FieldDecl>, k: int) -> int
    decreases decls.len(),
{
    if decls.len() == 0 {
        0
    } else if !decls.last().is_topic && data_count(decls.drop_last()) == k {
        decls.len() - 1
    } else {
        data_index(decls.drop_last(), k)
    }
}

} // verus!
