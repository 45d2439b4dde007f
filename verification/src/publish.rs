//! The publisher: encodes a populated event and appends it to the
//! execution context's event log as one atomic entry.

use vstd::prelude::*;

use crate::event::{spec_data, spec_topics, EventInstance};
use crate::value::Address;
use crate::wire::{enc_value, encode_value, PublishError, WireVal, WireView};

verus! {

/// One encoded data field: the field's name as key, and its wire form.
#[derive(Debug, PartialEq, Eq)]
pub struct DataEntry {
    pub name: String,
    pub val: WireVal,
}

/// One published event: the filterable topic sequence and the keyed data
/// container.
#[derive(Debug, PartialEq, Eq)]
pub struct EventEntry {
    pub topics: Vec<WireVal>,
    pub data: Vec<DataEntry>,
}

impl EventEntry {
    pub open spec fn topics_view(self) -> Seq<WireView> {
        self.topics@.map_values(|w: WireVal| w@)
    }

    pub open spec fn data_view(self) -> Seq<(Seq<char>, WireView)> {
        self.data@.map_values(|d: DataEntry| (d.name@, d.val@))
    }
}

/// The execution context: the current contract's address identity and the
/// append-only event log of this execution. The core only ever appends to
/// the log, never reads it back.
#[derive(Debug, PartialEq, Eq)]
pub struct Context {
    pub address: Address,
    pub log: Vec<EventEntry>,
}

impl Context {
    pub fn new(address: Address) -> (r: Context)
        ensures
            r.address == address,
            r.log@.len() == 0,
    {
        Context { address, log: Vec::new() }
    }

    /// The current contract's address identity.
    pub fn current_address(&self) -> (r: Address)
        ensures
            r == self.address,
    {
        self.address
    }

    pub fn log_len(&self) -> (r: usize)
        ensures
            r == self.log@.len(),
    {
        self.log.len()
    }

    /// Encode the event and append it to the log as one atomic entry.
    ///
    /// Succeeds exactly when every field value has a wire form. On
    /// success the log grows by exactly the one entry whose topics are
    /// the topic-marked fields in declaration order and whose data
    /// container holds the remaining fields under their names, in
    /// declaration order. On failure nothing is appended and the context
    /// is exactly as it was: no partial entry is ever visible.
    pub fn publish(&mut self, ev: EventInstance) -> (r: Result<(), PublishError>)
        requires
            ev.wf(),
        ensures
            r is Ok <==> ev.encodable(),
            r matches Err(e) ==> e == PublishError::UnsupportedAny && *final(self) == *old(
                self,
            ),
            r is Ok ==> final(self).address == old(self).address && final(self).log@.len()
                == old(self).log@.len() + 1 && final(self).log@.subrange(
                0,
                old(self).log@.len() as int,
            ) == old(self).log@ && final(self).log@.last().topics_view() == spec_topics(
                ev.descriptor.fields@,
                ev.vals@,
            ) && final(self).log@.last().data_view() == spec_data(
                ev.descriptor.fields@,
                ev.vals@,
            ),
    {
        let mut topics: Vec<WireVal> = Vec::new();
        let mut data: Vec<DataEntry> = Vec::new();
        let n = ev.descriptor.fields.len();
        let mut i: usize = 0;
        while i < n
            invariant
                ev.wf(),
                n == ev.descriptor.fields@.len(),
                i <= n,
                topics@.map_values(|w: WireVal| w@) == spec_topics(
                    ev.descriptor.fields@.take(i as int),
                    ev.vals@.take(i as int),
                ),
                data@.map_values(|d: DataEntry| (d.name@, d.val@)) == spec_data(
                    ev.descriptor.fields@.take(i as int),
                    ev.vals@.take(i as int),
                ),
                forall|j: int| 0 <= j < i ==> crate::wire::value_encodable(#[trigger] ev.vals@[j]),
            decreases n - i,
        {
            let w = match encode_value(&ev.vals[i]) {
                Ok(w) => w,
                Err(e) => {
                    proof {
                        assert(!ev.encodable());
                    }
                    return Err(e);
                },
            };
            let ghost pre_topics = topics@;
            let ghost pre_data = data@;
            if ev.descriptor.fields[i].is_topic {
                topics.push(w);
            } else {
                let name = ev.descriptor.fields[i].name.clone();
                data.push(DataEntry { name, val: w });
            }
            proof {
                let fs = ev.descriptor.fields@;
                let vs = ev.vals@;
                let k = i as int;
                assert(fs.take(k + 1).drop_last() =~= fs.take(k));
                assert(vs.take(k + 1).drop_last() =~= vs.take(k));
                assert(fs.take(k + 1).last() == fs[k]);
                assert(vs.take(k + 1).last() == vs[k]);
                if fs[k].is_topic {
                    assert(topics@.map_values(|w: WireVal| w@) =~= pre_topics.map_values(
                        |w: WireVal| w@,
                    ).push(enc_value(vs[k]).unwrap()));
                } else {
                    assert(data@.map_values(|d: DataEntry| (d.name@, d.val@))
                        =~= pre_data.map_values(|d: DataEntry| (d.name@, d.val@)).push(
                        (fs[k].name@, enc_value(vs[k]).unwrap()),
                    ));
                }
            }
            i += 1;
        }
        proof {
            assert(ev.descriptor.fields@.take(n as int) =~= ev.descriptor.fields@);
            assert(ev.vals@.take(n as int) =~= ev.vals@);
        }
        let entry = EventEntry { topics, data };
        self.log.push(entry);
        proof {
            assert(self.log@.subrange(0, old(self).log@.len() as int) =~= old(self).log@);
        }
        Ok(())
    }
}

} // verus!
