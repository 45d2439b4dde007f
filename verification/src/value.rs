//! Runtime values that can occupy a field of an event: ledger addresses,
//! fixed-width integers, a wide (128-bit) integer, ordered key/value maps,
//! and a type-erased variant resolved only at encode time.

use vstd::prelude::*;

verus! {

/// An opaque ledger identity handle. The host assigns the numeric identity;
/// this core only carries it through into the encoded event.
#[derive(Clone, Copy, PartialEq, Eq, Structural, Debug)]
pub struct Address {
    pub id: u64,
}

/// One key/value pair of a composite map: a short text key and a 64-bit
/// signed integer value.
#[derive(Debug, PartialEq, Eq)]
pub struct KeyEntry {
    pub key: String,
    pub val: i64,
}

/// A composite map from short text keys to 64-bit signed integers.
/// Keys are unique and insertion order is preserved for iteration.
#[derive(Debug, PartialEq, Eq)]
pub struct KeyMap {
    pub entries: Vec<KeyEntry>,
}

impl View for KeyMap {
    type V = Seq<(Seq<char>, i64)>;

    open spec fn view(&self) -> Seq<(Seq<char>, i64)> {
        self.entries@.map_values(|e: KeyEntry| (e.key@, e.val))
    }
}

impl KeyMap {
    /// Key uniqueness: no two entries share a key.
    pub open spec fn wf(self) -> bool {
        forall|i: int, j: int|
            0 <= i < j < self@.len() ==> self@[i].0 != self@[j].0
    }

    pub open spec fn spec_contains_key(self, k: Seq<char>) -> bool {
        exists|i: int| 0 <= i < self@.len() && self@[i].0 == k
    }

    pub fn new() -> (r: KeyMap)
        ensures
            r@ == Seq::<(Seq<char>, i64)>::empty(),
            r.wf(),
    {
        KeyMap { entries: Vec::new() }
    }

    pub fn len(&self) -> (r: usize)
        ensures
            r == self@.len(),
    {
        self.entries.len()
    }

    /// Look a key up: the value stored under it, or nothing if the key
    /// is absent.
    pub fn get(&self, key: &String) -> (r: Option<i64>)
        requires
            self.wf(),
        ensures
            r is Some <==> self.spec_contains_key(key@),
            forall|i: int|
                0 <= i < self@.len() && self@[i].0 == key@ ==> r == Some(self@[i].1),
    {
        let n = self.entries.len();
        let mut i: usize = 0;
        while i < n
            invariant
                n == self.entries.len(),
                i <= n,
                self.wf(),
                forall|j: int| 0 <= j < i ==> self@[j].0 != key@,
            decreases n - i,
        {
            if self.entries[i].key == *key {
                proof {
                    assert(self@[i as int].0 == key@);
                    assert forall|k: int|
                        0 <= k < self@.len() && self@[k].0 == key@ implies k == i as int by {
                        if k < i as int {
                            assert(self@[k].0 != self@[i as int].0);
                        } else if k > i as int {
                            assert(self@[i as int].0 != self@[k].0);
                        }
                    }
                }
                return Some(self.entries[i].val);
            }
            i += 1;
        }
        None
    }

    /// Insert or update: an existing key keeps its position and takes the
    /// new value; a fresh key is appended at the end.
    pub fn set(&mut self, key: String, val: i64)
        requires
            old(self).wf(),
        ensures
            final(self).wf(),
            forall|i: int|
                0 <= i < old(self)@.len() && old(self)@[i].0 == key@
                    ==> final(self)@ == old(self)@.update(i, (key@, val)),
            !old(self).spec_contains_key(key@)
                ==> final(self)@ == old(self)@.push((key@, val)),
    {
        let n = self.entries.len();
        let mut i: usize = 0;
        while i < n
            invariant
                n == self.entries.len(),
                i <= n,
                *self == *old(self),
                old(self).wf(),
                forall|j: int| 0 <= j < i ==> self@[j].0 != key@,
            decreases n - i,
        {
            if self.entries[i].key == key {
                proof {
                    assert(old(self)@[i as int].0 == key@);
                }
                self.entries.remove(i);
                self.entries.insert(i, KeyEntry { key, val });
                proof {
                    let target = old(self)@.update(i as int, (key@, val));
                    assert forall|j: int| 0 <= j < self@.len() implies self@[j]
                        == target[j] by {
                        assert(self.entries@[j] == if j == i as int {
                            KeyEntry { key, val }
                        } else {
                            old(self).entries@[j]
                        });
                    }
                    assert(self@ =~= target);
                    assert forall|a: int, b: int| 0 <= a < b < self@.len() implies self@[a].0
                        != self@[b].0 by {
                        assert(old(self)@[a].0 != old(self)@[b].0);
                    }
                    assert forall|k: int|
                        0 <= k < old(self)@.len() && old(self)@[k].0 == key@ implies final(self)@
                        == old(self)@.update(k, (key@, val)) by {
                        if k < i as int {
                            assert(old(self)@[k].0 != old(self)@[i as int].0);
                        } else if k > i as int {
                            assert(old(self)@[i as int].0 != old(self)@[k].0);
                        }
                    }
                    assert(old(self).spec_contains_key(key@));
                }
                return;
            }
            i += 1;
        }
        self.entries.push(KeyEntry { key, val });
        proof {
            assert(self@ =~= old(self)@.push((key@, val)));
            assert forall|a: int, b: int| 0 <= a < b < self@.len() implies self@[a].0
                != self@[b].0 by {
                if b == self@.len() - 1 {
                    assert(self@[a] == old(self)@[a]);
                } else {
                    assert(old(self)@[a].0 != old(self)@[b].0);
                }
            }
        }
    }
}

/// A type-erased value: a kind tag plus payload, resolved to a concrete
/// encoding only when the holding field is visited at encode time.
/// `Unsupported` stands for a dynamic value outside the supported kind set;
/// encoding it is a fatal, atomic failure of the whole publish.
#[derive(Debug, PartialEq, Eq)]
pub enum DynVal {
    Addr(Address),
    U32(u32),
    I32(i32),
    I64(i64),
    I128(i128),
    MapSeq(Vec<KeyMap>),
    Unsupported,
}

/// A runtime value conforming to one of the semantic field types.
#[derive(Debug, PartialEq, Eq)]
pub enum Value {
    /// An opaque ledger identity.
    Addr(Address),
    /// A 32-bit unsigned integer, wire-encoded fixed-width.
    U32(u32),
    /// A wide (128-bit signed) integer, wire-encoded as 16-byte
    /// two's complement; values beyond 64-bit range are kept exactly.
    I128(i128),
    /// An ordered sequence of composite maps, append order preserved.
    MapSeq(Vec<KeyMap>),
    /// A type-erased value.
    Any(DynVal),
}

/// The semantic type a field is declared with.
#[derive(Clone, Copy, PartialEq, Eq, Structural, Debug)]
pub enum SemType {
    Addr,
    U32,
    I128,
    MapSeq,
    Any,
}

impl Value {
    /// Type conformance of a runtime value to a declared semantic type.
    pub open spec fn conforms(self, t: SemType) -> bool {
        match t {
            SemType::Addr => self is Addr,
            SemType::U32 => self is U32,
            SemType::I128 => self is I128,
            SemType::MapSeq => self is MapSeq,
            SemType::Any => self is Any,
        }
    }

    /// Every composite map inside the value has unique keys.
    pub open spec fn wf(self) -> bool {
        match self {
            Value::MapSeq(ms) => forall|i: int| 0 <= i < ms@.len() ==> (#[trigger] ms@[i]).wf(),
            Value::Any(DynVal::MapSeq(ms)) => forall|i: int|
                0 <= i < ms@.len() ==> (#[trigger] ms@[i]).wf(),
            _ => true,
        }
    }
}

} // verus!
