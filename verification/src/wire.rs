//! The canonical wire representation of encoded values.
//!
//! Encoding resolves each runtime value to a tagged wire value: addresses
//! keep their ledger identity, integers keep their exact magnitude (the
//! wide 128-bit kind loses no precision), composite maps keep keys, values
//! and insertion order, and a type-erased value is resolved to the wire
//! kind of its payload. A type-erased value of an unsupported kind has no
//! wire form: encoding it fails, and the failure is total, never partial.

use vstd::prelude::*;

use crate::value::{Address, DynVal, KeyMap, Value};

verus! {

/// The one error of this core: a type-erased value whose dynamic kind is
/// outside the supported set cannot be encoded.
#[derive(Clone, Copy, PartialEq, Eq, Structural, Debug)]
pub enum PublishError {
    UnsupportedAny,
}

/// The mathematical shape of an encoded value: what an independent decoder
/// is entitled to read back from the wire.
pub enum WireView {
    Addr(Address),
    U32(u32),
    I32(i32),
    I64(i64),
    I128(i128),
    MapSeq(Seq<Seq<(Seq<char>, i64)>>),
}

/// One encoded key/value pair of a composite map.
#[derive(Debug, PartialEq, Eq)]
pub struct WireEntry {
    pub key: String,
    pub val: i64,
}

/// An encoded composite map: entries in insertion order.
#[derive(Debug, PartialEq, Eq)]
pub struct WireMap {
    pub entries: Vec<WireEntry>,
}

impl View for WireMap {
    type V = Seq<(Seq<char>, i64)>;

    open spec fn view(&self) -> Seq<(Seq<char>, i64)> {
        self.entries@.map_values(|e: WireEntry| (e.key@, e.val))
    }
}

/// An encoded value as it stands in a log entry.
#[derive(Debug, PartialEq, Eq)]
pub enum WireVal {
    Addr(Address),
    U32(u32),
    I32(i32),
    I64(i64),
    I128(i128),
    MapSeq(Vec<WireMap>),
}

impl View for WireVal {
    type V = WireView;

    open spec fn view(&self) -> WireView {
        match *self {
            WireVal::Addr(a) => WireView::Addr(a),
            WireVal::U32(x) => WireView::U32(x),
            WireVal::I32(x) => WireView::I32(x),
            WireVal::I64(x) => WireView::I64(x),
            WireVal::I128(x) => WireView::I128(x),
            WireVal::MapSeq(ms) => WireView::MapSeq(ms@.map_values(|m: WireMap| m@)),
        }
    }
}

/// Canonical encoding of a sequence of composite maps: each map keeps its
/// entries and their order, and the sequence keeps its append order.
pub open spec fn enc_maps(ms: Seq<KeyMap>) -> Seq<Seq<(Seq<char>, i64)>> {
    ms.map_values(|m: KeyMap| m@)
}

/// Canonical encoding of a type-erased value: `None` exactly for the
/// unsupported kind.
pub open spec fn enc_dyn(d: DynVal) -> Option<WireView> {
    match d {
        DynVal::Addr(a) => Some(WireView::Addr(a)),
        DynVal::U32(x) => Some(WireView::U32(x)),
        DynVal::I32(x) => Some(WireView::I32(x)),
        DynVal::I64(x) => Some(WireView::I64(x)),
        DynVal::I128(x) => Some(WireView::I128(x)),
        DynVal::MapSeq(ms) => Some(WireView::MapSeq(enc_maps(ms@))),
        DynVal::Unsupported => None,
    }
}

/// Canonical encoding of a field value: total on every supported semantic
/// type; partial only through a type-erased payload of unsupported kind.
pub open spec fn enc_value(v: Value) -> Option<WireView> {
    match v {
        Value::Addr(a) => Some(WireView::Addr(a)),
        Value::U32(x) => Some(WireView::U32(x)),
        Value::I128(x) => Some(WireView::I128(x)),
        Value::MapSeq(ms) => Some(WireView::MapSeq(enc_maps(ms@))),
        Value::Any(d) => enc_dyn(d),
    }
}

pub open spec fn value_encodable(v: Value) -> bool {
    enc_value(v).is_some()
}

/// Encode one composite map: the wire form reads back exactly as the map.
pub fn encode_map(m: &KeyMap) -> (r: WireMap)
    ensures
        r@ == m@,
{
    let mut entries: Vec<WireEntry> = Vec::new();
    let n = m.entries.len();
    let mut i: usize = 0;
    while i < n
        invariant
            n == m.entries.len(),
            i <= n,
            entries@.len() == i,
            forall|j: int|
                0 <= j < i ==> (#[trigger] entries@[j]).key@ == m.entries@[j].key@
                    && entries@[j].val == m.entries@[j].val,
        decreases n - i,
    {
        let key = m.entries[i].key.clone();
        let val = m.entries[i].val;
        entries.push(WireEntry { key, val });
        i += 1;
    }
    let r = WireMap { entries };
    proof {
        assert(r@ =~= m@);
    }
    r
}

/// Encode a sequence of composite maps, preserving append order.
pub fn encode_maps(ms: &Vec<KeyMap>) -> (r: Vec<WireMap>)
    ensures
        r@.map_values(|m: WireMap| m@) == enc_maps(ms@),
{
    let mut r: Vec<WireMap> = Vec::new();
    let n = ms.len();
    let mut i: usize = 0;
    while i < n
        invariant
            n == ms@.len(),
            i <= n,
            r@.len() == i,
            forall|j: int| 0 <= j < i ==> (#[trigger] r@[j])@ == ms@[j]@,
        decreases n - i,
    {
        let w = encode_map(&ms[i]);
        r.push(w);
        i += 1;
    }
    proof {
        assert(r@.map_values(|m: WireMap| m@) =~= enc_maps(ms@));
    }
    r
}

/// Encode a type-erased value, resolving its kind tag; fails exactly on
/// the unsupported kind, with nothing produced.
pub fn encode_dyn(d: &DynVal) -> (r: Result<WireVal, PublishError>)
    ensures
        r is Ok <==> enc_dyn(*d).is_some(),
        r matches Ok(w) ==> enc_dyn(*d) == Some(w@),
        r matches Err(e) ==> e == PublishError::UnsupportedAny,
{
    match d {
        DynVal::Addr(a) => Ok(WireVal::Addr(*a)),
        DynVal::U32(x) => Ok(WireVal::U32(*x)),
        DynVal::I32(x) => Ok(WireVal::I32(*x)),
        DynVal::I64(x) => Ok(WireVal::I64(*x)),
        DynVal::I128(x) => Ok(WireVal::I128(*x)),
        DynVal::MapSeq(ms) => Ok(WireVal::MapSeq(encode_maps(ms))),
        DynVal::Unsupported => Err(PublishError::UnsupportedAny),
    }
}

/// Encode one field value into its canonical wire form.
pub fn encode_value(v: &Value) -> (r: Result<WireVal, PublishError>)
    ensures
        r is Ok <==> value_encodable(*v),
        r matches Ok(w) ==> enc_value(*v) == Some(w@),
        r matches Err(e) ==> e == PublishError::UnsupportedAny,
{
    match v {
        Value::Addr(a) => Ok(WireVal::Addr(*a)),
        Value::U32(x) => Ok(WireVal::U32(*x)),
        Value::I128(x) => Ok(WireVal::I128(*x)),
        Value::MapSeq(ms) => Ok(WireVal::MapSeq(encode_maps(ms))),
        Value::Any(d) => encode_dyn(d),
    }
}

/// What a decoder reads back from a wire value of the wide-integer kind:
/// the exact 128-bit signed value, or nothing if the kind differs.
pub open spec fn dec_wide(w: WireView) -> Option<i128> {
    match w {
        WireView::I128(x) => Some(x),
        _ => None,
    }
}

/// Decode the wide-integer kind from the wire.
pub fn decode_wide(w: &WireVal) -> (r: Option<i128>)
    ensures
        r == dec_wide(w@),
{
    match w {
        WireVal::I128(x) => Some(*x),
        _ => None,
    }
}

/// Decode one composite map back from the wire.
pub fn decode_map(w: &WireMap) -> (r: KeyMap)
    ensures
        r@ == w@,
{
    let mut entries: Vec<crate::value::KeyEntry> = Vec::new();
    let n = w.entries.len();
    let mut i: usize = 0;
    while i < n
        invariant
            n == w.entries.len(),
            i <= n,
            entries@.len() == i,
            forall|j: int|
                0 <= j < i ==> (#[trigger] entries@[j]).key@ == w.entries@[j].key@
                    && entries@[j].val == w.entries@[j].val,
        decreases n - i,
    {
        let key = w.entries[i].key.clone();
        let val = w.entries[i].val;
        entries.push(crate::value::KeyEntry { key, val });
        i += 1;
    }
    let r = KeyMap { entries };
    proof {
        assert(r@ =~= w@);
    }
    r
}

/// Decode an encoded value back to the type-erased kind and payload it
/// came from: the result re-encodes to exactly the given wire form.
pub fn decode_any(w: &WireVal) -> (d: DynVal)
    ensures
        enc_dyn(d) == Some(w@),
{
    match w {
        WireVal::Addr(a) => DynVal::Addr(*a),
        WireVal::U32(x) => DynVal::U32(*x),
        WireVal::I32(x) => DynVal::I32(*x),
        WireVal::I64(x) => DynVal::I64(*x),
        WireVal::I128(x) => DynVal::I128(*x),
        WireVal::MapSeq(ws) => {
            let mut ms: Vec<KeyMap> = Vec::new();
            let n = ws.len();
            let mut i: usize = 0;
            while i < n
                invariant
                    n == ws@.len(),
                    i <= n,
                    ms@.len() == i,
                    forall|j: int| 0 <= j < i ==> (#[trigger] ms@[j])@ == ws@[j]@,
                decreases n - i,
            {
                let m = decode_map(&ws[i]);
                ms.push(m);
                i += 1;
            }
            proof {
                assert(enc_maps(ms@) =~= ws@.map_values(|m: WireMap| m@));
            }
            DynVal::MapSeq(ms)
        },
    }
}

} // verus!
