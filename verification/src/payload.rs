//! Payload values of the vector store.
//!
//! A stored point carries a payload: a map from field names to typed
//! values.  The store's wire format represents a value as a tagged union
//! (absent, double, integer, string, boolean, list, map); the in-memory
//! model mirrors it with an explicit `Not` variant for an absent or
//! unrecognized tag, so converting a payload to the wire form and back
//! never silently drops a field.  Doubles are carried as their IEEE-754
//! bit patterns, which keeps the conversion exact.

use vstd::prelude::*;
use vstd::string::*;

verus! {

/// The mathematical model of an in-memory payload value.
#[verifier::ext_equal]
pub ghost enum SpecValue {
    Null,
    Double(u64),
    Integer(i64),
    Text(Seq<char>),
    Truth(bool),
    Items(Seq<SpecValue>),
    Fields(Seq<(Seq<char>, SpecValue)>),
}

/// The mathematical model of a wire-format payload value.
#[verifier::ext_equal]
pub ghost enum SpecWire {
    Absent,
    Double(u64),
    Integer(i64),
    Text(Seq<char>),
    Truth(bool),
    Items(Seq<SpecWire>),
    Fields(Seq<(Seq<char>, SpecWire)>),
}

/// The wire tag each in-memory value is written with.
pub open spec fn wire_of(v: SpecValue) -> SpecWire
    decreases v,
{
    match v {
        SpecValue::Null => SpecWire::Absent,
        SpecValue::Double(b) => SpecWire::Double(b),
        SpecValue::Integer(x) => SpecWire::Integer(x),
        SpecValue::Text(s) => SpecWire::Text(s),
        SpecValue::Truth(b) => SpecWire::Truth(b),
        SpecValue::Items(items) => SpecWire::Items(
            Seq::new(items.len(), |i: int| if 0 <= i < items.len() { wire_of(items[i]) } else { SpecWire::Absent }),
        ),
        SpecValue::Fields(fields) => SpecWire::Fields(
            Seq::new(fields.len(), |i: int| if 0 <= i < fields.len() { (fields[i].0, wire_of(fields[i].1)) } else { (Seq::empty(), SpecWire::Absent) }),
        ),
    }
}

/// The in-memory value each wire tag is read as: an absent tag becomes
/// the explicit `Null`, and lists and maps are converted recursively.
pub open spec fn value_of(w: SpecWire) -> SpecValue
    decreases w,
{
    match w {
        SpecWire::Absent => SpecValue::Null,
        SpecWire::Double(b) => SpecValue::Double(b),
        SpecWire::Integer(x) => SpecValue::Integer(x),
        SpecWire::Text(s) => SpecValue::Text(s),
        SpecWire::Truth(b) => SpecValue::Truth(b),
        SpecWire::Items(items) => SpecValue::Items(
            Seq::new(items.len(), |i: int| if 0 <= i < items.len() { value_of(items[i]) } else { SpecValue::Null }),
        ),
        SpecWire::Fields(fields) => SpecValue::Fields(
            Seq::new(fields.len(), |i: int| if 0 <= i < fields.len() { (fields[i].0, value_of(fields[i].1)) } else { (Seq::empty(), SpecValue::Null) }),
        ),
    }
}

/// Law: writing a payload value to the wire form and reading it back
/// yields a structurally equal value, whatever nesting of lists, maps,
/// strings, integers, doubles and booleans it holds.
pub proof fn lemma_wire_round_trip(v: SpecValue)
    ensures
        value_of(wire_of(v)) == v,
    decreases v,
{
    match v {
        SpecValue::Items(items) => {
            assert forall|i: int| 0 <= i < items.len() implies value_of(wire_of(items[i]))
                == items[i] by {
                lemma_wire_round_trip(items[i]);
            }
            assert(value_of(wire_of(v)) matches SpecValue::Items(back) && back =~= items);
        },
        SpecValue::Fields(fields) => {
            assert forall|i: int| 0 <= i < fields.len() implies value_of(
                wire_of(fields[i].1),
            ) == fields[i].1 by {
                lemma_wire_round_trip(fields[i].1);
            }
            assert(value_of(wire_of(v)) matches SpecValue::Fields(back) && back =~= fields);
        },
        _ => {},
    }
}

/// An in-memory payload value.  `F64` holds the IEEE-754 bit pattern of
/// the double it stands for; `Hash` holds the map as a list of key/value
/// entries.
#[derive(Debug, PartialEq)]
pub enum Value {
    Not,
    F64(u64),
    I64(i64),
    Str(String),
    Bool(bool),
    List(Vec<Value>),
    Hash(Vec<(String, Value)>),
}

/// The model an in-memory value denotes.
pub open spec fn value_view(v: Value) -> SpecValue
    decreases v,
{
    match v {
        Value::Not => SpecValue::Null,
        Value::F64(b) => SpecValue::Double(b),
        Value::I64(x) => SpecValue::Integer(x),
        Value::Str(s) => SpecValue::Text(s@),
        Value::Bool(b) => SpecValue::Truth(b),
        Value::List(items) => SpecValue::Items(
            Seq::new(items@.len(), |i: int| if 0 <= i < items@.len() { value_view(items@[i]) } else { SpecValue::Null }),
        ),
        Value::Hash(entries) => SpecValue::Fields(
            Seq::new(entries@.len(), |i: int| if 0 <= i < entries@.len() { (entries@[i].0@, value_view(entries@[i].1)) } else { (Seq::empty(), SpecValue::Null) }),
        ),
    }
}

impl View for Value {
    type V = SpecValue;

    open spec fn view(&self) -> SpecValue {
        value_view(*self)
    }
}

/// A wire-format payload value, as the store transmits it.  `Absent`
/// stands for a value without a recognized tag; `Double` holds the
/// IEEE-754 bit pattern.
#[derive(Debug, PartialEq)]
pub enum WireValue {
    Absent,
    Double(u64),
    Integer(i64),
    Text(String),
    Truth(bool),
    Items(Vec<WireValue>),
    Fields(Vec<(String, WireValue)>),
}

/// The model a wire value denotes.
pub open spec fn wire_view(w: WireValue) -> SpecWire
    decreases w,
{
    match w {
        WireValue::Absent => SpecWire::Absent,
        WireValue::Double(b) => SpecWire::Double(b),
        WireValue::Integer(x) => SpecWire::Integer(x),
        WireValue::Text(s) => SpecWire::Text(s@),
        WireValue::Truth(b) => SpecWire::Truth(b),
        WireValue::Items(items) => SpecWire::Items(
            Seq::new(items@.len(), |i: int| if 0 <= i < items@.len() { wire_view(items@[i]) } else { SpecWire::Absent }),
        ),
        WireValue::Fields(entries) => SpecWire::Fields(
            Seq::new(entries@.len(), |i: int| if 0 <= i < entries@.len() { (entries@[i].0@, wire_view(entries@[i].1)) } else { (Seq::empty(), SpecWire::Absent) }),
        ),
    }
}

impl View for WireValue {
    type V = SpecWire;

    open spec fn view(&self) -> SpecWire {
        wire_view(*self)
    }
}

impl Value {
    /// Writes the value in the wire form, as `wire_of` describes.
    #[verifier::loop_isolation(false)]
    pub fn to_wire(&self) -> (r: WireValue)
        ensures
            r@ == wire_of(self@),
        decreases self,
    {
        match self {
            Value::Not => WireValue::Absent,
            Value::F64(b) => WireValue::Double(*b),
            Value::I64(x) => WireValue::Integer(*x),
            Value::Str(s) => WireValue::Text(s.clone()),
            Value::Bool(b) => WireValue::Truth(*b),
            Value::List(items) => {
                let mut out: Vec<WireValue> = Vec::new();
                let n: usize = items.len();
                let mut i: usize = 0;
                while i < n
                    invariant
                        0 <= i <= n,
                        n == items@.len(),
                        out@.len() == i,
                        forall|j: int|
                            0 <= j < i ==> wire_view(#[trigger] out@[j]) == wire_of(
                                value_view(items@[j]),
                            ),
                    decreases n - i,
                {
                    proof {
                        assert(decreases_to!(*self => *items));
                        assert(decreases_to!(*items => items@[i as int]));
                    }
                    out.push(items[i].to_wire());
                    i = i + 1;
                }
                let r = WireValue::Items(out);
                proof {
                    let target = wire_of(value_view(*self));
                    let result = wire_view(r);
                    assert(result matches SpecWire::Items(rs) && target matches SpecWire::Items(
                        ws,
                    ) && rs =~= ws);
                    assert(result == target);
                }
                r
            },
            Value::Hash(entries) => {
                let mut out: Vec<(String, WireValue)> = Vec::new();
                let n: usize = entries.len();
                let mut i: usize = 0;
                while i < n
                    invariant
                        0 <= i <= n,
                        n == entries@.len(),
                        out@.len() == i,
                        forall|j: int|
                            0 <= j < i ==> (#[trigger] out@[j]).0@ == entries@[j].0@ && wire_view(
                                out@[j].1,
                            ) == wire_of(value_view(entries@[j].1)),
                    decreases n - i,
                {
                    proof {
                        assert(decreases_to!(*self => *entries));
                        assert(decreases_to!(*entries => entries@[i as int]));
                        assert(decreases_to!(entries@[i as int] => entries@[i as int].1));
                    }
                    let pair = &entries[i];
                    out.push((pair.0.clone(), pair.1.to_wire()));
                    i = i + 1;
                }
                let r = WireValue::Fields(out);
                proof {
                    let target = wire_of(value_view(*self));
                    let result = wire_view(r);
                    assert(result matches SpecWire::Fields(rs) && target matches SpecWire::Fields(
                        ws,
                    ) && rs =~= ws);
                    assert(result == target);
                }
                r
            },
        }
    }

    /// An independent deep copy of the value, sharing no storage with
    /// the original.
    #[verifier::loop_isolation(false)]
    pub fn duplicate(&self) -> (r: Value)
        ensures
            r@ == self@,
        decreases self,
    {
        match self {
            Value::Not => Value::Not,
            Value::F64(b) => Value::F64(*b),
            Value::I64(x) => Value::I64(*x),
            Value::Str(s) => Value::Str(s.clone()),
            Value::Bool(b) => Value::Bool(*b),
            Value::List(items) => {
                let mut out: Vec<Value> = Vec::new();
                let n: usize = items.len();
                let mut i: usize = 0;
                while i < n
                    invariant
                        0 <= i <= n,
                        n == items@.len(),
                        out@.len() == i,
                        forall|j: int|
                            0 <= j < i ==> value_view(#[trigger] out@[j]) == value_view(
                                items@[j],
                            ),
                    decreases n - i,
                {
                    proof {
                        assert(decreases_to!(*self => *items));
                        assert(decreases_to!(*items => items@[i as int]));
                    }
                    out.push(items[i].duplicate());
                    i = i + 1;
                }
                let r = Value::List(out);
                proof {
                    let target = value_view(*self);
                    let result = value_view(r);
                    assert(result matches SpecValue::Items(rs) && target matches SpecValue::Items(
                        ws,
                    ) && rs =~= ws);
                    assert(result == target);
                }
                r
            },
            Value::Hash(entries) => {
                let mut out: Vec<(String, Value)> = Vec::new();
                let n: usize = entries.len();
                let mut i: usize = 0;
                while i < n
                    invariant
                        0 <= i <= n,
                        n == entries@.len(),
                        out@.len() == i,
                        forall|j: int|
                            0 <= j < i ==> (#[trigger] out@[j]).0@ == entries@[j].0@ && value_view(
                                out@[j].1,
                            ) == value_view(entries@[j].1),
                    decreases n - i,
                {
                    proof {
                        assert(decreases_to!(*self => *entries));
                        assert(decreases_to!(*entries => entries@[i as int]));
                        assert(decreases_to!(entries@[i as int] => entries@[i as int].1));
                    }
                    let pair = &entries[i];
                    out.push((pair.0.clone(), pair.1.duplicate()));
                    i = i + 1;
                }
                let r = Value::Hash(out);
                proof {
                    let target = value_view(*self);
                    let result = value_view(r);
                    assert(result matches SpecValue::Fields(rs) && target
                        matches SpecValue::Fields(ws) && rs =~= ws);
                    assert(result == target);
                }
                r
            },
        }
    }
}

impl WireValue {
    /// Reads a wire value into the in-memory model, as `value_of`
    /// describes: every recognized tag maps to its variant, an absent
    /// tag to the explicit `Not`.
    #[verifier::loop_isolation(false)]
    pub fn to_value(&self) -> (r: Value)
        ensures
            r@ == value_of(self@),
        decreases self,
    {
        match self {
            WireValue::Absent => Value::Not,
            WireValue::Double(b) => Value::F64(*b),
            WireValue::Integer(x) => Value::I64(*x),
            WireValue::Text(s) => Value::Str(s.clone()),
            WireValue::Truth(b) => Value::Bool(*b),
            WireValue::Items(items) => {
                let mut out: Vec<Value> = Vec::new();
                let n: usize = items.len();
                let mut i: usize = 0;
                while i < n
                    invariant
                        0 <= i <= n,
                        n == items@.len(),
                        out@.len() == i,
                        forall|j: int|
                            0 <= j < i ==> value_view(#[trigger] out@[j]) == value_of(
                                wire_view(items@[j]),
                            ),
                    decreases n - i,
                {
                    proof {
                        assert(decreases_to!(*self => *items));
                        assert(decreases_to!(*items => items@[i as int]));
                    }
                    out.push(items[i].to_value());
                    i = i + 1;
                }
                let r = Value::List(out);
                proof {
                    let target = value_of(wire_view(*self));
                    let result = value_view(r);
                    assert(result matches SpecValue::Items(rs) && target matches SpecValue::Items(
                        ws,
                    ) && rs =~= ws);
                    assert(result == target);
                }
                r
            },
            WireValue::Fields(entries) => {
                let mut out: Vec<(String, Value)> = Vec::new();
                let n: usize = entries.len();
                let mut i: usize = 0;
                while i < n
                    invariant
                        0 <= i <= n,
                        n == entries@.len(),
                        out@.len() == i,
                        forall|j: int|
                            0 <= j < i ==> (#[trigger] out@[j]).0@ == entries@[j].0@ && value_view(
                                out@[j].1,
                            ) == value_of(wire_view(entries@[j].1)),
                    decreases n - i,
                {
                    proof {
                        assert(decreases_to!(*self => *entries));
                        assert(decreases_to!(*entries => entries@[i as int]));
                        assert(decreases_to!(entries@[i as int] => entries@[i as int].1));
                    }
                    let pair = &entries[i];
                    out.push((pair.0.clone(), pair.1.to_value()));
                    i = i + 1;
                }
                let r = Value::Hash(out);
                proof {
                    let target = value_of(wire_view(*self));
                    let result = value_view(r);
                    assert(result matches SpecValue::Fields(rs) && target
                        matches SpecValue::Fields(ws) && rs =~= ws);
                    assert(result == target);
                }
                r
            },
        }
    }
}

} // verus!
