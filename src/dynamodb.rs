//! Conversion between JSON values and store attribute values.
use vstd::prelude::*;
use crate::numeric::{decimal_text, has_point, i64_text, int_text, is_decimal_text, parse_i64, parse_i64_text, u64_text};
use crate::value::{AttributeValue, Item, Json, Num, Number, Value, blobs_view, strings_view};

verus! {

/// The text that stands for a number in the store.
pub open spec fn num_text(n: Num) -> Seq<char> {
    match n {
        Num::Int(i) => int_text(i),
        Num::Decimal(t) => t,
    }
}

/// The store form of a JSON value: each kind maps to its like, a number to
/// its text.
pub open spec fn encode(j: Json) -> Item
    decreases j,
{
    match j {
        Json::Null => Item::Null(true),
        Json::Bool(b) => Item::Bool(b),
        Json::Number(n) => Item::N(num_text(n)),
        Json::Str(s) => Item::S(s),
        Json::Array(xs) => Item::L(
            Seq::new(
                xs.len(),
                |i: int|
                    if 0 <= i < xs.len() {
                        encode(xs[i])
                    } else {
                        Item::Unknown
                    },
            ),
        ),
        Json::Object(ks, vs) => Item::M(
            ks,
            Seq::new(
                vs.len(),
                |i: int|
                    if 0 <= i < vs.len() {
                        encode(vs[i])
                    } else {
                        Item::Unknown
                    },
            ),
        ),
    }
}

/// The JSON value of a number's text: a decimal fraction stays a number held
/// as its text, an integer in the range of `i64` becomes that integer, and
/// any other text is kept as a string (nothing is lost but the kind).
pub open spec fn decode_number(t: Seq<char>) -> Json {
    if t.contains('.') {
        if is_decimal_text(t) {
            Json::Number(Num::Decimal(t))
        } else {
            Json::Str(t)
        }
    } else {
        match parse_i64_text(t) {
            Some(i) => Json::Number(Num::Int(i as int)),
            None => Json::Str(t),
        }
    }
}

/// The JSON value of a blob: an array of its bytes as numbers.
pub open spec fn decode_bytes(b: Seq<u8>) -> Json {
    Json::Array(Seq::new(b.len(), |i: int| Json::Number(Num::Int(b[i] as int))))
}

/// The JSON value of a store value. Sets become arrays in their order; null
/// and kinds unknown to this library become null.
pub open spec fn decode(a: Item) -> Json
    decreases a,
{
    match a {
        Item::S(s) => Json::Str(s),
        Item::B(b) => decode_bytes(b),
        Item::Bool(b) => Json::Bool(b),
        Item::M(ks, vs) => Json::Object(
            ks,
            Seq::new(
                vs.len(),
                |i: int|
                    if 0 <= i < vs.len() {
                        decode(vs[i])
                    } else {
                        Json::Null
                    },
            ),
        ),
        Item::N(t) => decode_number(t),
        Item::L(xs) => Json::Array(
            Seq::new(
                xs.len(),
                |i: int|
                    if 0 <= i < xs.len() {
                        decode(xs[i])
                    } else {
                        Json::Null
                    },
            ),
        ),
        Item::Ns(ns) => Json::Array(Seq::new(ns.len(), |i: int| decode_number(ns[i]))),
        Item::Bs(bs) => Json::Array(Seq::new(bs.len(), |i: int| decode_bytes(bs[i]))),
        Item::Ss(ss) => Json::Array(Seq::new(ss.len(), |i: int| Json::Str(ss[i]))),
        Item::Null(_) => Json::Null,
        Item::Unknown => Json::Null,
    }
}

/// The text of a number, as the store carries it.
pub fn number_text(n: &Number) -> (r: String)
    ensures
        r@ == num_text(n@),
{
    match n {
        Number::PosInt(u) => u64_text(*u),
        Number::NegInt(i) => i64_text(*i),
        Number::Float(t) => t.clone(),
    }
}

/// Converts a JSON value to a store attribute value.
pub fn marshall(m: &Value) -> (r: AttributeValue)
    ensures
        r@ == encode(m@),
    decreases m@,
{
    match m {
        Value::Null => AttributeValue::Null(true),
        Value::Bool(b) => AttributeValue::Bool(*b),
        Value::Number(n) => AttributeValue::N(number_text(n)),
        Value::String(s) => AttributeValue::S(s.clone()),
        Value::Array(arr) => {
            let mut out: Vec<AttributeValue> = Vec::new();
            let mut i: usize = 0;
            while i < arr.len()
                invariant
                    *m == Value::Array(*arr),
                    i <= arr@.len(),
                    out@.len() == i,
                    forall|j: int| 0 <= j < i ==> #[trigger] out@[j]@ == encode(arr@[j]@),
                decreases arr@.len() - i,
            {
                proof {
                    assert(m@->Array_0[i as int] == arr@[i as int]@);
                }
                let e = marshall(&arr[i]);
                out.push(e);
                i = i + 1;
            }
            let r = AttributeValue::L(out);
            proof {
                let want = encode(m@)->L_0;
                assert forall|j: int| 0 <= j < arr@.len() implies r@->L_0[j] == want[j] by {
                    assert(r@->L_0[j] == out@[j]@);
                    assert(m@->Array_0[j] == arr@[j]@);
                }
                assert(r@->L_0 =~= want);
            }
            r
        },
        Value::Object(o) => {
            let mut out: Vec<(String, AttributeValue)> = Vec::new();
            let mut i: usize = 0;
            while i < o.len()
                invariant
                    *m == Value::Object(*o),
                    i <= o@.len(),
                    out@.len() == i,
                    forall|j: int|
                        0 <= j < i ==> #[trigger] out@[j].0@ == o@[j].0@ && out@[j].1@ == encode(
                            o@[j].1@,
                        ),
                decreases o@.len() - i,
            {
                proof {
                    assert(m@->Object_1[i as int] == o@[i as int].1@);
                }
                let k = o[i].0.clone();
                let e = marshall(&o[i].1);
                out.push((k, e));
                i = i + 1;
            }
            let r = AttributeValue::M(out);
            proof {
                let want = encode(m@);
                assert forall|j: int| 0 <= j < o@.len() implies r@->M_1[j] == want->M_1[j] by {
                    assert(out@[j].0@ == o@[j].0@);
                    assert(r@->M_1[j] == out@[j].1@);
                    assert(m@->Object_1[j] == o@[j].1@);
                    assert(want->M_1[j] == encode(m@->Object_1[j]));
                }
                assert(r@->M_1 =~= want->M_1);
                assert(r@->M_0 =~= want->M_0);
            }
            r
        },
    }
}

/// The number that an `i64` stands for.
pub fn number_from_i64(i: i64) -> (r: Number)
    ensures
        r@ == Num::Int(i as int),
{
    if i < 0 {
        Number::NegInt(i)
    } else {
        Number::PosInt(i as u64)
    }
}

/// The JSON value of a number's text, as the store carries it.
pub fn unmarshall_number(t: &str) -> (r: Value)
    ensures
        r@ == decode_number(t@),
{
    if has_point(t) {
        if decimal_text(t) {
            Value::Number(Number::Float(t.to_owned()))
        } else {
            Value::String(t.to_owned())
        }
    } else {
        match parse_i64(t) {
            Some(i) => Value::Number(number_from_i64(i)),
            None => Value::String(t.to_owned()),
        }
    }
}

/// The JSON value of a blob: its bytes as an array of numbers.
pub fn unmarshall_bytes(b: &Vec<u8>) -> (r: Value)
    ensures
        r@ == decode_bytes(b@),
{
    let mut out: Vec<Value> = Vec::new();
    let mut i: usize = 0;
    while i < b.len()
        invariant
            i <= b@.len(),
            out@.len() == i,
            forall|j: int| 0 <= j < i ==> #[trigger] out@[j]@ == Json::Number(Num::Int(b@[j] as int)),
        decreases b@.len() - i,
    {
        out.push(Value::Number(Number::PosInt(b[i] as u64)));
        i = i + 1;
    }
    let r = Value::Array(out);
    proof {
        let want = decode_bytes(b@);
        assert forall|j: int| 0 <= j < b@.len() implies r@->Array_0[j] == want->Array_0[j] by {
            assert(r@->Array_0[j] == out@[j]@);
        }
        assert(r@->Array_0 =~= want->Array_0);
    }
    r
}

/// Converts a store attribute value to a JSON value.
pub fn unmarshall(m: &AttributeValue) -> (r: Value)
    ensures
        r@ == decode(m@),
    decreases m@,
{
    match m {
        AttributeValue::S(s) => Value::String(s.clone()),
        AttributeValue::B(blob) => unmarshall_bytes(blob),
        AttributeValue::Bool(b) => Value::Bool(*b),
        AttributeValue::M(o) => {
            let mut out: Vec<(String, Value)> = Vec::new();
            let mut i: usize = 0;
            while i < o.len()
                invariant
                    *m == AttributeValue::M(*o),
                    i <= o@.len(),
                    out@.len() == i,
                    forall|j: int|
                        0 <= j < i ==> #[trigger] out@[j].1@ == decode(o@[j].1@) && out@[j].0@
                            == o@[j].0@,
                decreases o@.len() - i,
            {
                proof {
                    assert(m@->M_1[i as int] == o@[i as int].1@);
                }
                let k = o[i].0.clone();
                let e = unmarshall(&o[i].1);
                out.push((k, e));
                i = i + 1;
            }
            let r = Value::Object(out);
            proof {
                let want = decode(m@);
                assert forall|j: int| 0 <= j < o@.len() implies r@->Object_1[j] == want->Object_1[j] by {
                    assert(out@[j].1@ == decode(o@[j].1@));
                    assert(r@->Object_1[j] == out@[j].1@);
                    assert(m@->M_1[j] == o@[j].1@);
                    assert(want->Object_1[j] == decode(m@->M_1[j]));
                }
                assert(r@->Object_1 =~= want->Object_1);
                assert forall|j: int| 0 <= j < o@.len() implies r@->Object_0[j] == want->Object_0[j] by {
                    assert(out@[j].1@ == decode(o@[j].1@));
                }
                assert(r@->Object_0 =~= want->Object_0);
            }
            r
        },
        AttributeValue::N(v) => unmarshall_number(v.as_str()),
        AttributeValue::L(arr) => {
            let mut out: Vec<Value> = Vec::new();
            let mut i: usize = 0;
            while i < arr.len()
                invariant
                    *m == AttributeValue::L(*arr),
                    i <= arr@.len(),
                    out@.len() == i,
                    forall|j: int| 0 <= j < i ==> #[trigger] out@[j]@ == decode(arr@[j]@),
                decreases arr@.len() - i,
            {
                proof {
                    assert(m@->L_0[i as int] == arr@[i as int]@);
                }
                let e = unmarshall(&arr[i]);
                out.push(e);
                i = i + 1;
            }
            let r = Value::Array(out);
            proof {
                let want = decode(m@);
                assert forall|j: int| 0 <= j < arr@.len() implies r@->Array_0[j] == want->Array_0[j] by {
                    assert(r@->Array_0[j] == out@[j]@);
                    assert(m@->L_0[j] == arr@[j]@);
                }
                assert(r@->Array_0 =~= want->Array_0);
            }
            r
        },
        AttributeValue::Ns(arr) => {
            let mut out: Vec<Value> = Vec::new();
            let mut i: usize = 0;
            while i < arr.len()
                invariant
                    i <= arr@.len(),
                    out@.len() == i,
                    forall|j: int| 0 <= j < i ==> #[trigger] out@[j]@ == decode_number(arr@[j]@),
                decreases arr@.len() - i,
            {
                out.push(unmarshall_number(arr[i].as_str()));
                i = i + 1;
            }
            let r = Value::Array(out);
            proof {
                let want = decode(m@);
                assert forall|j: int| 0 <= j < arr@.len() implies r@->Array_0[j] == want->Array_0[j] by {
                    assert(r@->Array_0[j] == out@[j]@);
                    assert(m@->Ns_0[j] == arr@[j]@);
                }
                assert(r@->Array_0 =~= want->Array_0);
            }
            r
        },
        AttributeValue::Bs(arr) => {
            let mut out: Vec<Value> = Vec::new();
            let mut i: usize = 0;
            while i < arr.len()
                invariant
                    i <= arr@.len(),
                    out@.len() == i,
                    forall|j: int| 0 <= j < i ==> #[trigger] out@[j]@ == decode_bytes(arr@[j]@),
                decreases arr@.len() - i,
            {
                out.push(unmarshall_bytes(&arr[i]));
                i = i + 1;
            }
            let r = Value::Array(out);
            proof {
                let want = decode(m@);
                assert forall|j: int| 0 <= j < arr@.len() implies r@->Array_0[j] == want->Array_0[j] by {
                    assert(r@->Array_0[j] == out@[j]@);
                    assert(m@->Bs_0[j] == arr@[j]@);
                }
                assert(r@->Array_0 =~= want->Array_0);
            }
            r
        },
        AttributeValue::Ss(arr) => {
            let mut out: Vec<Value> = Vec::new();
            let mut i: usize = 0;
            while i < arr.len()
                invariant
                    i <= arr@.len(),
                    out@.len() == i,
                    forall|j: int| 0 <= j < i ==> #[trigger] out@[j]@ == Json::Str(arr@[j]@),
                decreases arr@.len() - i,
            {
                out.push(Value::String(arr[i].clone()));
                i = i + 1;
            }
            let r = Value::Array(out);
            proof {
                let want = decode(m@);
                assert forall|j: int| 0 <= j < arr@.len() implies r@->Array_0[j] == want->Array_0[j] by {
                    assert(r@->Array_0[j] == out@[j]@);
                    assert(m@->Ss_0[j] == arr@[j]@);
                }
                assert(r@->Array_0 =~= want->Array_0);
            }
            r
        },
        AttributeValue::Null(_) => Value::Null,
        AttributeValue::Unknown => Value::Null,
    }
}

} // verus!
