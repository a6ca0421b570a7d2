//! The two value models: the generic JSON value and the store's attribute
//! value, each with a mathematical view.
use vstd::prelude::*;

verus! {

/// A JSON number.
#[derive(Clone, Debug, PartialEq)]
pub enum Number {
    /// A non-negative integer.
    PosInt(u64),
    /// An integer in the range of `i64`; negative where this library makes it.
    NegInt(i64),
    /// A number with a fractional part or an exponent, held as its decimal
    /// text (arbitrary precision; the nearest double is what a reader of it
    /// takes it to mean).
    Float(String),
}

/// A JSON value.
#[derive(Debug, PartialEq)]
pub enum Value {
    Null,
    Bool(bool),
    Number(Number),
    String(String),
    Array(Vec<Value>),
    /// Members in order; keys are expected to be distinct.
    Object(Vec<(String, Value)>),
}

/// An attribute value of a store item.
#[derive(Debug, PartialEq)]
pub enum AttributeValue {
    /// Binary blob.
    B(Vec<u8>),
    Bool(bool),
    /// Set of binary blobs.
    Bs(Vec<Vec<u8>>),
    L(Vec<AttributeValue>),
    /// Map members in order; keys are expected to be distinct.
    M(Vec<(String, AttributeValue)>),
    /// Number, carried as its decimal text.
    N(String),
    /// Set of numbers, each carried as its decimal text.
    Ns(Vec<String>),
    Null(bool),
    S(String),
    /// Set of strings.
    Ss(Vec<String>),
    /// A kind of value that this library does not know.
    Unknown,
}

/// The mathematical value of a `Number`.
pub enum Num {
    Int(int),
    Decimal(Seq<char>),
}

/// The mathematical value of a `Value`.
pub enum Json {
    Null,
    Bool(bool),
    Number(Num),
    Str(Seq<char>),
    Array(Seq<Json>),
    /// Member keys and member values, in member order.
    Object(Seq<Seq<char>>, Seq<Json>),
}

/// The mathematical value of an `AttributeValue`.
pub enum Item {
    B(Seq<u8>),
    Bool(bool),
    Bs(Seq<Seq<u8>>),
    L(Seq<Item>),
    /// Member keys and member values, in member order.
    M(Seq<Seq<char>>, Seq<Item>),
    N(Seq<char>),
    Ns(Seq<Seq<char>>),
    Null(bool),
    S(Seq<char>),
    Ss(Seq<Seq<char>>),
    Unknown,
}

impl View for Number {
    type V = Num;

    open spec fn view(&self) -> Num {
        match self {
            Number::PosInt(u) => Num::Int(*u as int),
            Number::NegInt(i) => Num::Int(*i as int),
            Number::Float(t) => Num::Decimal(t@),
        }
    }
}

impl View for Value {
    type V = Json;

    open spec fn view(&self) -> Json
        decreases self,
    {
        match self {
            Value::Null => Json::Null,
            Value::Bool(b) => Json::Bool(*b),
            Value::Number(n) => Json::Number(n@),
            Value::String(s) => Json::Str(s@),
            Value::Array(xs) => Json::Array(
                Seq::new(
                    xs@.len(),
                    |i: int|
                        if 0 <= i < xs@.len() {
                            xs@[i].view()
                        } else {
                            Json::Null
                        },
                ),
            ),
            Value::Object(kvs) => Json::Object(
                kvs@.map_values(|kv: (String, Value)| kv.0@),
                Seq::new(
                    kvs@.len(),
                    |i: int|
                        if 0 <= i < kvs@.len() {
                            kvs@[i].1.view()
                        } else {
                            Json::Null
                        },
                ),
            ),
        }
    }
}

/// The characters of each string, in order.
pub open spec fn strings_view(ss: Seq<String>) -> Seq<Seq<char>> {
    ss.map_values(|s: String| s@)
}

/// The bytes of each blob, in order.
pub open spec fn blobs_view(bs: Seq<Vec<u8>>) -> Seq<Seq<u8>> {
    bs.map_values(|b: Vec<u8>| b@)
}

impl View for AttributeValue {
    type V = Item;

    open spec fn view(&self) -> Item
        decreases self,
    {
        match self {
            AttributeValue::B(b) => Item::B(b@),
            AttributeValue::Bool(b) => Item::Bool(*b),
            AttributeValue::Bs(bs) => Item::Bs(blobs_view(bs@)),
            AttributeValue::L(xs) => Item::L(
                Seq::new(
                    xs@.len(),
                    |i: int|
                        if 0 <= i < xs@.len() {
                            xs@[i].view()
                        } else {
                            Item::Unknown
                        },
                ),
            ),
            AttributeValue::M(kvs) => Item::M(
                kvs@.map_values(|kv: (String, AttributeValue)| kv.0@),
                Seq::new(
                    kvs@.len(),
                    |i: int|
                        if 0 <= i < kvs@.len() {
                            kvs@[i].1.view()
                        } else {
                            Item::Unknown
                        },
                ),
            ),
            AttributeValue::N(t) => Item::N(t@),
            AttributeValue::Ns(ns) => Item::Ns(strings_view(ns@)),
            AttributeValue::Null(b) => Item::Null(*b),
            AttributeValue::S(s) => Item::S(s@),
            AttributeValue::Ss(ss) => Item::Ss(strings_view(ss@)),
            AttributeValue::Unknown => Item::Unknown,
        }
    }
}

} // verus!
