//! What holds of the two conversions together.
use vstd::prelude::*;
use crate::dynamodb::{decode, encode};
use crate::numeric::{int_text, is_decimal_text, lemma_int_text_parses, parse_i64_text};
use crate::value::{Item, Json, Num};

verus! {

/// A JSON value whose numbers the store's text brings back as they were:
/// integers in the range of `i64`, and decimal fractions written with a point.
pub open spec fn representable(j: Json) -> bool
    decreases j,
{
    match j {
        Json::Number(Num::Int(i)) => i64::MIN <= i <= i64::MAX,
        Json::Number(Num::Decimal(t)) => t.contains('.') && is_decimal_text(t),
        Json::Array(xs) => forall|i: int| 0 <= i < xs.len() ==> representable(#[trigger] xs[i]),
        Json::Object(ks, vs) => forall|i: int|
            0 <= i < vs.len() ==> representable(#[trigger] vs[i]),
        _ => true,
    }
}

/// An integer in the range of `i64` comes back from the store as the same
/// integer, and so does a decimal fraction from its text.
pub proof fn lemma_number_fidelity(i: i64, t: Seq<char>)
    ensures
        encode(Json::Number(Num::Int(i as int))) == Item::N(int_text(i as int)),
        decode(Item::N(int_text(i as int))) == Json::Number(Num::Int(i as int)),
        t.contains('.') && is_decimal_text(t) ==> decode(Item::N(t)) == Json::Number(
            Num::Decimal(t),
        ),
{
    lemma_int_text_parses(i as int);
}

/// Storing a JSON value and reading it back gives the same value, for every
/// value whose numbers are representable, empty and nested containers included.
pub proof fn lemma_round_trip(j: Json)
    requires
        representable(j),
    ensures
        decode(encode(j)) == j,
    decreases j,
{
    match j {
        Json::Number(Num::Int(i)) => {
            lemma_number_fidelity(i as i64, Seq::empty());
        },
        Json::Array(xs) => {
            let back = decode(encode(j))->Array_0;
            assert forall|i: int| 0 <= i < xs.len() implies back[i] == xs[i] by {
                lemma_round_trip(xs[i]);
            }
            assert(back =~= xs);
        },
        Json::Object(ks, vs) => {
            let back = decode(encode(j));
            assert forall|i: int| 0 <= i < vs.len() implies back->Object_1[i] == vs[i] by {
                lemma_round_trip(vs[i]);
            }
            assert(back->Object_1 =~= vs);
        },
        _ => {},
    }
}

/// The store form of a JSON value is never a blob nor a set.
pub proof fn lemma_encode_makes_no_set(j: Json)
    ensures
        !(encode(j) is B),
        !(encode(j) is Bs),
        !(encode(j) is Ns),
        !(encode(j) is Ss),
{
}

/// A set reads as an array of its members' readings, in the set's order, and
/// is stored again as a list, never as a set.
pub proof fn lemma_sets_read_as_arrays(a: Item)
    requires
        a is Ss || a is Ns || a is Bs,
    ensures
        decode(a) is Array,
        a is Ss ==> decode(a)->Array_0.len() == a->Ss_0.len() && forall|i: int|
            0 <= i < a->Ss_0.len() ==> #[trigger] decode(a)->Array_0[i] == decode(
                Item::S(a->Ss_0[i]),
            ),
        a is Ns ==> decode(a)->Array_0.len() == a->Ns_0.len() && forall|i: int|
            0 <= i < a->Ns_0.len() ==> #[trigger] decode(a)->Array_0[i] == decode(
                Item::N(a->Ns_0[i]),
            ),
        a is Bs ==> decode(a)->Array_0.len() == a->Bs_0.len() && forall|i: int|
            0 <= i < a->Bs_0.len() ==> #[trigger] decode(a)->Array_0[i] == decode(
                Item::B(a->Bs_0[i]),
            ),
        encode(decode(a)) is L,
{
}

/// Number text that is neither a decimal fraction nor an integer in the
/// range of `i64` reads as a string of the same text, which is stored again
/// as a string, not as a number.
pub proof fn lemma_malformed_number_text(t: Seq<char>)
    requires
        !(t.contains('.') && is_decimal_text(t)),
        !(!t.contains('.') && parse_i64_text(t) is Some),
    ensures
        decode(Item::N(t)) == Json::Str(t),
        encode(decode(Item::N(t))) == Item::S(t),
{
}

} // verus!
