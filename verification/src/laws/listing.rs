//! The model catalog, said of its documents.

use vstd::prelude::*;

use crate::decimal;
use crate::json::{self, JsonTree};
use crate::types::Money;
use crate::wire;

verus! {

/// The catalog is what the array under `data` lists; without one it is empty.
pub proof fn law_catalog_is_the_data_array(
    m: Map<Seq<char>, JsonTree>,
    entries: Seq<JsonTree>,
    t: JsonTree,
)
    ensures
        m.dom().contains("data"@) && m["data"@] == JsonTree::Array(entries) ==> wire::catalog(
            JsonTree::Object(m),
        ) == wire::descriptors(entries),
        !m.dom().contains("data"@) || !(m["data"@] is Array) ==> wire::catalog(
            JsonTree::Object(m),
        ).len() == 0,
        !(t is Object) ==> wire::catalog(t).len() == 0,
{
}

/// Nothing is listed for nothing, and two runs of entries are listed one after
/// the other.
pub proof fn law_entries_are_listed_in_order(a: Seq<JsonTree>, b: Seq<JsonTree>)
    ensures
        wire::descriptors(Seq::empty()).len() == 0,
        wire::descriptors(a + b) == wire::descriptors(a) + wire::descriptors(b),
{
    wire::law_listing_is_entry_by_entry(a, b);
}

/// An entry with a text under `id` is listed under it, and described by the text
/// under `name` where there is one.
pub proof fn law_entry_is_listed(m: Map<Seq<char>, JsonTree>, id: Seq<char>, name: Seq<char>)
    requires
        m.dom().contains("id"@),
        m["id"@] == JsonTree::Text(id),
    ensures
        wire::descriptors(seq![JsonTree::Object(m)]).len() == 1,
        wire::descriptors(seq![JsonTree::Object(m)])[0].id == id,
        m.dom().contains("name"@) && m["name"@] == JsonTree::Text(name) ==> wire::descriptors(
            seq![JsonTree::Object(m)],
        )[0].description == Some(name),
        !m.dom().contains("name"@) || !(m["name"@] is Text) ==> wire::descriptors(
            seq![JsonTree::Object(m)],
        )[0].description is None,
{
    lemma_single_entry(JsonTree::Object(m));
}

/// An entry without a text under `id` is left out.
pub proof fn law_nameless_entry_is_left_out(m: Map<Seq<char>, JsonTree>, t: JsonTree)
    ensures
        !m.dom().contains("id"@) || !(m["id"@] is Text) ==> wire::descriptors(
            seq![JsonTree::Object(m)],
        ).len() == 0,
        !(t is Object) ==> wire::descriptors(seq![t]).len() == 0,
{
    lemma_single_entry(JsonTree::Object(m));
    lemma_single_entry(t);
}

/// The prices of an entry are the amounts under `pricing.prompt` and
/// `pricing.completion`, where they are at least a microdollar.
pub proof fn law_entry_prices_are_read(
    m: Map<Seq<char>, JsonTree>,
    prices: Map<Seq<char>, JsonTree>,
    v: JsonTree,
    amount: i64,
)
    requires
        m.dom().contains("id"@),
        m["id"@] is Text,
        m.dom().contains("pricing"@),
        m["pricing"@] == JsonTree::Object(prices),
        wire::field_amount(v) == Some(amount),
        amount > 0,
    ensures
        prices.dom().contains("prompt"@) && prices["prompt"@] == v ==> wire::descriptors(
            seq![JsonTree::Object(m)],
        )[0].cost_per_input_token == Some(Money { amount_microdollars: amount }),
        prices.dom().contains("completion"@) && prices["completion"@] == v ==> wire::descriptors(
            seq![JsonTree::Object(m)],
        )[0].cost_per_output_token == Some(Money { amount_microdollars: amount }),
{
    lemma_single_entry(JsonTree::Object(m));
}

/// An entry shows no price where it has none, where there is no amount in it, or
/// where the amount is not positive.
pub proof fn law_entry_without_price_shows_none(m: Map<Seq<char>, JsonTree>)
    requires
        m.dom().contains("id"@),
        m["id"@] is Text,
    ensures
        !({
            &&& m.dom().contains("pricing"@)
            &&& m["pricing"@] matches JsonTree::Object(p)
            &&& p.dom().contains("prompt"@)
            &&& wire::field_amount(p["prompt"@]) matches Some(amount)
            &&& amount > 0
        }) ==> wire::descriptors(seq![JsonTree::Object(m)])[0].cost_per_input_token is None,
        !({
            &&& m.dom().contains("pricing"@)
            &&& m["pricing"@] matches JsonTree::Object(p)
            &&& p.dom().contains("completion"@)
            &&& wire::field_amount(p["completion"@]) matches Some(amount)
            &&& amount > 0
        }) ==> wire::descriptors(seq![JsonTree::Object(m)])[0].cost_per_output_token is None,
{
    lemma_single_entry(JsonTree::Object(m));
}

/// An amount is read from a text and from the digits of a number alike, and from
/// nothing else.
pub proof fn law_amount_of_a_field(s: Seq<char>, n: json::NumberModel, t: JsonTree)
    ensures
        wire::field_amount(JsonTree::Text(s)) == decimal::microdollars(s),
        wire::field_amount(JsonTree::Number(n)) == decimal::microdollars(n.text),
        !(t is Text) && !(t is Number) ==> wire::field_amount(t) is None,
{
}

proof fn lemma_single_entry(t: JsonTree)
    ensures
        wire::descriptors(seq![t]) == match wire::entry_descriptor(t) {
            Some(d) => seq![d],
            None => Seq::empty(),
        },
{
    let s = seq![t];
    assert(s.last() == t);
    assert(s.drop_last() == Seq::<JsonTree>::empty());
    assert(wire::descriptors(s.drop_last()).len() == 0);
    assert(wire::descriptors(s) =~= match wire::entry_descriptor(t) {
        Some(d) => seq![d],
        None => Seq::empty(),
    });
}

} // verus!
