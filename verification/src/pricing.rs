//! The built-in price table and the cost of a call.

use vstd::prelude::*;

use crate::text::{self, contains, to_lowercase};
use crate::types::{ModelId, Money};

verus! {

/// Tokens that a price of the table is for.
pub const TOKENS_PER_PRICE: u64 = 1_000_000;

/// The `(input, output)` price of a model whose lower-case name is `name`, in
/// microdollars per million tokens.
pub open spec fn price_of(name: Seq<char>) -> Option<(u64, u64)> {
    if text::contains_text(name, "hermes-4-405b"@) {
        Some((90_000, 370_000))
    } else if text::contains_text(name, "hermes-4-70b"@) {
        Some((50_000, 200_000))
    } else {
        None
    }
}

/// `n / d` rounded to the nearest integer, halves upwards.
pub open spec fn nearest(n: int, d: int) -> int {
    (2 * n + d) / (2 * d)
}

/// The exact cost of a call in microdollars, rounded to the nearest one.
pub open spec fn cost_at(price: (u64, u64), input_tokens: u64, output_tokens: u64) -> int {
    nearest(input_tokens * price.0 + output_tokens * price.1, TOKENS_PER_PRICE as int)
}

/// The cost of a call at `price`, where there is one.
pub open spec fn cost_by(
    price: Option<(u64, u64)>,
    input_tokens: u64,
    output_tokens: u64,
) -> Option<Money> {
    match price {
        Some(price) => Some(
            Money { amount_microdollars: cost_at(price, input_tokens, output_tokens) as i64 },
        ),
        None => None,
    }
}

/// The cost of a call to `model`, or `None` where the table does not have it.
pub open spec fn cost_of(input_tokens: u64, output_tokens: u64, model: Seq<char>) -> Option<Money> {
    cost_by(price_of(text::lowercase(model)), input_tokens, output_tokens)
}

/// The cost of a call to `model`, whose name is ASCII text.
pub open spec fn ascii_cost_of(
    input_tokens: u64,
    output_tokens: u64,
    model: Seq<char>,
) -> Option<Money> {
    cost_by(price_of(text::ascii_lowercase(model)), input_tokens, output_tokens)
}

/// The price of a model whose lower-case name is `name`.
pub fn price_by_name(name: &str) -> (r: Option<(u64, u64)>)
    ensures
        r == price_of(name@),
{
    if contains(name, "hermes-4-405b") {
        Some((90_000, 370_000))
    } else if contains(name, "hermes-4-70b") {
        Some((50_000, 200_000))
    } else {
        None
    }
}

/// Built-in Hermes pricing in microdollars per 1,000,000 tokens
/// `(input, output)`; `None` for any model not in the table.
///
/// Matched on the specific canonical substrings, which appear in both the
/// native names like `Hermes-4-405B` and the OpenRouter slugs like
/// `nousresearch/hermes-4-405b`. An id that merely contains a stray `70b` or
/// `405b` is not mis-priced, and an unknown size has no price.
pub fn price_per_million(model: &ModelId) -> (r: Option<(u64, u64)>)
    ensures
        r == price_of(text::lowercase(model@)),
        text::is_ascii_text(model@) ==> r == price_of(text::ascii_lowercase(model@)),
{
    let name = to_lowercase(model.as_str());
    price_by_name(name.as_str())
}

/// The cost of a call at `price`, which has to fit an amount of money.
pub fn cost_at_price(price: (u64, u64), input_tokens: u64, output_tokens: u64) -> (r: Money)
    requires
        cost_at(price, input_tokens, output_tokens) <= i64::MAX,
    ensures
        r.amount_microdollars == cost_at(price, input_tokens, output_tokens),
{
    assert(input_tokens * price.0 >= 0) by (nonlinear_arith);
    assert(output_tokens * price.1 >= 0) by (nonlinear_arith);
    let ghost exact = input_tokens * price.0 + output_tokens * price.1;
    assert((2 * exact + 1_000_000) / 2_000_000 <= i64::MAX);
    assert(exact <= i64::MAX * 1_000_000 + 500_000);
    let total: u128 = input_tokens as u128 * price.0 as u128 + output_tokens as u128
        * price.1 as u128;
    let amount: u128 = (2 * total + 1_000_000) / 2_000_000;
    Money { amount_microdollars: amount as i64 }
}

/// Compute the cost of a call from its token counts and the model's price.
pub fn cost_for(input_tokens: u64, output_tokens: u64, model: &ModelId) -> (r: Option<Money>)
    ensures
        r == cost_of(input_tokens, output_tokens, model@),
        text::is_ascii_text(model@) ==> r == ascii_cost_of(input_tokens, output_tokens, model@),
{
    match price_per_million(model) {
        Some(price) => {
            proof {
                law_cost_is_exact(text::lowercase(model@), input_tokens, output_tokens);
            }
            Some(cost_at_price(price, input_tokens, output_tokens))
        },
        None => None,
    }
}

/// The cost that is reported is the exact cost to within half a microdollar,
/// and it always fits.
pub proof fn law_cost_is_exact(name: Seq<char>, input_tokens: u64, output_tokens: u64)
    ensures
        price_of(name) matches Some(price) ==> {
            let cost = cost_at(price, input_tokens, output_tokens);
            let exact = input_tokens * price.0 + output_tokens * price.1;
            &&& 0 <= cost <= i64::MAX
            &&& -500_000 < cost * TOKENS_PER_PRICE - exact <= 500_000
        },
{
}

/// No tokens cost nothing, and more tokens never cost less.
pub proof fn law_cost_grows_with_tokens(
    price: (u64, u64),
    input_a: u64,
    output_a: u64,
    input_b: u64,
    output_b: u64,
)
    requires
        input_a <= input_b,
        output_a <= output_b,
    ensures
        cost_at(price, 0, 0) == 0,
        cost_at(price, input_a, output_a) <= cost_at(price, input_b, output_b),
{
    assert(input_a * price.0 <= input_b * price.0) by (nonlinear_arith)
        requires
            input_a <= input_b,
    ;
    assert(output_a * price.1 <= output_b * price.1) by (nonlinear_arith)
        requires
            output_a <= output_b,
    ;
    assert(cost_at(price, 0, 0) == 0) by {
        let p = price.0 as int;
        let q = price.1 as int;
        assert(0 * p == 0 && 0 * q == 0) by (nonlinear_arith);
        assert(nearest(0, TOKENS_PER_PRICE as int) == 0);
    }
    let a = input_a * price.0 + output_a * price.1;
    let b = input_b * price.0 + output_b * price.1;
    assert((2 * a + 1_000_000) / 2_000_000 <= (2 * b + 1_000_000) / 2_000_000);
}

/// A cost is reported exactly for the models of the table.
pub proof fn law_unknown_model_has_no_cost(model: Seq<char>, input_tokens: u64, output_tokens: u64)
    ensures
        cost_of(input_tokens, output_tokens, model) is None <==> {
            &&& !text::contains_text(text::lowercase(model), "hermes-4-405b"@)
            &&& !text::contains_text(text::lowercase(model), "hermes-4-70b"@)
        },
{
}

} // verus!
