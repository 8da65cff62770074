//! What calls cost, said of names and numbers.

use vstd::prelude::*;

use crate::decimal;
use crate::pricing;
use crate::text;
use crate::types::{GenerationResponse, ProviderError};
use crate::wire;

verus! {

/// Whether `word` stands in `name` at `at`, character by character.
pub open spec fn stands_at(name: Seq<char>, word: Seq<char>, at: int) -> bool {
    &&& 0 <= at
    &&& at + word.len() <= name.len()
    &&& forall|k: int| 0 <= k < word.len() ==> name[at + k] == #[trigger] word[k]
}

/// Whether `lower` is `name` with the letters `A` to `Z` replaced by those 32
/// code points further on.
pub open spec fn lowered(name: Seq<char>, lower: Seq<char>) -> bool {
    &&& lower.len() == name.len()
    &&& forall|k: int|
        0 <= k < name.len() ==> #[trigger] lower[k] as int == if 'A' <= name[k] <= 'Z' {
            name[k] as int + 32
        } else {
            name[k] as int
        }
}

/// A text contains another exactly where the other stands in it somewhere.
pub proof fn law_containing_text(s: Seq<char>, p: Seq<char>)
    ensures
        text::contains_text(s, p) <==> exists|at: int| #[trigger] stands_at(s, p, at),
{
    if text::contains_text(s, p) {
        let i = choose|i: int|
            0 <= i <= s.len() - p.len() && #[trigger] s.subrange(i, i + p.len()) == p;
        assert forall|k: int| 0 <= k < p.len() implies s[i + k] == #[trigger] p[k] by {
            assert(s.subrange(i, i + p.len())[k] == s[i + k]);
        }
        assert(stands_at(s, p, i));
    }
    if exists|at: int| #[trigger] stands_at(s, p, at) {
        let at = choose|at: int| #[trigger] stands_at(s, p, at);
        assert(s.subrange(at, at + p.len()) =~= p);
    }
}

/// The ASCII lower case moves `A` to `Z` and nothing else.
pub proof fn law_ascii_lower_case(name: Seq<char>, lower: Seq<char>)
    ensures
        lowered(name, text::ascii_lowercase(name)),
        lowered(name, lower) ==> text::ascii_lowercase(name) == lower,
{
    if lowered(name, lower) {
        assert forall|k: int| 0 <= k < name.len() implies #[trigger] lower[k]
            == text::ascii_lowercase(name)[k] by {
            assert(lower[k] as int == text::ascii_lowercase(name)[k] as int);
        }
        assert(text::ascii_lowercase(name) =~= lower);
    }
}

/// ASCII text is made of the first 128 code points.
pub proof fn law_ascii_text(s: Seq<char>)
    ensures
        text::is_ascii_text(s) <==> forall|i: int|
            0 <= i < s.len() ==> (#[trigger] s[i]) as int <= 127,
{
}

/// A number is written digit by digit, the last one for the units, and without
/// zeros in front.
pub proof fn law_decimal_digits(n: nat, d: nat)
    requires
        d < 10,
    ensures
        text::decimal(d).len() == 1,
        text::decimal(d)[0] as int == '0' as int + d,
        n > 0 ==> text::decimal(10 * n + d).drop_last() == text::decimal(n),
        text::decimal(10 * n + d).last() as int == '0' as int + d,
{
    let m = 10 * n + d;
    assert(m / 10 == n && m % 10 == d);
}

/// The digits of a number read back as the number.
pub proof fn law_decimal_reads_back(n: nat)
    ensures
        decimal::digits_value(text::decimal(n)) == n,
    decreases n,
{
    if n < 10 {
        assert(text::decimal(n).drop_last().len() == 0);
        assert(decimal::digits_value(text::decimal(n).drop_last()) == 0);
    } else {
        law_decimal_reads_back(n / 10);
        assert(text::decimal(n).drop_last() == text::decimal(n / 10));
    }
}

/// The price table, by what a lower-case name holds: 90000 and 370000
/// microdollars per million tokens for one size, 50000 and 200000 for the other,
/// and nothing for any other name.
pub proof fn law_price_table(name: Seq<char>)
    ensures
        (exists|at: int| #[trigger] stands_at(name, "hermes-4-405b"@, at)) ==> pricing::price_of(
            name,
        ) == Some((90_000u64, 370_000u64)),
        (exists|at: int| #[trigger] stands_at(name, "hermes-4-70b"@, at)) && (forall|at: int|
            !#[trigger] stands_at(name, "hermes-4-405b"@, at)) ==> pricing::price_of(name) == Some(
            (50_000u64, 200_000u64),
        ),
        (forall|at: int| !#[trigger] stands_at(name, "hermes-4-70b"@, at)) && (forall|at: int|
            !#[trigger] stands_at(name, "hermes-4-405b"@, at)) ==> pricing::price_of(name) is None,
{
    law_containing_text(name, "hermes-4-405b"@);
    law_containing_text(name, "hermes-4-70b"@);
}

/// Whether `amount` microdollars are what `exact` millionths of a microdollar
/// round to, halves upwards. One amount at most is.
pub open spec fn is_rounded(amount: int, exact: int) -> bool {
    -500_000 < amount * 1_000_000 - exact <= 500_000
}

/// At any price the cost is input tokens times the first and output tokens times
/// the second, per million, rounded to the nearest microdollar.
pub proof fn law_cost_at_a_price(price: (u64, u64), input_tokens: u64, output_tokens: u64)
    ensures
        is_rounded(
            pricing::cost_at(price, input_tokens, output_tokens),
            input_tokens * price.0 + output_tokens * price.1,
        ),
        pricing::cost_by(None, input_tokens, output_tokens) is None,
{
    let exact = input_tokens * price.0 + output_tokens * price.1;
    assert(pricing::cost_at(price, input_tokens, output_tokens) == (2 * exact + 1_000_000)
        / 2_000_000);
}

/// A call to the model of 405 billion parameters costs 0.09 microdollars per
/// input token and 0.37 per output token, whichever there are more of.
pub proof fn law_cost_of_the_405b_model(
    model: Seq<char>,
    at: int,
    input_tokens: u64,
    output_tokens: u64,
)
    requires
        stands_at(text::lowercase(model), "hermes-4-405b"@, at),
    ensures
        pricing::cost_of(input_tokens, output_tokens, model) matches Some(m) && is_rounded(
            m.amount_microdollars as int,
            input_tokens * 90_000 + output_tokens * 370_000,
        ),
{
    law_price_table(text::lowercase(model));
    pricing::law_cost_is_exact(text::lowercase(model), input_tokens, output_tokens);
}

/// A call to the model of 70 billion parameters costs 0.05 microdollars per
/// input token and 0.2 per output token, whichever there are more of.
pub proof fn law_cost_of_the_70b_model(
    model: Seq<char>,
    at: int,
    input_tokens: u64,
    output_tokens: u64,
)
    requires
        stands_at(text::lowercase(model), "hermes-4-70b"@, at),
        forall|k: int| !#[trigger] stands_at(text::lowercase(model), "hermes-4-405b"@, k),
    ensures
        pricing::cost_of(input_tokens, output_tokens, model) matches Some(m) && is_rounded(
            m.amount_microdollars as int,
            input_tokens * 50_000 + output_tokens * 200_000,
        ),
{
    law_price_table(text::lowercase(model));
    pricing::law_cost_is_exact(text::lowercase(model), input_tokens, output_tokens);
}

/// A call to any other model has no cost to report.
pub proof fn law_no_cost_of_other_models(model: Seq<char>, input_tokens: u64, output_tokens: u64)
    requires
        forall|k: int| !#[trigger] stands_at(text::lowercase(model), "hermes-4-405b"@, k),
        forall|k: int| !#[trigger] stands_at(text::lowercase(model), "hermes-4-70b"@, k),
    ensures
        pricing::cost_of(input_tokens, output_tokens, model) is None,
{
    law_price_table(text::lowercase(model));
}

/// The same of a name in ASCII, whose lower case `lower` is.
pub proof fn law_cost_by_ascii_name(
    model: Seq<char>,
    lower: Seq<char>,
    input_tokens: u64,
    output_tokens: u64,
)
    requires
        lowered(model, lower),
    ensures
        (exists|at: int| #[trigger] stands_at(lower, "hermes-4-405b"@, at)) ==> (
        pricing::ascii_cost_of(input_tokens, output_tokens, model) matches Some(m) && is_rounded(
            m.amount_microdollars as int,
            input_tokens * 90_000 + output_tokens * 370_000,
        )),
        (exists|at: int| #[trigger] stands_at(lower, "hermes-4-70b"@, at)) && (forall|at: int|
            !#[trigger] stands_at(lower, "hermes-4-405b"@, at)) ==> (pricing::ascii_cost_of(
            input_tokens,
            output_tokens,
            model,
        ) matches Some(m) && is_rounded(
            m.amount_microdollars as int,
            input_tokens * 50_000 + output_tokens * 200_000,
        )),
        (forall|at: int| !#[trigger] stands_at(lower, "hermes-4-70b"@, at)) && (forall|at: int|
            !#[trigger] stands_at(lower, "hermes-4-405b"@, at)) ==> pricing::ascii_cost_of(
            input_tokens,
            output_tokens,
            model,
        ) is None,
{
    law_ascii_lower_case(model, lower);
    law_price_table(lower);
    pricing::law_cost_is_exact(lower, input_tokens, output_tokens);
}

/// A reply that is priced by an ASCII name costs what that name says.
pub proof fn law_reply_priced_by_ascii_name(
    resp: GenerationResponse,
    e: ProviderError,
    model: Seq<char>,
)
    ensures
        wire::priced_by_ascii_name(Ok(resp), model) <==> resp.usage.cost == pricing::ascii_cost_of(
            resp.usage.input_tokens,
            resp.usage.output_tokens,
            model,
        ),
        wire::priced_by_ascii_name(Err(e), model),
{
}

} // verus!
