use wyrtloom_provider_nous::{
    cost_at_price, cost_for, price_by_name, price_per_million, price_to_microdollars,
};

#[test]
fn cost_for_known_models_is_exact() {
    // 405B: 1M output tokens at $0.37/1M = 370_000 microdollars.
    assert_eq!(
        cost_for(0, 1_000_000, &"Hermes-4-405B".to_string()).unwrap().amount_microdollars,
        370_000
    );
    // 70B: 2M input at $0.05/1M = $0.10 = 100_000 microdollars.
    assert_eq!(
        cost_for(2_000_000, 0, &"hermes-4-70b".to_string()).unwrap().amount_microdollars,
        100_000
    );
}

#[test]
fn cost_for_unknown_model_is_none() {
    assert!(cost_for(1000, 1000, &"gpt-4o".to_string()).is_none());
    assert!(cost_for(1000, 1000, &"moonshotai/kimi-k2".to_string()).is_none());
}

#[test]
fn prices_go_by_the_canonical_name() {
    assert_eq!(price_per_million(&"Hermes-4-405B".to_string()), Some((90_000, 370_000)));
    assert_eq!(price_per_million(&"nousresearch/hermes-4-70b".to_string()), Some((50_000, 200_000)));
    assert_eq!(price_per_million(&"HERMES-4-70B:free".to_string()), Some((50_000, 200_000)));
    assert_eq!(price_per_million(&"Hermes-3-405B".to_string()), None);
    assert_eq!(price_per_million(&"llama-70b".to_string()), None);
    assert_eq!(price_per_million(&"".to_string()), None);
}

#[test]
fn names_are_compared_in_lower_case() {
    assert_eq!(price_by_name("hermes-4-405b"), Some((90_000, 370_000)));
    assert_eq!(price_by_name("Hermes-4-405B"), None);
    assert_eq!(price_by_name("x/hermes-4-70b/hermes-4-405b"), Some((90_000, 370_000)));
}

#[test]
fn cost_is_rounded_to_the_nearest_microdollar() {
    assert_eq!(cost_at_price((90_000, 370_000), 0, 0).amount_microdollars, 0);
    // 5 tokens at 0.09 microdollars each.
    assert_eq!(cost_at_price((90_000, 370_000), 5, 0).amount_microdollars, 0);
    assert_eq!(cost_at_price((90_000, 370_000), 6, 0).amount_microdollars, 1);
    assert_eq!(cost_at_price((90_000, 370_000), 50, 0).amount_microdollars, 5);
    assert_eq!(cost_at_price((90_000, 370_000), 123_456, 7_890).amount_microdollars, 14_030);
}

#[test]
fn the_largest_counts_have_a_cost() {
    let m = cost_for(u64::MAX, u64::MAX, &"Hermes-4-405B".to_string()).unwrap();
    assert_eq!(m.amount_microdollars, 8_485_502_273_906_393_743);
}

#[test]
fn more_tokens_never_cost_less() {
    let mut last = 0;
    for tokens in 0..2_000u64 {
        let m = cost_at_price((90_000, 370_000), tokens, tokens / 3).amount_microdollars;
        assert!(m >= last);
        last = m;
    }
}

#[test]
fn decimal_prices_are_read_in_microdollars() {
    assert_eq!(price_to_microdollars("0.0000050000"), Some(5));
    assert_eq!(price_to_microdollars("0.0000100000"), Some(10));
    assert_eq!(price_to_microdollars("0.0000000900"), Some(0));
    assert_eq!(price_to_microdollars("0.0000005"), Some(1));
    assert_eq!(price_to_microdollars("0.00000049"), Some(0));
    assert_eq!(price_to_microdollars("1"), Some(1_000_000));
    assert_eq!(price_to_microdollars("+1.5e-6"), Some(2));
    assert_eq!(price_to_microdollars("-2e-6"), Some(-2));
    assert_eq!(price_to_microdollars("12E3"), Some(12_000_000_000));
}

#[test]
fn out_of_range_prices_stay_at_the_border() {
    assert_eq!(price_to_microdollars("1e400"), Some(i64::MAX));
    assert_eq!(price_to_microdollars("-1e400"), Some(i64::MIN));
    assert_eq!(price_to_microdollars("1e99999999999999999999999999999999999999999"), Some(i64::MAX));
    assert_eq!(price_to_microdollars("1e-99999999999999999999999999999999999999999"), Some(0));
    assert_eq!(price_to_microdollars("0e99999999999999999999999999999999999999999"), Some(0));
    assert_eq!(price_to_microdollars("inf"), Some(i64::MAX));
    assert_eq!(price_to_microdollars("-Infinity"), Some(i64::MIN));
    assert_eq!(price_to_microdollars("NaN"), Some(0));
}

#[test]
fn prices_agree_with_floating_point() {
    let texts = [
        "0", "0.0", "1", "1.", ".5", "00.25", "3.14159", "1e-6", "2.4E-6", "7e0", "7e+2", "5e-7",
        "0.000123456789", "99999.9999994", "123456.7890123", "1e12", "-0.000003", "-7", "inf",
        "-inf", "nan", "INFINITY", "1e300", "-1e300", "1e-300", "0.0000000900", "0.0000003700",
    ];
    for text in texts {
        let dollars: f64 = text.parse().unwrap();
        let expected = (dollars * 1_000_000.0).round() as i64;
        assert_eq!(price_to_microdollars(text), Some(expected), "{}", text);
    }
}

#[test]
fn what_is_no_number_is_no_price() {
    let texts = [
        "", " ", ".", "+", "-", "e5", "1e", "1e+", "1.2.3", "1,5", "0x10", " 1", "1 ", "1_000",
        "++1", "abc", "infin", "nano", "$1", "1e5.0", "-.", "١",
    ];
    for text in texts {
        assert!(text.parse::<f64>().is_err(), "{}", text);
        assert_eq!(price_to_microdollars(text), None, "{}", text);
    }
}

#[test]
fn any_price_whose_cost_fits_is_charged() {
    assert_eq!(cost_at_price((5_000_000, 7_000_000), 2, 3).amount_microdollars, 31);
    assert_eq!(cost_at_price((u64::MAX, 0), 0, 9).amount_microdollars, 0);
    assert_eq!(cost_at_price((1_000_000, 0), i64::MAX as u64, 0).amount_microdollars, i64::MAX);
}
