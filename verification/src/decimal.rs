//! Catalog prices: dollar amounts written as decimal text, read in
//! microdollars without going through binary fractions.

use vstd::prelude::*;

use crate::pricing;
use crate::text::{self, chars_of};

verus! {

pub open spec fn is_digit(c: char) -> bool {
    '0' <= c <= '9'
}

pub open spec fn digit_value(c: char) -> nat {
    (c as u32 - 48) as nat
}

/// The number that a run of digits writes.
pub open spec fn digits_value(s: Seq<char>) -> nat
    decreases s.len(),
{
    if s.len() == 0 {
        0
    } else {
        digits_value(s.drop_last()) * 10 + digit_value(s.last())
    }
}

/// How many digits `s` starts with.
pub open spec fn digit_run(s: Seq<char>) -> nat
    decreases s.len(),
{
    if s.len() > 0 && is_digit(s[0]) {
        1 + digit_run(s.skip(1))
    } else {
        0
    }
}

pub open spec fn pow10(n: nat) -> nat
    decreases n,
{
    if n == 0 {
        1
    } else {
        10 * pow10((n - 1) as nat)
    }
}

/// What a price text says, sign aside.
pub enum Magnitude {
    NotANumber,
    Infinite,
    /// The number written by `digits`, times ten to the power `exponent`.
    Finite { digits: Seq<char>, exponent: int },
}

/// Whether `s` starts with a sign.
pub open spec fn signed(s: Seq<char>) -> bool {
    s.len() > 0 && (s[0] == '+' || s[0] == '-')
}

/// `s` without its sign.
pub open spec fn unsigned_part(s: Seq<char>) -> Seq<char> {
    if signed(s) {
        s.skip(1)
    } else {
        s
    }
}

pub open spec fn negative(s: Seq<char>) -> bool {
    s.len() > 0 && s[0] == '-'
}

/// The exponent that `s` writes: nothing, or `e` with an optional sign and at
/// least one digit.
pub open spec fn exponent_of(s: Seq<char>) -> Option<int> {
    if s.len() == 0 {
        Some(0)
    } else if s[0] == 'e' || s[0] == 'E' {
        let digits = unsigned_part(s.skip(1));
        if digits.len() > 0 && digit_run(digits) == digits.len() {
            if negative(s.skip(1)) {
                Some(-(digits_value(digits) as int))
            } else {
                Some(digits_value(digits) as int)
            }
        } else {
            None
        }
    } else {
        None
    }
}

/// How many characters the fraction at the start of `s` takes: a point and the
/// digits behind it, or nothing.
pub open spec fn fraction_len(s: Seq<char>) -> nat {
    if s.len() > 0 && s[0] == '.' {
        1 + digit_run(s.skip(1))
    } else {
        0
    }
}

/// The digits of a fraction of `n` characters at the start of `s`.
pub open spec fn fraction_digits(s: Seq<char>, n: nat) -> Seq<char> {
    if n == 0 {
        Seq::empty()
    } else {
        s.subrange(1, n as int)
    }
}

/// The decimal number that `s` writes: digits with a point among, before or
/// behind them, at least one of them, and an optional exponent.
pub open spec fn number_of(s: Seq<char>) -> Option<Magnitude> {
    let whole = digit_run(s);
    let rest = s.skip(whole as int);
    let n = fraction_len(rest);
    let fraction = fraction_digits(rest, n);
    if whole + fraction.len() == 0 {
        None
    } else {
        match exponent_of(rest.skip(n as int)) {
            Some(e) => Some(
                Magnitude::Finite {
                    digits: s.take(whole as int) + fraction,
                    exponent: e - fraction.len(),
                },
            ),
            None => None,
        }
    }
}

/// Whether `s` is `word`, upper and lower case taken alike.
pub open spec fn is_word(s: Seq<char>, word: Seq<char>) -> bool {
    text::ascii_lowercase(s) == word
}

/// What `s`, a text without sign, says; `None` where it writes no number.
pub open spec fn magnitude_of(s: Seq<char>) -> Option<Magnitude> {
    if is_word(s, "inf"@) || is_word(s, "infinity"@) {
        Some(Magnitude::Infinite)
    } else if is_word(s, "nan"@) {
        Some(Magnitude::NotANumber)
    } else {
        number_of(s)
    }
}

/// `m` times ten to the power `e`, rounded to the nearest integer, halves
/// upwards.
pub open spec fn scaled(m: nat, e: int) -> int {
    if e >= 0 {
        (m * pow10(e as nat)) as int
    } else {
        pricing::nearest(m as int, pow10((-e) as nat) as int)
    }
}

/// `amount` with a sign, brought into the range of an `i64`.
pub open spec fn saturated(amount: int, negative: bool) -> i64 {
    if negative {
        if amount >= 0x8000_0000_0000_0000 {
            i64::MIN
        } else {
            (-amount) as i64
        }
    } else {
        if amount > i64::MAX {
            i64::MAX
        } else {
            amount as i64
        }
    }
}

/// The dollar amount that `s` writes in microdollars, rounded to the nearest
/// one and kept in range; no number at all counts as nothing.
pub open spec fn microdollars(s: Seq<char>) -> Option<i64> {
    match magnitude_of(unsigned_part(s)) {
        None => None,
        Some(Magnitude::NotANumber) => Some(0),
        Some(Magnitude::Infinite) => Some(
            if negative(s) {
                i64::MIN
            } else {
                i64::MAX
            },
        ),
        Some(Magnitude::Finite { digits, exponent }) => Some(
            saturated(scaled(digits_value(digits), exponent + 6), negative(s)),
        ),
    }
}

/// A bound that no length reaches: exponents beyond it all mean the same.
const EXPONENT_BOUND: i128 = 1_000_000_000_000_000_000_000_000_000_000;

pub open spec fn all_digits(s: Seq<char>) -> bool {
    forall|i: int| 0 <= i < s.len() ==> is_digit(#[trigger] s[i])
}

/// `n`, or 2 to the power 63 where that is less.
pub open spec fn limited(n: int) -> int {
    if n > 0x8000_0000_0000_0000 {
        0x8000_0000_0000_0000
    } else {
        n
    }
}

proof fn lemma_digit_run(s: Seq<char>)
    ensures
        digit_run(s) <= s.len(),
        all_digits(s.take(digit_run(s) as int)),
    decreases s.len(),
{
    if s.len() > 0 && is_digit(s[0]) {
        lemma_digit_run(s.skip(1));
        let n = digit_run(s.skip(1)) as int;
        assert forall|i: int| 0 <= i < n + 1 implies is_digit(#[trigger] s.take(n + 1)[i]) by {
            if i > 0 {
                assert(s.skip(1).take(n)[i - 1] == s[i]);
            }
        }
    }
}

proof fn lemma_pow10_positive(n: nat)
    ensures
        pow10(n) >= 1,
    decreases n,
{
    if n > 0 {
        lemma_pow10_positive((n - 1) as nat);
    }
}

proof fn lemma_pow10_grows(a: nat, b: nat)
    requires
        a <= b,
    ensures
        pow10(a) <= pow10(b),
    decreases b,
{
    if a < b {
        lemma_pow10_grows(a, (b - 1) as nat);
        lemma_pow10_positive((b - 1) as nat);
    }
}

proof fn lemma_digits_value_bound(s: Seq<char>)
    requires
        all_digits(s),
    ensures
        digits_value(s) < pow10(s.len()),
    decreases s.len(),
{
    if s.len() > 0 {
        assert(all_digits(s.drop_last()));
        lemma_digits_value_bound(s.drop_last());
        assert(is_digit(s[s.len() - 1]));
    }
}

/// A run of digits cut in two: the front counts for as many tens as the back is
/// long.
proof fn lemma_digits_value_split(s: Seq<char>, n: int)
    requires
        0 <= n <= s.len(),
    ensures
        digits_value(s) == digits_value(s.take(n)) * pow10((s.len() - n) as nat) + digits_value(
            s.skip(n),
        ),
    decreases s.len() - n,
{
    if n == s.len() {
        assert(s.take(n) == s);
        assert(s.skip(n).len() == 0);
        assert(pow10(0) == 1);
        assert(digits_value(s) * 1 == digits_value(s));
    } else {
        let front = s.drop_last();
        lemma_digits_value_split(front, n);
        assert(front.take(n) == s.take(n));
        assert(front.skip(n) == s.skip(n).drop_last());
        assert(s.skip(n).last() == s.last());
        let a = digits_value(s.take(n)) as int;
        let p = pow10((front.len() - n) as nat) as int;
        assert((a * p) * 10 == a * (10 * p)) by (nonlinear_arith);
    }
}

/// Dropping the digits from `n` on rounds to the digits that stay, one more where the first
/// dropped digit is at least five.
proof fn lemma_nearest_by_digit(s: Seq<char>, n: int)
    requires
        all_digits(s),
        0 <= n < s.len(),
    ensures
        pricing::nearest(digits_value(s) as int, pow10((s.len() - n) as nat) as int)
            == digits_value(s.take(n)) + if digit_value(s[n]) >= 5 {
            1int
        } else {
            0int
        },
{
    lemma_digits_value_split(s, n);
    let tail = s.skip(n);
    lemma_digits_value_split(tail, 1);
    let a = digits_value(s.take(n)) as int;
    let p = pow10((s.len() - n) as nat) as int;
    let q = pow10((s.len() - n - 1) as nat) as int;
    let d = digit_value(s[n]) as int;
    let c = digits_value(tail.skip(1)) as int;
    assert forall|i: int| 0 <= i < tail.skip(1).len() implies is_digit(#[trigger] tail.skip(1)[i]) by {
        assert(tail.skip(1)[i] == s[n + 1 + i]);
    }
    lemma_digits_value_bound(tail.skip(1));
    assert(is_digit(s[n]));
    assert(tail.take(1).last() == s[n]);
    assert(digits_value(tail.take(1)) == d) by {
        reveal_with_fuel(digits_value, 2);
    }
    assert(tail.skip(1).len() == s.len() - n - 1);
    let m = digits_value(s) as int;
    assert(m == a * p + (d * q + c));
    assert(p == 10 * q);
    assert(0 <= c < q);
    assert(0 <= d <= 9);
    let up = if d >= 5 {
        1int
    } else {
        0int
    };
    let r = 2 * (d * q + c) + p - up * (2 * p);
    assert(0 <= r < 2 * p) by (nonlinear_arith)
        requires
            p == 10 * q,
            0 <= c < q,
            0 <= d <= 9,
            up == (if d >= 5 {
                1int
            } else {
                0int
            }),
            r == 2 * (d * q + c) + p - up * (2 * p),
    ;
    assert((2 * m + p) / (2 * p) == a + up) by (nonlinear_arith)
        requires
            m == a * p + (d * q + c),
            r == 2 * (d * q + c) + p - up * (2 * p),
            0 <= r < 2 * p,
    ;
}

/// More dropped digits than there are leave nothing.
proof fn lemma_nearest_vanishes(s: Seq<char>, k: nat)
    requires
        all_digits(s),
        k > s.len(),
    ensures
        pricing::nearest(digits_value(s) as int, pow10(k) as int) == 0,
{
    lemma_digits_value_bound(s);
    lemma_pow10_grows(s.len(), (k - 1) as nat);
    let m = digits_value(s) as int;
    let p = pow10(k) as int;
    assert((2 * m + p) / (2 * p) == 0) by (nonlinear_arith)
        requires
            0 <= m,
            10 * m < p,
    ;
}

/// Beyond the bound one exponent is as good as another.
proof fn lemma_scaled_beyond_bound(s: Seq<char>, e: int)
    requires
        all_digits(s),
        s.len() <= usize::MAX,
    ensures
        e >= EXPONENT_BOUND - usize::MAX && digits_value(s) == 0 ==> scaled(digits_value(s), e) == 0,
        e >= EXPONENT_BOUND - usize::MAX && digits_value(s) > 0 ==> scaled(digits_value(s), e)
            >= 0x8000_0000_0000_0000,
        e <= -EXPONENT_BOUND + 6 ==> scaled(digits_value(s), e) == 0,
{
    let m = digits_value(s) as int;
    if e >= EXPONENT_BOUND - usize::MAX {
        lemma_pow10_grows(19, e as nat);
        assert(pow10(19) == 10_000_000_000_000_000_000) by {
            reveal_with_fuel(pow10, 20);
        }
        let p = pow10(e as nat) as int;
        if m == 0 {
            assert(m * p == 0) by (nonlinear_arith)
                requires
                    m == 0,
            ;
        } else {
            assert(m * p >= p) by (nonlinear_arith)
                requires
                    m >= 1,
                    p >= 0,
            ;
        }
    } else if e <= -EXPONENT_BOUND + 6 {
        lemma_nearest_vanishes(s, (-e) as nat);
    }
}

/// The index behind the digits that start at `from`.
fn run_end(chars: &Vec<char>, from: usize) -> (end: usize)
    requires
        from <= chars.len(),
    ensures
        from <= end <= chars.len(),
        end - from == digit_run(chars@.skip(from as int)),
{
    let mut i: usize = from;
    while i < chars.len() && '0' <= chars[i] && chars[i] <= '9'
        invariant
            from <= i <= chars.len(),
            digit_run(chars@.skip(from as int)) == i - from + digit_run(chars@.skip(i as int)),
        decreases chars.len() - i,
    {
        assert(chars@.skip(i as int).skip(1) == chars@.skip(i + 1));
        i += 1;
    }
    i
}

fn value_of_digit(c: char) -> (d: u64)
    requires
        is_digit(c),
    ensures
        d == digit_value(c),
{
    c as u64 - 48
}

/// The number written by the first `n` digits, limited.
fn prefix_value(digits: &Vec<char>, n: usize) -> (r: u64)
    requires
        all_digits(digits@),
        n <= digits.len(),
    ensures
        r == limited(digits_value(digits@.take(n as int)) as int),
{
    let limit: u128 = 0x8000_0000_0000_0000;
    let mut acc: u128 = 0;
    let mut i: usize = 0;
    assert(digits@.take(0).len() == 0);
    while i < n
        invariant
            all_digits(digits@),
            i <= n <= digits.len(),
            limit == 0x8000_0000_0000_0000,
            acc == limited(digits_value(digits@.take(i as int)) as int),
        decreases n - i,
    {
        assert(is_digit(digits@[i as int]));
        assert(digits@.take(i + 1).drop_last() == digits@.take(i as int));
        let next: u128 = acc * 10 + value_of_digit(digits[i]) as u128;
        acc = if next > limit {
            limit
        } else {
            next
        };
        i += 1;
    }
    acc as u64
}

/// The number written by `digits` times ten to the power `e`, rounded and
/// limited.
fn scale(digits: &Vec<char>, e: i128) -> (r: u64)
    requires
        all_digits(digits@),
        i128::MIN < e,
    ensures
        r == limited(scaled(digits_value(digits@), e as int)),
{
    let len: usize = digits.len();
    let ghost m = digits_value(digits@);
    if e >= 0 {
        let limit: u64 = 0x8000_0000_0000_0000;
        let mut acc: u64 = prefix_value(digits, len);
        let mut k: i128 = 0;
        assert(digits@.take(len as int) == digits@);
        assert(pow10(0) == 1);
        assert(m * 1 == m);
        while k < e && acc != 0 && acc < limit
            invariant
                limit == 0x8000_0000_0000_0000,
                0 <= k <= e,
                acc == limited((m * pow10(k as nat)) as int),
            decreases e - k,
        {
            let next: u128 = acc as u128 * 10;
            assert(m * pow10((k + 1) as nat) == 10 * (m * pow10(k as nat))) by (nonlinear_arith)
                requires
                    pow10((k + 1) as nat) == 10 * pow10(k as nat),
            ;
            acc = if next > limit as u128 {
                limit
            } else {
                next as u64
            };
            k += 1;
        }
        proof {
            lemma_pow10_positive(k as nat);
            lemma_pow10_grows(k as nat, e as nat);
            let a = pow10(k as nat) as int;
            let b = pow10(e as nat) as int;
            assert(m * a == 0 ==> m * b == 0) by (nonlinear_arith)
                requires
                    a >= 1,
            ;
            assert(m * a <= m * b) by (nonlinear_arith)
                requires
                    a <= b,
                    m >= 0,
            ;
        }
        acc
    } else {
        let dropped: i128 = -e;
        if dropped > len as i128 {
            proof {
                lemma_nearest_vanishes(digits@, dropped as nat);
            }
            0
        } else {
            let n: usize = len - dropped as usize;
            proof {
                lemma_nearest_by_digit(digits@, n as int);
            }
            let kept: u64 = prefix_value(digits, n);
            assert(is_digit(digits@[n as int]));
            if value_of_digit(digits[n]) >= 5 && kept < 0x8000_0000_0000_0000 {
                kept + 1
            } else {
                kept
            }
        }
    }
}

/// The exponent written from `from` on, kept within a little of the bound;
/// `None` where there is no proper exponent.
fn read_exponent(chars: &Vec<char>, from: usize) -> (r: Option<i128>)
    requires
        from <= chars.len(),
    ensures
        match r {
            None => exponent_of(chars@.skip(from as int)) is None,
            Some(e) => {
                &&& -11 * EXPONENT_BOUND <= e <= 11 * EXPONENT_BOUND
                &&& exponent_of(chars@.skip(from as int)) matches Some(x) && {
                    ||| e == x
                    ||| e >= EXPONENT_BOUND && x >= EXPONENT_BOUND
                    ||| e <= -EXPONENT_BOUND && x <= -EXPONENT_BOUND
                }
            },
        },
{
    let ghost s = chars@.skip(from as int);
    if from == chars.len() {
        return Some(0);
    }
    if chars[from] != 'e' && chars[from] != 'E' {
        return None;
    }
    assert(s.skip(1) == chars@.skip(from + 1));
    let mut start: usize = from + 1;
    let mut minus = false;
    if start < chars.len() && (chars[start] == '+' || chars[start] == '-') {
        minus = chars[start] == '-';
        assert(s.skip(1).skip(1) == chars@.skip(start + 1));
        start += 1;
    }
    let ghost digits = unsigned_part(s.skip(1));
    assert(digits == chars@.skip(start as int));
    let end: usize = run_end(chars, start);
    if end != chars.len() || end == start {
        return None;
    }
    proof {
        lemma_digit_run(digits);
        assert(digits.take(digits.len() as int) == digits);
    }
    let mut acc: i128 = 0;
    let mut i: usize = start;
    assert(digits.take(0).len() == 0);
    while i < end
        invariant
            start <= i <= end,
            end == chars.len(),
            digits == chars@.skip(start as int),
            all_digits(digits),
            0 <= acc < 11 * EXPONENT_BOUND,
            acc == digits_value(digits.take(i - start)) || (acc >= EXPONENT_BOUND && digits_value(
                digits.take(i - start),
            ) >= EXPONENT_BOUND),
        decreases end - i,
    {
        assert(digits[i - start] == chars@[i as int]);
        assert(is_digit(digits[i - start]));
        assert(digits.take(i - start + 1).drop_last() == digits.take(i - start));
        if acc < EXPONENT_BOUND {
            acc = acc * 10 + value_of_digit(chars[i]) as i128;
        }
        i += 1;
    }
    assert(digits.take(end - start) == digits);
    if minus {
        Some(-acc)
    } else {
        Some(acc)
    }
}

/// Whether the characters from `from` on are `word`, case aside.
fn matches_word(chars: &Vec<char>, from: usize, word: &str) -> (r: bool)
    requires
        from <= chars.len(),
    ensures
        r == is_word(chars@.skip(from as int), word@),
{
    let w = chars_of(word);
    let ghost s = text::ascii_lowercase(chars@.skip(from as int));
    if chars.len() - from != w.len() {
        return false;
    }
    let mut i: usize = 0;
    while i < w.len()
        invariant
            from + w.len() == chars.len(),
            i <= w.len(),
            w@ == word@,
            s == text::ascii_lowercase(chars@.skip(from as int)),
            forall|k: int| 0 <= k < i ==> #[trigger] s[k] == w@[k],
        decreases w.len() - i,
    {
        let c = chars[from + i];
        assert(s[i as int] == text::ascii_lower(c));
        let lower = if 'A' <= c && c <= 'Z' {
            (c as u8 + 32) as char
        } else {
            c
        };
        if lower != w[i] {
            return false;
        }
        i += 1;
    }
    assert(s =~= word@);
    true
}

/// The digits of the whole part, which starts at `start`, and of the fraction,
/// which starts `point` characters behind it.
fn collect_digits(
    chars: &Vec<char>,
    start: usize,
    whole_end: usize,
    point: usize,
    fraction_end: usize,
) -> (digits: Vec<char>)
    requires
        start <= whole_end,
        whole_end + point <= fraction_end <= chars.len(),
    ensures
        digits@ == chars@.subrange(start as int, whole_end as int) + chars@.subrange(
            whole_end + point,
            fraction_end as int,
        ),
{
    let mut digits: Vec<char> = Vec::new();
    let mut i: usize = start;
    while i < whole_end
        invariant
            start <= i <= whole_end <= chars.len(),
            digits@ == chars@.subrange(start as int, i as int),
        decreases whole_end - i,
    {
        digits.push(chars[i]);
        i += 1;
    }
    let mut j: usize = whole_end + point;
    while j < fraction_end
        invariant
            start <= whole_end,
            whole_end + point <= j <= fraction_end <= chars.len(),
            digits@ == chars@.subrange(start as int, whole_end as int) + chars@.subrange(
                whole_end + point,
                j as int,
            ),
        decreases fraction_end - j,
    {
        digits.push(chars[j]);
        j += 1;
    }
    digits
}

/// The decimal number written from `start` on, in microdollars and limited;
/// `None` where there is none.
fn read_number(chars: &Vec<char>, start: usize) -> (r: Option<u64>)
    requires
        start <= chars.len(),
    ensures
        match r {
            None => number_of(chars@.skip(start as int)) is None,
            Some(amount) => number_of(chars@.skip(start as int)) matches Some(
                Magnitude::Finite { digits, exponent },
            ) && amount == limited(scaled(digits_value(digits), exponent + 6)),
        },
{
    let ghost s = chars@.skip(start as int);
    let whole_end: usize = run_end(chars, start);
    let ghost whole = (whole_end - start) as int;
    let ghost rest = s.skip(whole);
    assert(rest == chars@.skip(whole_end as int));
    let mut point: usize = 0;
    let mut fraction_end: usize = whole_end;
    if whole_end < chars.len() && chars[whole_end] == '.' {
        assert(rest.skip(1) == chars@.skip(whole_end + 1));
        point = 1;
        fraction_end = run_end(chars, whole_end + 1);
    }
    let ghost n = fraction_len(rest);
    let ghost fraction = fraction_digits(rest, n);
    assert(n == fraction_end - whole_end);
    assert(fraction =~= chars@.subrange(whole_end + point, fraction_end as int));
    assert(rest.skip(n as int) == chars@.skip(fraction_end as int));
    let fraction_count: usize = fraction_end - whole_end - point;
    if whole_end == start && fraction_count == 0 {
        return None;
    }
    let exponent: i128 = match read_exponent(chars, fraction_end) {
        Some(e) => e,
        None => {
            return None;
        },
    };
    let digits = collect_digits(chars, start, whole_end, point, fraction_end);
    assert(digits@ =~= s.take(whole) + fraction);
    assert(all_digits(digits@)) by {
        lemma_digit_run(s);
        lemma_digit_run(rest.skip(1));
        assert forall|k: int| 0 <= k < digits@.len() implies is_digit(#[trigger] digits@[k]) by {
            if k < whole {
                assert(digits@[k] == s.take(whole)[k]);
            } else {
                assert(digits@[k] == rest.skip(1).take(n - 1)[k - whole]);
            }
        }
    }
    let amount: u64 = scale(&digits, exponent - fraction_count as i128 + 6);
    proof {
        let x = exponent_of(rest.skip(n as int))->0;
        lemma_scaled_beyond_bound(digits@, x - fraction.len() + 6);
        lemma_scaled_beyond_bound(digits@, exponent - fraction.len() + 6);
    }
    Some(amount)
}

/// Read a dollar amount in microdollars, rounded to the nearest one. Accepts
/// what a floating-point literal in text accepts: an optional sign, digits with
/// an optional point and exponent, and the words for infinity and for no number.
pub fn price_to_microdollars(text: &str) -> (r: Option<i64>)
    ensures
        r == microdollars(text@),
{
    let chars = chars_of(text);
    let minus = chars.len() > 0 && chars[0] == '-';
    let start: usize = if chars.len() > 0 && (chars[0] == '+' || chars[0] == '-') {
        1
    } else {
        0
    };
    assert(unsigned_part(chars@) == chars@.skip(start as int));
    if matches_word(&chars, start, "inf") || matches_word(&chars, start, "infinity") {
        return if minus {
            Some(i64::MIN)
        } else {
            Some(i64::MAX)
        };
    }
    if matches_word(&chars, start, "nan") {
        return Some(0);
    }
    match read_number(&chars, start) {
        None => None,
        Some(amount) => if minus {
            if amount >= 0x8000_0000_0000_0000 {
                Some(i64::MIN)
            } else {
                Some(-(amount as i64))
            }
        } else {
            if amount >= 0x8000_0000_0000_0000 {
                Some(i64::MAX)
            } else {
                Some(amount as i64)
            }
        },
    }
}

/// An amount with `k` digits below the microdollar, `m` in units of the last of
/// them, is read to within half a microdollar.
pub proof fn law_price_is_nearest(m: nat, k: nat)
    requires
        k > 0,
    ensures
        -pow10(k) < 2 * (scaled(m, -(k as int)) * pow10(k) - m) <= pow10(k),
{
    lemma_pow10_positive(k);
    let p = pow10(k) as int;
    let n = m as int;
    let q = scaled(m, -(k as int));
    assert(q == (2 * n + p) / (2 * p));
    assert(-p < 2 * (q * p - n) && 2 * (q * p - n) <= p) by (nonlinear_arith)
        requires
            q == (2 * n + p) / (2 * p),
            p >= 1,
    ;
}

/// An amount of whole microdollars is read exactly.
pub proof fn law_whole_microdollars_are_exact(m: nat)
    ensures
        scaled(m, 0) == m,
{
    assert(pow10(0) == 1);
    assert(m * 1 == m);
}

} // verus!
