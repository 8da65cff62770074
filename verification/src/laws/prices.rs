//! Prices written as text, said of the characters.

use vstd::prelude::*;

use crate::decimal;
use crate::text;

verus! {

pub open spec fn only_digits(s: Seq<char>) -> bool {
    forall|i: int| 0 <= i < s.len() ==> '0' <= #[trigger] s[i] <= '9'
}

pub open spec fn is_sign(s: Seq<char>) -> bool {
    s == Seq::<char>::empty() || s == seq!['+'] || s == seq!['-']
}

/// The `e` of a number, its sign and its digits.
pub struct ExponentText {
    pub letter: char,
    pub sign: Seq<char>,
    pub digits: Seq<char>,
}

/// A decimal number taken apart.
pub struct NumberText {
    pub sign: Seq<char>,
    pub whole: Seq<char>,
    /// The digits behind the point, where there is a point.
    pub fraction: Option<Seq<char>>,
    pub exponent: Option<ExponentText>,
}

impl ExponentText {
    pub open spec fn well_formed(self) -> bool {
        &&& self.letter == 'e' || self.letter == 'E'
        &&& is_sign(self.sign)
        &&& self.digits.len() > 0
        &&& only_digits(self.digits)
    }

    pub open spec fn written(self) -> Seq<char> {
        seq![self.letter] + self.sign + self.digits
    }

    pub open spec fn value(self) -> int {
        if self.sign == seq!['-'] {
            -(decimal::digits_value(self.digits) as int)
        } else {
            decimal::digits_value(self.digits) as int
        }
    }
}

impl NumberText {
    /// The digits behind the point.
    pub open spec fn behind(self) -> Seq<char> {
        match self.fraction {
            Some(digits) => digits,
            None => Seq::empty(),
        }
    }

    /// There is a digit before or behind the point.
    pub open spec fn well_formed(self) -> bool {
        &&& is_sign(self.sign)
        &&& only_digits(self.whole)
        &&& only_digits(self.behind())
        &&& self.whole.len() + self.behind().len() > 0
        &&& self.exponent matches Some(e) ==> e.well_formed()
    }

    /// What stands behind the whole digits.
    pub open spec fn written_fraction(self) -> Seq<char> {
        match self.fraction {
            Some(digits) => seq!['.'] + digits,
            None => Seq::empty(),
        }
    }

    pub open spec fn written_exponent(self) -> Seq<char> {
        match self.exponent {
            Some(e) => e.written(),
            None => Seq::empty(),
        }
    }

    pub open spec fn written(self) -> Seq<char> {
        self.sign + (self.whole + (self.written_fraction() + self.written_exponent()))
    }

    /// The power of ten that the digits count for, in microdollars to the
    /// dollar.
    pub open spec fn power(self) -> int {
        match self.exponent {
            Some(e) => e.value() - self.behind().len() + 6,
            None => 6 - self.behind().len(),
        }
    }
}

/// A digit more counts for itself, and ten times for those in front of it.
pub proof fn law_digits_are_decimal(s: Seq<char>, c: char)
    requires
        '0' <= c <= '9',
    ensures
        decimal::digits_value(Seq::empty()) == 0,
        decimal::digits_value(s.push(c)) == 10 * decimal::digits_value(s) + (c as int - '0' as int),
{
    assert(s.push(c).drop_last() == s);
}

/// Powers of ten.
pub proof fn law_powers_of_ten(n: nat)
    ensures
        decimal::pow10(0) == 1,
        decimal::pow10(n + 1) == 10 * decimal::pow10(n),
{
}

/// `q` is `m` times ten to the power `k`, rounded to the nearest integer with
/// halves upwards.
pub open spec fn is_scaled(q: int, m: nat, k: int) -> bool {
    if k >= 0 {
        q == m * decimal::pow10(k as nat)
    } else {
        -decimal::pow10((-k) as nat) < 2 * (q * decimal::pow10((-k) as nat) - m)
            <= decimal::pow10((-k) as nat)
    }
}

proof fn lemma_run_of_digits(a: Seq<char>, b: Seq<char>)
    requires
        only_digits(a),
        b.len() > 0 ==> !('0' <= b[0] <= '9'),
    ensures
        decimal::digit_run(a + b) == a.len(),
    decreases a.len(),
{
    if a.len() == 0 {
        assert(a + b == b);
    } else {
        assert('0' <= a[0] <= '9');
        assert((a + b)[0] == a[0]);
        assert((a + b).skip(1) == a.skip(1) + b);
        assert forall|i: int| 0 <= i < a.skip(1).len() implies '0' <= #[trigger] a.skip(1)[i] <= '9' by {
            assert(a.skip(1)[i] == a[i + 1]);
        }
        lemma_run_of_digits(a.skip(1), b);
    }
}

proof fn lemma_sign(sign: Seq<char>, s: Seq<char>)
    requires
        is_sign(sign),
        s.len() > 0 ==> s[0] != '+' && s[0] != '-',
    ensures
        decimal::unsigned_part(sign + s) == s,
        decimal::negative(sign + s) <==> sign == seq!['-'],
{
    if sign.len() == 0 {
        assert(sign + s == s);
    } else {
        assert((sign + s)[0] == sign[0]);
        assert((sign + s).skip(1) == s);
        assert(seq!['+'][0] == '+');
        assert(seq!['-'][0] == '-');
    }
}

proof fn lemma_exponent(e: ExponentText)
    requires
        e.well_formed(),
    ensures
        decimal::exponent_of(e.written()) == Some(e.value()),
{
    let s = e.written();
    assert(s.skip(1) == e.sign + e.digits);
    assert('0' <= e.digits[0] <= '9');
    lemma_sign(e.sign, e.digits);
    lemma_run_of_digits(e.digits, Seq::empty());
    assert(e.digits + Seq::<char>::empty() == e.digits);
}

/// A word starts with its letter, in either case.
proof fn lemma_word_start(s: Seq<char>)
    ensures
        decimal::is_word(s, "inf"@) ==> s.len() == 3 && (s[0] == 'i' || s[0] == 'I'),
        decimal::is_word(s, "infinity"@) ==> s.len() == 8 && (s[0] == 'i' || s[0] == 'I'),
        decimal::is_word(s, "nan"@) ==> s.len() == 3 && (s[0] == 'n' || s[0] == 'N'),
{
    reveal_strlit("inf");
    reveal_strlit("infinity");
    reveal_strlit("nan");
    let l = text::ascii_lowercase(s);
    assert(l.len() == s.len());
    if s.len() > 0 {
        assert(l[0] == text::ascii_lower(s[0]));
        assert(l[0] == 'i' ==> s[0] == 'i' || s[0] as int == 73);
        assert(l[0] == 'n' ==> s[0] == 'n' || s[0] as int == 78);
    }
}

proof fn lemma_number(n: NumberText)
    requires
        n.well_formed(),
    ensures
        decimal::microdollars(n.written()) == Some(
            decimal::saturated(
                decimal::scaled(decimal::digits_value(n.whole + n.behind()), n.power()),
                n.sign == seq!['-'],
            ),
        ),
{
    let rest = n.written_fraction() + n.written_exponent();
    let s = n.whole + rest;
    if n.whole.len() > 0 {
        assert('0' <= n.whole[0] <= '9');
        assert(s[0] == n.whole[0]);
    } else {
        assert(s[0] == '.');
    }
    lemma_sign(n.sign, s);
    lemma_word_start(s);
    lemma_run_of_digits(n.whole, rest);
    assert(s.skip(n.whole.len() as int) == rest);
    assert(s.take(n.whole.len() as int) == n.whole);
    let e = n.written_exponent();
    match n.fraction {
        Some(digits) => {
            assert(rest.skip(1) == digits + e);
            lemma_run_of_digits(digits, e);
            assert(rest.subrange(1, (1 + digits.len()) as int) == digits);
            assert(rest.skip((1 + digits.len()) as int) == e);
        },
        None => {
            assert(rest == e);
            assert(rest.skip(0) == e);
        },
    }
    match n.exponent {
        Some(x) => {
            lemma_exponent(x);
        },
        None => {},
    }
}

proof fn lemma_scaled(m: nat, k: int)
    ensures
        is_scaled(decimal::scaled(m, k), m, k),
        decimal::scaled(m, k) >= 0,
{
    if k < 0 {
        decimal::law_price_is_nearest(m, (-k) as nat);
        let p = decimal::pow10((-k) as nat) as int;
        let q = decimal::scaled(m, k);
        assert(q >= 0) by (nonlinear_arith)
            requires
                -p < 2 * (q * p - m),
                2 * (q * p - m) <= p,
                p >= 0,
                m >= 0,
        ;
    } else {
        let p = decimal::pow10(k as nat);
        assert(m * p >= 0) by (nonlinear_arith)
            requires
                m >= 0,
                p >= 0,
        ;
    }
}

/// A decimal number in dollars is read as the nearest microdollar, with its sign
/// and kept in the range of an `i64`: all its digits count, and so does its
/// exponent.
pub proof fn law_decimal_price_is_read(n: NumberText) -> (q: int)
    requires
        n.well_formed(),
    ensures
        q >= 0,
        is_scaled(q, decimal::digits_value(n.whole + n.behind()), n.power()),
        decimal::microdollars(n.written()) matches Some(amount) && {
            &&& n.sign != seq!['-'] && q <= i64::MAX ==> amount == q
            &&& n.sign != seq!['-'] && q > i64::MAX ==> amount == i64::MAX
            &&& n.sign == seq!['-'] && -q >= i64::MIN ==> amount == -q
            &&& n.sign == seq!['-'] && -q < i64::MIN ==> amount == i64::MIN
        },
{
    lemma_number(n);
    lemma_scaled(decimal::digits_value(n.whole + n.behind()), n.power());
    decimal::scaled(decimal::digits_value(n.whole + n.behind()), n.power())
}

/// The words for infinity, in either case and signed or not, are the ends of the
/// range; the word for no number is nothing.
pub proof fn law_words_are_read(sign: Seq<char>, word: Seq<char>)
    requires
        is_sign(sign),
    ensures
        (text::ascii_lowercase(word) == "inf"@ || text::ascii_lowercase(word) == "infinity"@)
            && sign != seq!['-'] ==> decimal::microdollars(sign + word) == Some(i64::MAX),
        (text::ascii_lowercase(word) == "inf"@ || text::ascii_lowercase(word) == "infinity"@)
            && sign == seq!['-'] ==> decimal::microdollars(sign + word) == Some(i64::MIN),
        text::ascii_lowercase(word) == "nan"@ ==> decimal::microdollars(sign + word) == Some(0i64),
{
    lemma_word_start(word);
    reveal_strlit("inf");
    reveal_strlit("infinity");
    reveal_strlit("nan");
    if text::ascii_lowercase(word) == "inf"@ || text::ascii_lowercase(word) == "infinity"@
        || text::ascii_lowercase(word) == "nan"@ {
        lemma_sign(sign, word);
    }
    if text::ascii_lowercase(word) == "nan"@ {
        assert("nan"@[0] == 'n');
        assert("inf"@[0] == 'i');
        assert("infinity"@[0] == 'i');
    }
}

proof fn lemma_sign_apart(s: Seq<char>) -> (sign: Seq<char>)
    ensures
        is_sign(sign),
        sign + decimal::unsigned_part(s) == s,
{
    if decimal::signed(s) {
        assert(s.take(1) =~= seq![s[0]]);
        assert(s.take(1) + s.skip(1) =~= s);
        s.take(1)
    } else {
        assert(Seq::<char>::empty() + s =~= s);
        Seq::empty()
    }
}

proof fn lemma_exponent_apart(s: Seq<char>) -> (e: ExponentText)
    requires
        s.len() > 0,
        decimal::exponent_of(s) is Some,
    ensures
        e.well_formed(),
        e.written() == s,
{
    let digits = decimal::unsigned_part(s.skip(1));
    let sign = lemma_sign_apart(s.skip(1));
    lemma_run_is_digits(digits);
    assert(digits.take(digits.len() as int) == digits);
    let e = ExponentText { letter: s[0], sign, digits };
    assert(e.written() =~= seq![s[0]] + (sign + digits));
    assert(e.written() =~= s);
    e
}

proof fn lemma_fraction_apart(s: Seq<char>) -> (fraction: Option<Seq<char>>)
    ensures
        decimal::fraction_len(s) <= s.len(),
        fraction matches Some(digits) ==> only_digits(digits) && seq!['.'] + digits == s.take(
            decimal::fraction_len(s) as int,
        ) && digits == decimal::fraction_digits(s, decimal::fraction_len(s)),
        fraction is None ==> decimal::fraction_len(s) == 0,
{
    if s.len() > 0 && s[0] == '.' {
        lemma_run_is_digits(s.skip(1));
        let n = decimal::fraction_len(s) as int;
        let digits = s.subrange(1, n);
        assert(digits =~= s.skip(1).take(n - 1));
        assert(seq!['.'] + digits =~= s.take(n));
        Some(digits)
    } else {
        None
    }
}

proof fn lemma_number_apart(s: Seq<char>, sign: Seq<char>) -> (n: NumberText)
    requires
        is_sign(sign),
        decimal::number_of(s) is Some,
    ensures
        n.well_formed(),
        n.written() == sign + s,
{
    let w = decimal::digit_run(s) as int;
    lemma_run_is_digits(s);
    let rest = s.skip(w);
    let f = decimal::fraction_len(rest) as int;
    let fraction = lemma_fraction_apart(rest);
    let tail = rest.skip(f);
    let exponent = if tail.len() == 0 {
        None
    } else {
        Some(lemma_exponent_apart(tail))
    };
    let n = NumberText { sign, whole: s.take(w), fraction, exponent };
    assert(n.written_exponent() =~= tail);
    assert(n.written_fraction() =~= rest.take(f));
    assert(rest.take(f) + tail =~= rest);
    assert(s.take(w) + rest =~= s);
    n
}

/// What a price can be read from is one of those words or a decimal number;
/// nothing else is a price. The number is what is returned for it.
pub proof fn law_only_numbers_are_prices(s: Seq<char>) -> (n: NumberText)
    requires
        decimal::microdollars(s) is Some,
    ensures
        (n.well_formed() && n.written() == s) || (is_sign(n.sign) && s == n.sign + n.whole && (
        text::ascii_lowercase(n.whole) == "inf"@ || text::ascii_lowercase(n.whole) == "infinity"@
            || text::ascii_lowercase(n.whole) == "nan"@)),
{
    let u = decimal::unsigned_part(s);
    let sign = lemma_sign_apart(s);
    if decimal::is_word(u, "inf"@) || decimal::is_word(u, "infinity"@) || decimal::is_word(
        u,
        "nan"@,
    ) {
        NumberText { sign, whole: u, fraction: None, exponent: None }
    } else {
        lemma_number_apart(u, sign)
    }
}

proof fn lemma_run_is_digits(s: Seq<char>)
    ensures
        decimal::digit_run(s) <= s.len(),
        only_digits(s.take(decimal::digit_run(s) as int)),
    decreases s.len(),
{
    if s.len() > 0 && '0' <= s[0] <= '9' {
        lemma_run_is_digits(s.skip(1));
        let n = decimal::digit_run(s.skip(1)) as int;
        assert forall|i: int| 0 <= i < n + 1 implies '0' <= #[trigger] s.take(n + 1)[i] <= '9' by {
            if i > 0 {
                assert(s.skip(1).take(n)[i - 1] == s[i]);
            }
        }
    }
}

} // verus!
