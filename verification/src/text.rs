//! Text helpers shared by the other modules.

use vstd::prelude::*;

verus! {

/// `String::push` appends one character to the end of the string and leaves
/// what was there before it untouched.
pub assume_specification[ String::push ](s: &mut String, c: char)
    ensures
        final(s)@ == old(s)@.push(c),
;

/// The characters of `s`, in order.
pub(crate) fn chars_of(s: &str) -> (v: Vec<char>)
    ensures
        v@ == s@,
{
    let mut v: Vec<char> = Vec::new();
    for c in it: s.chars()
        invariant
            v@ == it.seq().take(it.index()),
            it.seq() == s@,
    {
        v.push(c);
    }
    v
}

/// Whether `p` occurs somewhere in `s`.
pub open spec fn contains_text(s: Seq<char>, p: Seq<char>) -> bool {
    exists|i: int| 0 <= i <= s.len() - p.len() && #[trigger] s.subrange(i, i + p.len()) == p
}

/// Whether `p` stands in `s` at `at`.
fn occurs_at(s: &Vec<char>, at: usize, p: &Vec<char>) -> (r: bool)
    requires
        at + p.len() <= s.len(),
    ensures
        r == (s@.subrange(at as int, at + p@.len()) == p@),
{
    let mut i: usize = 0;
    while i < p.len()
        invariant
            at + p.len() <= s.len(),
            i <= p.len(),
            forall|k: int| 0 <= k < i ==> s@[at + k] == #[trigger] p@[k],
        decreases p.len() - i,
    {
        if s[at + i] != p[i] {
            assert(s@.subrange(at as int, at + p@.len())[i as int] != p@[i as int]);
            return false;
        }
        i += 1;
    }
    assert(s@.subrange(at as int, at + p@.len()) =~= p@);
    true
}

/// Whether `pattern` occurs somewhere in `s`.
pub(crate) fn contains(s: &str, pattern: &str) -> (r: bool)
    ensures
        r == contains_text(s@, pattern@),
{
    let text = chars_of(s);
    let p = chars_of(pattern);
    if p.len() > text.len() {
        return false;
    }
    let last: usize = text.len() - p.len();
    let mut i: usize = 0;
    while i <= last
        invariant
            text@ == s@,
            p@ == pattern@,
            last + p.len() == text.len(),
            i <= last + 1,
            forall|k: int|
                0 <= k < i ==> #[trigger] text@.subrange(k, k + p@.len()) != p@,
        decreases last + 1 - i,
    {
        if occurs_at(&text, i, &p) {
            return true;
        }
        if i == last {
            return false;
        }
        i += 1;
    }
    false
}

/// The lower case of an ASCII letter, any other character as it is.
pub open spec fn ascii_lower(c: char) -> char {
    if 'A' <= c <= 'Z' {
        ((c as u32) + 32) as char
    } else {
        c
    }
}

/// `s` with each ASCII letter in lower case.
pub open spec fn ascii_lowercase(s: Seq<char>) -> Seq<char> {
    s.map_values(|c: char| ascii_lower(c))
}

pub open spec fn is_ascii_text(s: Seq<char>) -> bool {
    forall|i: int| 0 <= i < s.len() ==> #[trigger] s[i] <= '\u{7f}'
}

/// The lower case of a text by the rules of Unicode, as `str::to_lowercase`
/// gives it.
pub uninterp spec fn lowercase(s: Seq<char>) -> Seq<char>;

/// `str::to_lowercase`: the Unicode lower case of `s`. On ASCII text it maps
/// each letter by itself and leaves every other character alone.
#[verifier::external_body]
pub(crate) fn to_lowercase(s: &str) -> (r: String)
    ensures
        r@ == lowercase(s@),
        is_ascii_text(s@) ==> r@ == ascii_lowercase(s@),
{
    s.to_lowercase()
}

/// The decimal digits of `n`, without leading zeros.
pub open spec fn decimal(n: nat) -> Seq<char>
    decreases n,
{
    if n < 10 {
        seq![(n + 48) as char]
    } else {
        decimal(n / 10).push((n % 10 + 48) as char)
    }
}

fn digit_char(d: u32) -> (c: char)
    requires
        d < 10,
    ensures
        c == (d + 48) as char,
{
    match d {
        0 => '0',
        1 => '1',
        2 => '2',
        3 => '3',
        4 => '4',
        5 => '5',
        6 => '6',
        7 => '7',
        8 => '8',
        _ => '9',
    }
}

/// Append the decimal digits of `n`.
pub(crate) fn push_decimal(out: &mut String, n: u32)
    ensures
        final(out)@ == old(out)@ + decimal(n as nat),
    decreases n,
{
    if n >= 10 {
        push_decimal(out, n / 10);
    }
    out.push(digit_char(n % 10));
    assert(out@ =~= old(out)@ + decimal(n as nat));
}

} // verus!
