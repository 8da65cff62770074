//! Removal of terminal control sequences from model output.

use vstd::prelude::*;

use crate::text::chars_of;

verus! {

/// A C0 or C1 control code: general category `Cc`.
pub open spec fn is_control(c: char) -> bool {
    c <= '\u{1f}' || '\u{7f}' <= c <= '\u{9f}'
}

/// A format control character: general category `Cf`, which holds every
/// bidirectional control.
pub open spec fn is_format(c: char) -> bool {
    ||| c == '\u{ad}'
    ||| '\u{600}' <= c <= '\u{605}'
    ||| c == '\u{61c}'
    ||| c == '\u{6dd}'
    ||| c == '\u{70f}'
    ||| '\u{890}' <= c <= '\u{891}'
    ||| c == '\u{8e2}'
    ||| c == '\u{180e}'
    ||| '\u{200b}' <= c <= '\u{200f}'
    ||| '\u{202a}' <= c <= '\u{202e}'
    ||| '\u{2060}' <= c <= '\u{2064}'
    ||| '\u{2066}' <= c <= '\u{206f}'
    ||| c == '\u{feff}'
    ||| '\u{fff9}' <= c <= '\u{fffb}'
    ||| c == '\u{110bd}'
    ||| c == '\u{110cd}'
    ||| '\u{13430}' <= c <= '\u{1343f}'
    ||| '\u{1bca0}' <= c <= '\u{1bca3}'
    ||| '\u{1d173}' <= c <= '\u{1d17a}'
    ||| c == '\u{e0001}'
    ||| '\u{e0020}' <= c <= '\u{e007f}'
}

/// A character that never reaches the output, whatever surrounds it.
pub open spec fn is_removed(c: char) -> bool {
    (is_control(c) && c != '\n' && c != '\r' && c != '\t') || is_format(c)
}

pub open spec fn is_ascii_letter(c: char) -> bool {
    'a' <= c <= 'z' || 'A' <= c <= 'Z'
}

/// What is left of `s` behind its first ASCII letter.
pub open spec fn after_letter(s: Seq<char>) -> Seq<char>
    decreases s.len(),
{
    if s.len() == 0 {
        s
    } else if is_ascii_letter(s[0]) {
        s.skip(1)
    } else {
        after_letter(s.skip(1))
    }
}

/// What is left of `s` behind the string terminator: `ESC \` or U+009C, and
/// also BEL where `bell` says that it ends the string.
pub open spec fn after_terminator(s: Seq<char>, bell: bool) -> Seq<char>
    decreases s.len(),
{
    if s.len() == 0 {
        s
    } else if s[0] == '\u{9c}' || (bell && s[0] == '\u{7}') {
        s.skip(1)
    } else if s[0] == '\u{1b}' && s.len() > 1 && s[1] == '\\' {
        s.skip(2)
    } else {
        after_terminator(s.skip(1), bell)
    }
}

/// What is left of `s`, the text behind an ESC, once the escape sequence is
/// over. An operating system command (`]`) and a device control string (`P`)
/// run to their terminator, any other sequence to its first ASCII letter, and
/// one that is never closed to the end of the text.
pub open spec fn after_escape(s: Seq<char>) -> Seq<char> {
    if s.len() > 0 && s[0] == ']' {
        after_terminator(s.skip(1), true)
    } else if s.len() > 0 && s[0] == 'P' {
        after_terminator(s.skip(1), false)
    } else {
        after_letter(s)
    }
}

/// `s` without its escape sequences and without control and format characters.
pub open spec fn stripped(s: Seq<char>) -> Seq<char>
    decreases s.len(),
{
    if s.len() == 0 {
        s
    } else if s[0] == '\u{1b}' {
        proof {
            lemma_after_escape_is_tail(s.skip(1));
        }
        stripped(after_escape(s.skip(1)))
    } else if is_removed(s[0]) {
        stripped(s.skip(1))
    } else {
        seq![s[0]] + stripped(s.skip(1))
    }
}

/// Both ways to end a sequence leave a tail of the text.
proof fn lemma_after_letter_is_tail(s: Seq<char>)
    ensures
        after_letter(s).len() <= s.len(),
        after_letter(s) == s.skip(s.len() - after_letter(s).len()),
    decreases s.len(),
{
    if s.len() == 0 {
        assert(s == s.skip(0));
    } else if !is_ascii_letter(s[0]) {
        lemma_after_letter_is_tail(s.skip(1));
    }
}

proof fn lemma_after_terminator_is_tail(s: Seq<char>, bell: bool)
    ensures
        after_terminator(s, bell).len() <= s.len(),
        after_terminator(s, bell) == s.skip(s.len() - after_terminator(s, bell).len()),
    decreases s.len(),
{
    if s.len() == 0 {
        assert(s == s.skip(0));
    } else if s[0] == '\u{9c}' || (bell && s[0] == '\u{7}') {
    } else if s[0] == '\u{1b}' && s.len() > 1 && s[1] == '\\' {
    } else {
        lemma_after_terminator_is_tail(s.skip(1), bell);
    }
}

pub proof fn lemma_after_escape_is_tail(s: Seq<char>)
    ensures
        after_escape(s).len() <= s.len(),
        after_escape(s) == s.skip(s.len() - after_escape(s).len()),
{
    lemma_after_letter_is_tail(s);
    if s.len() > 0 {
        lemma_after_terminator_is_tail(s.skip(1), true);
        lemma_after_terminator_is_tail(s.skip(1), false);
    }
}

/// No character of `s` is one that has to go.
pub open spec fn is_clean(s: Seq<char>) -> bool {
    forall|i: int| 0 <= i < s.len() ==> !is_removed(#[trigger] s[i])
}

/// `a` is `b` with some characters left out.
pub open spec fn is_subsequence(a: Seq<char>, b: Seq<char>) -> bool
    decreases b.len(),
{
    if b.len() == 0 {
        a.len() == 0
    } else {
        ||| is_subsequence(a, b.skip(1))
        ||| a.len() > 0 && a[0] == b[0] && is_subsequence(a.skip(1), b.skip(1))
    }
}

/// Stripped text holds no escape, control or format character but `\n`, `\r`
/// and `\t`.
pub proof fn law_stripped_text_is_clean(s: Seq<char>)
    ensures
        is_clean(stripped(s)),
    decreases s.len(),
{
    if s.len() > 0 {
        lemma_after_escape_is_tail(s.skip(1));
        if s[0] == '\u{1b}' {
            law_stripped_text_is_clean(after_escape(s.skip(1)));
        } else {
            law_stripped_text_is_clean(s.skip(1));
        }
    }
}

/// A text without ESC is stripped by itself, whatever follows it.
pub proof fn law_prefix_without_escape_is_stripped_alone(a: Seq<char>, b: Seq<char>)
    requires
        forall|i: int| 0 <= i < a.len() ==> #[trigger] a[i] != '\u{1b}',
    ensures
        stripped(a + b) == stripped(a) + stripped(b),
    decreases a.len(),
{
    if a.len() == 0 {
        assert(a + b == b);
        assert(stripped(a) + stripped(b) == stripped(b));
    } else {
        assert((a + b).skip(1) == a.skip(1) + b);
        law_prefix_without_escape_is_stripped_alone(a.skip(1), b);
        assert(a[0] != '\u{1b}');
        if !is_removed(a[0]) {
            assert(seq![a[0]] + (stripped(a.skip(1)) + stripped(b)) == stripped(a) + stripped(b));
        }
    }
}

/// Clean text is returned unchanged.
pub proof fn law_clean_text_is_unchanged(s: Seq<char>)
    requires
        is_clean(s),
    ensures
        stripped(s) == s,
    decreases s.len(),
{
    if s.len() > 0 {
        law_clean_text_is_unchanged(s.skip(1));
        assert(!is_removed(s[0]));
        assert(seq![s[0]] + s.skip(1) == s);
    }
}

/// Clean text in front of anything comes out as it is.
pub proof fn law_clean_prefix_is_kept(a: Seq<char>, b: Seq<char>)
    requires
        is_clean(a),
    ensures
        stripped(a + b) == a + stripped(b),
{
    assert forall|i: int| 0 <= i < a.len() implies #[trigger] a[i] != '\u{1b}' by {
        assert(!is_removed(a[i]));
    }
    law_prefix_without_escape_is_stripped_alone(a, b);
    law_clean_text_is_unchanged(a);
}

/// Stripping a second time changes nothing.
pub proof fn law_strip_is_idempotent(s: Seq<char>)
    ensures
        stripped(stripped(s)) == stripped(s),
{
    law_stripped_text_is_clean(s);
    law_clean_text_is_unchanged(stripped(s));
}

proof fn lemma_subsequence_of_tail(a: Seq<char>, b: Seq<char>, n: int)
    requires
        0 <= n <= b.len(),
        is_subsequence(a, b.skip(n)),
    ensures
        is_subsequence(a, b),
    decreases n,
{
    if n == 0 {
        assert(b.skip(0) == b);
    } else {
        assert(b.skip(n) == b.skip(1).skip(n - 1));
        lemma_subsequence_of_tail(a, b.skip(1), n - 1);
    }
}

/// Stripping only leaves characters out: it adds none and swaps none.
pub proof fn law_stripped_text_is_subsequence(s: Seq<char>)
    ensures
        is_subsequence(stripped(s), s),
    decreases s.len(),
{
    if s.len() > 0 {
        let rest = s.skip(1);
        lemma_after_escape_is_tail(rest);
        if s[0] == '\u{1b}' {
            let tail = after_escape(rest);
            law_stripped_text_is_subsequence(tail);
            lemma_subsequence_of_tail(stripped(tail), rest, rest.len() - tail.len());
        } else {
            law_stripped_text_is_subsequence(rest);
            if !is_removed(s[0]) {
                assert(stripped(s).skip(1) == stripped(rest));
            }
        }
    }
}

proof fn lemma_after_letter_at(p: Seq<char>, letter: char, b: Seq<char>)
    requires
        forall|i: int| 0 <= i < p.len() ==> !is_ascii_letter(#[trigger] p[i]),
        is_ascii_letter(letter),
    ensures
        after_letter(p + seq![letter] + b) == b,
    decreases p.len(),
{
    let s = p + seq![letter] + b;
    if p.len() == 0 {
        assert(s.skip(1) == b);
    } else {
        assert(s.skip(1) == p.skip(1) + seq![letter] + b);
        assert(s[0] == p[0]);
        lemma_after_letter_at(p.skip(1), letter, b);
    }
}

/// An escape sequence that is neither an operating system command nor a device
/// control string vanishes up to its first letter, and the text behind it is
/// stripped as if it stood alone.
pub proof fn law_escape_sequence_is_removed(p: Seq<char>, letter: char, b: Seq<char>)
    requires
        forall|i: int| 0 <= i < p.len() ==> !is_ascii_letter(#[trigger] p[i]),
        is_ascii_letter(letter),
        p.len() == 0 ==> letter != 'P',
        p.len() > 0 ==> p[0] != ']',
    ensures
        stripped(seq!['\u{1b}'] + p + seq![letter] + b) == stripped(b),
{
    let s = seq!['\u{1b}'] + p + seq![letter] + b;
    assert(s.skip(1) == p + seq![letter] + b);
    assert(p.len() > 0 ==> s.skip(1)[0] == p[0]);
    lemma_after_letter_at(p, letter, b);
}

/// A control sequence, `ESC [` up to its closing letter, vanishes and the text
/// behind it is stripped as if it stood alone.
pub proof fn law_control_sequence_is_removed(p: Seq<char>, letter: char, b: Seq<char>)
    requires
        forall|i: int| 0 <= i < p.len() ==> !is_ascii_letter(#[trigger] p[i]),
        is_ascii_letter(letter),
    ensures
        stripped(seq!['\u{1b}', '['] + p + seq![letter] + b) == stripped(b),
{
    let q = seq!['['] + p;
    assert forall|i: int| 0 <= i < q.len() implies !is_ascii_letter(#[trigger] q[i]) by {
        if i > 0 {
            assert(q[i] == p[i - 1]);
        }
    }
    assert(seq!['\u{1b}', '['] + p == seq!['\u{1b}'] + q);
    law_escape_sequence_is_removed(q, letter, b);
}

/// Whether a control string can hold `p`: nothing in it ends the string, where
/// BEL does so only if `bell` says it.
pub open spec fn is_payload(p: Seq<char>, bell: bool) -> bool {
    forall|i: int|
        0 <= i < p.len() ==> {
            &&& #[trigger] p[i] != '\u{9c}'
            &&& bell ==> p[i] != '\u{7}'
            &&& p[i] == '\u{1b}' && i + 1 < p.len() ==> p[i + 1] != '\\'
        }
}

/// The two ways to write the string terminator.
pub open spec fn is_terminator(t: Seq<char>) -> bool {
    t == seq!['\u{1b}', '\\'] || t == seq!['\u{9c}']
}

proof fn lemma_after_terminator_at(p: Seq<char>, t: Seq<char>, b: Seq<char>, bell: bool)
    requires
        is_payload(p, bell),
        is_terminator(t) || (bell && t == seq!['\u{7}']),
    ensures
        after_terminator(p + t + b, bell) == b,
    decreases p.len(),
{
    let s = p + t + b;
    if p.len() == 0 {
        assert(s == t + b);
        assert((t + b).skip(t.len() as int) == b);
        assert(s[0] == t[0]);
        assert(t.len() > 1 ==> s[1] == t[1]);
    } else {
        let q = p.skip(1);
        assert(s.skip(1) == q + t + b);
        assert(s[0] == p[0]);
        assert(s[1] == if p.len() > 1 {
            p[1]
        } else {
            t[0]
        });
        assert(is_payload(q, bell)) by {
            assert forall|i: int| 0 <= i < q.len() implies {
                &&& #[trigger] q[i] != '\u{9c}'
                &&& bell ==> q[i] != '\u{7}'
                &&& q[i] == '\u{1b}' && i + 1 < q.len() ==> q[i + 1] != '\\'
            } by {
                assert(q[i] == p[i + 1]);
            }
        }
        lemma_after_terminator_at(q, t, b, bell);
    }
}

/// An operating system command, `ESC ]` up to BEL or the string terminator,
/// vanishes with all it says.
pub proof fn law_operating_system_command_is_removed(p: Seq<char>, t: Seq<char>, b: Seq<char>)
    requires
        is_payload(p, true),
        is_terminator(t) || t == seq!['\u{7}'],
    ensures
        stripped(seq!['\u{1b}', ']'] + p + t + b) == stripped(b),
{
    let s = seq!['\u{1b}', ']'] + p + t + b;
    assert(s.skip(1).skip(1) == p + t + b);
    lemma_after_terminator_at(p, t, b, true);
}

/// A device control string, `ESC P` up to the string terminator, vanishes with
/// all it says, a BEL within it too.
pub proof fn law_device_control_string_is_removed(p: Seq<char>, t: Seq<char>, b: Seq<char>)
    requires
        is_payload(p, false),
        is_terminator(t),
    ensures
        stripped(seq!['\u{1b}', 'P'] + p + t + b) == stripped(b),
{
    let s = seq!['\u{1b}', 'P'] + p + t + b;
    assert(s.skip(1).skip(1) == p + t + b);
    lemma_after_terminator_at(p, t, b, false);
}

fn within(c: char, first: char, last: char) -> (r: bool)
    ensures
        r == (first <= c <= last),
{
    first <= c && c <= last
}

/// Whether `c` is a format control character of the basic multilingual plane.
fn is_basic_format(c: char) -> (r: bool)
    ensures
        r == (is_format(c) && c <= '\u{ffff}'),
{
    c == '\u{ad}' || within(c, '\u{600}', '\u{605}') || c == '\u{61c}' || c == '\u{6dd}'
        || c == '\u{70f}' || within(c, '\u{890}', '\u{891}') || c == '\u{8e2}' || c == '\u{180e}'
        || within(c, '\u{200b}', '\u{200f}') || within(c, '\u{202a}', '\u{202e}')
        || within(c, '\u{2060}', '\u{2064}') || within(c, '\u{2066}', '\u{206f}')
        || c == '\u{feff}' || within(c, '\u{fff9}', '\u{fffb}')
}

/// Whether `c` is a format control character beyond the basic multilingual
/// plane.
fn is_supplementary_format(c: char) -> (r: bool)
    ensures
        r == (is_format(c) && c > '\u{ffff}'),
{
    c == '\u{110bd}' || c == '\u{110cd}' || within(c, '\u{13430}', '\u{1343f}')
        || within(c, '\u{1bca0}', '\u{1bca3}') || within(c, '\u{1d173}', '\u{1d17a}')
        || c == '\u{e0001}' || within(c, '\u{e0020}', '\u{e007f}')
}

fn removes(c: char) -> (r: bool)
    ensures
        r == is_removed(c),
{
    if c == '\n' || c == '\r' || c == '\t' {
        return false;
    }
    c <= '\u{1f}' || within(c, '\u{7f}', '\u{9f}') || is_basic_format(c)
        || is_supplementary_format(c)
}

/// The index behind the first ASCII letter at or after `from`.
fn skip_letter(chars: &Vec<char>, from: usize) -> (end: usize)
    requires
        from <= chars.len(),
    ensures
        from <= end <= chars.len(),
        after_letter(chars@.skip(from as int)) == chars@.skip(end as int),
{
    let mut i: usize = from;
    while i < chars.len()
        invariant
            from <= i <= chars.len(),
            after_letter(chars@.skip(from as int)) == after_letter(chars@.skip(i as int)),
        decreases chars.len() - i,
    {
        let c = chars[i];
        assert(chars@.skip(i as int).skip(1) == chars@.skip(i + 1));
        i += 1;
        if ('a' <= c && c <= 'z') || ('A' <= c && c <= 'Z') {
            return i;
        }
    }
    i
}

/// The index behind the first string terminator at or after `from`.
fn skip_terminator(chars: &Vec<char>, from: usize, bell: bool) -> (end: usize)
    requires
        from <= chars.len(),
    ensures
        from <= end <= chars.len(),
        after_terminator(chars@.skip(from as int), bell) == chars@.skip(end as int),
{
    let mut i: usize = from;
    while i < chars.len()
        invariant
            from <= i <= chars.len(),
            after_terminator(chars@.skip(from as int), bell) == after_terminator(
                chars@.skip(i as int),
                bell,
            ),
        decreases chars.len() - i,
    {
        let c = chars[i];
        assert(chars@.skip(i as int).skip(1) == chars@.skip(i + 1));
        if c == '\u{9c}' || (bell && c == '\u{7}') {
            return i + 1;
        }
        if c == '\u{1b}' && chars.len() - i > 1 && chars[i + 1] == '\\' {
            assert(chars@.skip(i as int).skip(2) == chars@.skip(i + 2));
            return i + 2;
        }
        i += 1;
    }
    i
}

/// Strip ANSI escape sequences, control characters (preserving `\n`, `\r`,
/// `\t`) and Unicode bidi/format characters from provider output, preventing
/// terminal injection from a compromised provider.
pub fn strip_control(s: &str) -> (out: String)
    ensures
        out@ == stripped(s@),
{
    let chars = chars_of(s);
    let mut out = String::new();
    let mut i: usize = 0;
    assert(chars@.skip(0) == chars@);
    while i < chars.len()
        invariant
            i <= chars.len(),
            chars@ == s@,
            out@ + stripped(chars@.skip(i as int)) == stripped(s@),
        decreases chars.len() - i,
    {
        let c = chars[i];
        assert(chars@.skip(i as int).skip(1) == chars@.skip(i + 1));
        i += 1;
        if c == '\u{1b}' {
            assert(i < chars.len() ==> chars@.skip(i as int).skip(1) == chars@.skip(i + 1));
            if i < chars.len() && chars[i] == ']' {
                i = skip_terminator(&chars, i + 1, true);
            } else if i < chars.len() && chars[i] == 'P' {
                i = skip_terminator(&chars, i + 1, false);
            } else {
                i = skip_letter(&chars, i);
            }
        } else if !removes(c) {
            out.push(c);
        }
    }
    out
}

} // verus!
