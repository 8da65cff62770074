//! Model output: what is kept of it and what is not, said of the characters.

use vstd::prelude::*;

use crate::sanitize;

verus! {

/// A C0 or C1 control code.
pub open spec fn is_control_code(c: char) -> bool {
    '\u{0}' <= c <= '\u{1f}' || '\u{7f}' <= c <= '\u{9f}'
}

/// A character of general category `Cf`.
pub open spec fn is_format_control(c: char) -> bool {
    ||| c == '\u{ad}'
    ||| '\u{600}' <= c <= '\u{605}'
    ||| c == '\u{61c}'
    ||| c == '\u{6dd}'
    ||| c == '\u{70f}'
    ||| c == '\u{890}'
    ||| c == '\u{891}'
    ||| c == '\u{8e2}'
    ||| c == '\u{180e}'
    ||| '\u{200b}' <= c <= '\u{200f}'
    ||| '\u{202a}' <= c <= '\u{202e}'
    ||| '\u{2060}' <= c <= '\u{2064}'
    ||| '\u{2066}' <= c <= '\u{206f}'
    ||| c == '\u{feff}'
    ||| '\u{fff9}' <= c <= '\u{fffb}'
    ||| c == '\u{110bd}'
    ||| c == '\u{110cd}'
    ||| '\u{13430}' <= c <= '\u{1343f}'
    ||| '\u{1bca0}' <= c <= '\u{1bca3}'
    ||| '\u{1d173}' <= c <= '\u{1d17a}'
    ||| c == '\u{e0001}'
    ||| '\u{e0020}' <= c <= '\u{e007f}'
}

/// Line breaks, tabs, and whatever is neither control code nor format control.
pub open spec fn is_visible(c: char) -> bool {
    ||| c == '\n'
    ||| c == '\r'
    ||| c == '\t'
    ||| !is_control_code(c) && !is_format_control(c)
}

pub open spec fn has_no_escape(s: Seq<char>) -> bool {
    forall|i: int| 0 <= i < s.len() ==> #[trigger] s[i] != '\u{1b}'
}

pub open spec fn has_no_letter(s: Seq<char>) -> bool {
    forall|i: int|
        0 <= i < s.len() ==> !('a' <= #[trigger] s[i] <= 'z') && !('A' <= s[i] <= 'Z')
}

/// Whether nothing in `p` ends a terminal string: neither U+009C nor `ESC \`,
/// nor BEL where `bell` says that it does.
pub open spec fn has_no_terminator(p: Seq<char>, bell: bool) -> bool {
    forall|i: int|
        0 <= i < p.len() ==> {
            &&& #[trigger] p[i] != '\u{9c}'
            &&& bell ==> p[i] != '\u{7}'
            &&& p[i] == '\u{1b}' && i + 1 < p.len() ==> p[i + 1] != '\\'
        }
}

/// Printable ASCII text with its line breaks and tabs is left alone.
pub proof fn law_printable_ascii_is_kept(s: Seq<char>)
    requires
        forall|i: int|
            0 <= i < s.len() ==> '\u{20}' <= #[trigger] s[i] <= '\u{7e}' || s[i] == '\n' || s[i]
                == '\r' || s[i] == '\t',
    ensures
        sanitize::stripped(s) == s,
{
    assert forall|i: int| 0 <= i < s.len() implies is_visible(#[trigger] s[i]) by {}
    law_visible_text_is_kept(s);
}

/// Visible text is left alone, every character of it.
pub proof fn law_visible_text_is_kept(s: Seq<char>)
    requires
        forall|i: int| 0 <= i < s.len() ==> is_visible(#[trigger] s[i]),
    ensures
        sanitize::stripped(s) == s,
{
    assert forall|i: int| 0 <= i < s.len() implies !sanitize::is_removed(#[trigger] s[i]) by {
        law_only_invisible_characters_are_removed(s[i]);
    }
    sanitize::law_clean_text_is_unchanged(s);
}

/// What is removed for its own sake is a control code or a format control, and
/// nothing else.
pub proof fn law_only_invisible_characters_are_removed(c: char)
    ensures
        sanitize::is_removed(c) <==> !is_visible(c),
{
}

/// A control code or format control between texts vanishes and leaves both as
/// they would be alone.
pub proof fn law_invisible_character_vanishes(a: Seq<char>, c: char, b: Seq<char>)
    requires
        has_no_escape(a),
        is_control_code(c) || is_format_control(c),
        c != '\n' && c != '\r' && c != '\t' && c != '\u{1b}',
    ensures
        sanitize::stripped(a + seq![c] + b) == sanitize::stripped(a) + sanitize::stripped(b),
{
    let s = seq![c] + b;
    assert(a + seq![c] + b == a + s);
    assert(s.skip(1) == b);
    sanitize::law_prefix_without_escape_is_stripped_alone(a, s);
}

/// What comes out is visible, and only visible.
pub proof fn law_output_is_visible(s: Seq<char>, i: int)
    requires
        0 <= i < sanitize::stripped(s).len(),
    ensures
        is_visible(sanitize::stripped(s)[i]),
{
    sanitize::law_stripped_text_is_clean(s);
}

/// An escape sequence ends at its first ASCII letter, unless it opens a terminal
/// string; it vanishes, and the texts around it are stripped each by itself.
pub proof fn law_escape_ends_at_a_letter(a: Seq<char>, p: Seq<char>, letter: char, b: Seq<char>)
    requires
        has_no_escape(a),
        has_no_letter(p),
        'a' <= letter <= 'z' || 'A' <= letter <= 'Z',
        p.len() == 0 ==> letter != 'P',
        p.len() > 0 ==> p[0] != ']',
    ensures
        sanitize::stripped(a + seq!['\u{1b}'] + p + seq![letter] + b) == sanitize::stripped(a)
            + sanitize::stripped(b),
{
    let s = seq!['\u{1b}'] + p + seq![letter] + b;
    assert(a + seq!['\u{1b}'] + p + seq![letter] + b == a + s);
    sanitize::law_prefix_without_escape_is_stripped_alone(a, s);
    sanitize::law_escape_sequence_is_removed(p, letter, b);
}

/// An operating system command ends at BEL or the string terminator and vanishes
/// with all it says.
pub proof fn law_terminal_command_vanishes(a: Seq<char>, p: Seq<char>, t: Seq<char>, b: Seq<char>)
    requires
        has_no_escape(a),
        has_no_terminator(p, true),
        t == seq!['\u{7}'] || t == seq!['\u{9c}'] || t == seq!['\u{1b}', '\\'],
    ensures
        sanitize::stripped(a + seq!['\u{1b}', ']'] + p + t + b) == sanitize::stripped(a)
            + sanitize::stripped(b),
{
    let s = seq!['\u{1b}', ']'] + p + t + b;
    assert(a + seq!['\u{1b}', ']'] + p + t + b == a + s);
    sanitize::law_prefix_without_escape_is_stripped_alone(a, s);
    sanitize::law_operating_system_command_is_removed(p, t, b);
}

/// A device control string ends at the string terminator, not at BEL, and
/// vanishes with all it says.
pub proof fn law_device_string_vanishes(a: Seq<char>, p: Seq<char>, t: Seq<char>, b: Seq<char>)
    requires
        has_no_escape(a),
        has_no_terminator(p, false),
        t == seq!['\u{9c}'] || t == seq!['\u{1b}', '\\'],
    ensures
        sanitize::stripped(a + seq!['\u{1b}', 'P'] + p + t + b) == sanitize::stripped(a)
            + sanitize::stripped(b),
{
    let s = seq!['\u{1b}', 'P'] + p + t + b;
    assert(a + seq!['\u{1b}', 'P'] + p + t + b == a + s);
    sanitize::law_prefix_without_escape_is_stripped_alone(a, s);
    sanitize::law_device_control_string_is_removed(p, t, b);
}

proof fn lemma_no_letter_left(p: Seq<char>)
    requires
        has_no_letter(p),
    ensures
        sanitize::after_letter(p).len() == 0,
    decreases p.len(),
{
    if p.len() > 0 {
        assert(!('a' <= p[0] <= 'z') && !('A' <= p[0] <= 'Z'));
        lemma_no_letter_left(p.skip(1));
    }
}

proof fn lemma_no_terminator_left(p: Seq<char>, bell: bool)
    requires
        has_no_terminator(p, bell),
    ensures
        sanitize::after_terminator(p, bell).len() == 0,
    decreases p.len(),
{
    if p.len() > 0 {
        let q = p.skip(1);
        assert(p[0] != '\u{9c}');
        assert forall|i: int| 0 <= i < q.len() implies {
            &&& #[trigger] q[i] != '\u{9c}'
            &&& bell ==> q[i] != '\u{7}'
            &&& q[i] == '\u{1b}' && i + 1 < q.len() ==> q[i + 1] != '\\'
        } by {
            assert(q[i] == p[i + 1]);
        }
        lemma_no_terminator_left(q, bell);
    }
}

/// A sequence that is never closed swallows the rest of the text, and nothing in
/// front of it.
pub proof fn law_unclosed_sequence_runs_to_the_end(a: Seq<char>, p: Seq<char>)
    requires
        has_no_escape(a),
    ensures
        has_no_letter(p) && (p.len() > 0 ==> p[0] != ']') ==> sanitize::stripped(
            a + seq!['\u{1b}'] + p,
        ) == sanitize::stripped(a),
        has_no_terminator(p, true) ==> sanitize::stripped(a + seq!['\u{1b}', ']'] + p)
            == sanitize::stripped(a),
        has_no_terminator(p, false) ==> sanitize::stripped(a + seq!['\u{1b}', 'P'] + p)
            == sanitize::stripped(a),
{
    let none = Seq::<char>::empty();
    assert(sanitize::stripped(none) == none);
    assert(sanitize::stripped(a) + none == sanitize::stripped(a));
    if has_no_letter(p) && (p.len() > 0 ==> p[0] != ']') {
        let s = seq!['\u{1b}'] + p;
        assert(a + seq!['\u{1b}'] + p == a + s);
        assert(s.skip(1) == p);
        lemma_no_letter_left(p);
        assert(p.len() > 0 ==> p[0] != 'P');
        assert(sanitize::after_escape(p) == none);
        sanitize::law_prefix_without_escape_is_stripped_alone(a, s);
    }
    if has_no_terminator(p, true) {
        let s = seq!['\u{1b}', ']'] + p;
        assert(a + seq!['\u{1b}', ']'] + p == a + s);
        assert(s.skip(1).skip(1) == p);
        lemma_no_terminator_left(p, true);
        assert(sanitize::after_escape(s.skip(1)) == none);
        sanitize::law_prefix_without_escape_is_stripped_alone(a, s);
    }
    if has_no_terminator(p, false) {
        let s = seq!['\u{1b}', 'P'] + p;
        assert(a + seq!['\u{1b}', 'P'] + p == a + s);
        assert(s.skip(1).skip(1) == p);
        lemma_no_terminator_left(p, false);
        assert(sanitize::after_escape(s.skip(1)) == none);
        sanitize::law_prefix_without_escape_is_stripped_alone(a, s);
    }
}

} // verus!
