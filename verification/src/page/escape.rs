//! Text inside JavaScript string literals.

use vstd::prelude::*;

use crate::decimal::is_digit;
use crate::text::chars_of;

verus! {

/// What stands in a literal for the character at position `i` of `s`.
pub open spec fn piece(s: Seq<char>, i: int) -> Seq<char> {
    let c = s[i];
    if c == '\\' || c == '\'' || c == '"' || c == '`' {
        seq!['\\', c]
    } else if c == '\n' {
        seq!['\\', 'n']
    } else if c == '\r' {
        seq!['\\', 'r']
    } else if c == '\0' && i + 1 < s.len() && is_digit(s[i + 1]) {
        seq!['\\', 'x', '0', '0']
    } else if c == '\0' {
        seq!['\\', '0']
    } else if c == '\u{2028}' {
        seq!['\\', 'u', '2', '0', '2', '8']
    } else if c == '\u{2029}' {
        seq!['\\', 'u', '2', '0', '2', '9']
    } else if c == '$' && i + 1 < s.len() && s[i + 1] == '{' {
        seq!['\\', '$']
    } else {
        seq![c]
    }
}

/// What stands in a literal for `s` from position `i` on.
pub open spec fn escaped_from(s: Seq<char>, i: int) -> Seq<char>
    decreases s.len() - i,
{
    if i < 0 || i >= s.len() {
        Seq::empty()
    } else {
        piece(s, i) + escaped_from(s, i + 1)
    }
}

/// What stands in a literal for `s`.
pub open spec fn escaped(s: Seq<char>) -> Seq<char> {
    escaped_from(s, 0)
}

/// Adds the piece for one character, given whether a brace or a digit comes next.
fn push_piece(out: &mut String, c: char, before_brace: bool, before_digit: bool)
    ensures
        forall|s: Seq<char>, i: int|
            0 <= i < s.len() && s[i] == c && before_brace == (i + 1 < s.len() && s[i + 1] == '{')
                && before_digit == (i + 1 < s.len() && is_digit(s[i + 1])) ==> final(out)@ == old(
                out,
            )@ + #[trigger] piece(s, i),
{
    let ghost start = out@;
    if c == '\\' || c == '\'' || c == '"' || c == '`' {
        out.push('\\');
        out.push(c);
        assert(out@ =~= start + seq!['\\', c]);
    } else if c == '\n' {
        out.push('\\');
        out.push('n');
        assert(out@ =~= start + seq!['\\', 'n']);
    } else if c == '\r' {
        out.push('\\');
        out.push('r');
        assert(out@ =~= start + seq!['\\', 'r']);
    } else if c == '\0' && before_digit {
        out.push('\\');
        out.push('x');
        out.push('0');
        out.push('0');
        assert(out@ =~= start + seq!['\\', 'x', '0', '0']);
    } else if c == '\0' {
        out.push('\\');
        out.push('0');
        assert(out@ =~= start + seq!['\\', '0']);
    } else if c == '\u{2028}' || c == '\u{2029}' {
        out.push('\\');
        out.push('u');
        out.push('2');
        out.push('0');
        out.push('2');
        if c == '\u{2028}' {
            out.push('8');
            assert(out@ =~= start + seq!['\\', 'u', '2', '0', '2', '8']);
        } else {
            out.push('9');
            assert(out@ =~= start + seq!['\\', 'u', '2', '0', '2', '9']);
        }
    } else if c == '$' && before_brace {
        out.push('\\');
        out.push(c);
        assert(out@ =~= start + seq!['\\', '$']);
    } else {
        out.push(c);
        assert(out@ =~= start + seq![c]);
    }
}

/// `s`, written so that it can stand in a JavaScript string literal.
pub fn escape_js_string(s: &str) -> (out: String)
    ensures
        out@ == escaped(s@),
{
    let chars = chars_of(s);
    let mut out = String::new();
    let mut i: usize = 0;
    assert(out@ + escaped_from(s@, 0) =~= escaped(s@));
    while i < chars.len()
        invariant
            i <= chars.len(),
            chars@ == s@,
            out@ + escaped_from(s@, i as int) == escaped(s@),
        decreases chars.len() - i,
    {
        let ghost before = out@;
        let before_brace = chars.len() - i > 1 && chars[i + 1] == '{';
        let before_digit = chars.len() - i > 1 && '0' <= chars[i + 1] && chars[i + 1] <= '9';
        push_piece(&mut out, chars[i], before_brace, before_digit);
        assert(out@ == before + piece(s@, i as int));
        assert(out@ + escaped_from(s@, i + 1) =~= before + escaped_from(s@, i as int));
        i = i + 1;
    }
    assert(out@ + escaped_from(s@, i as int) =~= out@);
    out
}

/// The kinds of quotes around a literal.
pub open spec fn is_quote(q: char) -> bool {
    q == '\'' || q == '"' || q == '`'
}

/// The first character that the inside `t` of a literal between quotes `q` stands
/// for, and how many characters of `t` it takes. None where the literal would
/// end there, is not one, or uses an escape other than those of `piece`.
pub open spec fn first_of(t: Seq<char>, q: char) -> Option<(char, nat)> {
    let c = t[0];
    if c == q || c == '\n' || c == '\r' || c == '\u{2028}' || c == '\u{2029}' {
        None
    } else if q == '`' && c == '$' && t.len() > 1 && t[1] == '{' {
        None
    } else if c != '\\' {
        Some((c, 1))
    } else if t.len() < 2 {
        None
    } else if t[1] == '\\' || t[1] == '\'' || t[1] == '"' || t[1] == '`' || t[1] == '$' {
        Some((t[1], 2))
    } else if t[1] == 'n' {
        Some(('\n', 2))
    } else if t[1] == 'r' {
        Some(('\r', 2))
    } else if t[1] == '0' && !(t.len() > 2 && is_digit(t[2])) {
        Some(('\0', 2))
    } else if t.len() >= 4 && t.take(4) == seq!['\\', 'x', '0', '0'] {
        Some(('\0', 4))
    } else if t.len() >= 6 && t.take(6) == seq!['\\', 'u', '2', '0', '2', '8'] {
        Some(('\u{2028}', 6))
    } else if t.len() >= 6 && t.take(6) == seq!['\\', 'u', '2', '0', '2', '9'] {
        Some(('\u{2029}', 6))
    } else {
        None
    }
}

/// The text that the inside `t` of a JavaScript literal between quotes `q` stands
/// for.
pub open spec fn literal_value(t: Seq<char>, q: char) -> Option<Seq<char>>
    decreases t.len(),
{
    if t.len() == 0 {
        Some(Seq::empty())
    } else {
        match first_of(t, q) {
            Some((c, n)) => if 0 < n <= t.len() {
                match literal_value(t.skip(n as int), q) {
                    Some(rest) => Some(seq![c] + rest),
                    None => None,
                }
            } else {
                None
            },
            None => None,
        }
    }
}

proof fn lemma_literal_from(s: Seq<char>, i: int, q: char)
    requires
        0 <= i <= s.len(),
        is_quote(q),
    ensures
        literal_value(escaped_from(s, i), q) == Some(s.skip(i)),
    decreases s.len() - i,
{
    if i == s.len() {
        assert(s.skip(i) =~= Seq::empty());
    } else {
        lemma_literal_from(s, i + 1, q);
        let t = escaped_from(s, i);
        let p = piece(s, i);
        let rest = escaped_from(s, i + 1);
        if i + 1 < s.len() {
            assert(rest.len() > 0);
            assert(rest[0] == piece(s, i + 1)[0]);
            assert(t[p.len() as int] == rest[0]);
        }
        if p.len() == 4 {
            assert(t.take(4) =~= p);
        }
        if p.len() == 6 {
            assert(t.take(6) =~= p);
            assert(seq!['\\', 'u', '2', '0', '2', '8'][5] == '8');
            assert(seq!['\\', 'u', '2', '0', '2', '9'][5] == '9');
        }
        assert(first_of(t, q) == Some((s[i], p.len())));
        assert(t.skip(p.len() as int) =~= rest);
        assert(seq![s[i]] + s.skip(i + 1) =~= s.skip(i));
    }
}

/// Between quotes of any kind, an escaped text is a literal for the text itself:
/// it neither ends the literal early, nor breaks the line, nor opens a
/// substitution.
pub proof fn law_literal_value(s: Seq<char>, q: char)
    requires
        is_quote(q),
    ensures
        literal_value(escaped(s), q) == Some(s),
{
    lemma_literal_from(s, 0, q);
    assert(s.skip(0) =~= s);
}

/// A text without quotes, backslashes, line ends, nulls and openings of a substitution
/// stands in a literal as it is.
pub proof fn law_plain_text_stays(s: Seq<char>)
    requires
        forall|i: int|
            0 <= i < s.len() ==> {
                let c = #[trigger] s[i];
                c != '\\' && c != '\'' && c != '"' && c != '`' && c != '\n' && c != '\r' && c != '\0'
                    && c != '\u{2028}' && c != '\u{2029}' && (c == '$' ==> i + 1 >= s.len() || s[i
                    + 1] != '{')
            },
    ensures
        escaped(s) == s,
{
    lemma_plain_from(s, 0);
    assert(s.skip(0) =~= s);
}

proof fn lemma_plain_from(s: Seq<char>, i: int)
    requires
        0 <= i <= s.len(),
        forall|k: int|
            0 <= k < s.len() ==> {
                let c = #[trigger] s[k];
                c != '\\' && c != '\'' && c != '"' && c != '`' && c != '\n' && c != '\r' && c != '\0'
                    && c != '\u{2028}' && c != '\u{2029}' && (c == '$' ==> k + 1 >= s.len() || s[k
                    + 1] != '{')
            },
    ensures
        escaped_from(s, i) == s.skip(i),
    decreases s.len() - i,
{
    if i < s.len() {
        lemma_plain_from(s, i + 1);
        assert(piece(s, i) == seq![s[i]]);
        assert(seq![s[i]] + s.skip(i + 1) =~= s.skip(i));
    } else {
        assert(s.skip(i) =~= Seq::empty());
    }
}

} // verus!
