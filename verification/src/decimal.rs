//! Whole numbers written in decimal digits.

use vstd::prelude::*;

use crate::text::chars_of;

verus! {

/// The character for a digit from zero to nine.
pub open spec fn digit_char(d: nat) -> char {
    (('0' as u32) + d) as char
}

/// `c` is one of the ten ASCII digits.
pub open spec fn is_digit(c: char) -> bool {
    '0' <= c <= '9'
}

/// The value of an ASCII digit.
pub open spec fn digit_value(c: char) -> nat {
    (c as u32 - '0' as u32) as nat
}

/// `n` in decimal, without leading zeros.
pub open spec fn digits(n: nat) -> Seq<char>
    decreases n,
{
    if n < 10 {
        seq![digit_char(n)]
    } else {
        digits(n / 10).push(digit_char(n % 10))
    }
}

/// `n` in decimal, with a minus sign where it is negative.
pub open spec fn signed_digits(n: int) -> Seq<char> {
    if n < 0 {
        seq!['-'] + digits((-n) as nat)
    } else {
        digits(n as nat)
    }
}

/// Every character is a digit.
pub open spec fn all_digits(text: Seq<char>) -> bool {
    forall|i: int| 0 <= i < text.len() ==> is_digit(#[trigger] text[i])
}

/// The number that a run of digits stands for.
pub open spec fn value(text: Seq<char>) -> nat
    decreases text.len(),
{
    if text.len() == 0 {
        0
    } else {
        value(text.drop_last()) * 10 + digit_value(text.last())
    }
}

/// `text` without one leading plus sign.
pub open spec fn without_plus(text: Seq<char>) -> Seq<char> {
    if text.len() > 0 && text[0] == '+' {
        text.skip(1)
    } else {
        text
    }
}

/// The number not above `max` that `text` stands for: an optional plus sign, then
/// one or more digits and nothing else.
pub open spec fn parsed(text: Seq<char>, max: nat) -> Option<nat> {
    let body = without_plus(text);
    if body.len() > 0 && all_digits(body) && value(body) <= max {
        Some(value(body))
    } else {
        None
    }
}

/// What `digits` writes is a run of digits with the value that was written.
pub proof fn lemma_digits(n: nat)
    ensures
        digits(n).len() > 0,
        all_digits(digits(n)),
        value(digits(n)) == n,
    decreases n,
{
    if n < 10 {
        assert(digits(n).drop_last() =~= Seq::empty());
        assert(value(Seq::<char>::empty()) == 0);
    } else {
        lemma_digits(n / 10);
        let last = digit_char(n % 10);
        assert(digits(n).drop_last() =~= digits(n / 10));
        assert(is_digit(last));
        assert forall|i: int| 0 <= i < digits(n).len() implies is_digit(#[trigger] digits(n)[i]) by {
            if i < digits(n / 10).len() {
                assert(digits(n)[i] == digits(n / 10)[i]);
            }
        }
    }
}

/// Reading back what was written gives the number that was written.
pub proof fn law_decimal_round_trip(n: nat, max: nat)
    requires
        n <= max,
    ensures
        parsed(digits(n), max) == Some(n),
{
    lemma_digits(n);
    assert(is_digit(digits(n)[0]));
}

/// A prefix of a run of digits has no larger value.
proof fn lemma_value_prefix(text: Seq<char>, i: int)
    requires
        0 <= i <= text.len(),
        all_digits(text),
    ensures
        value(text.take(i)) <= value(text),
    decreases text.len() - i,
{
    if i < text.len() {
        lemma_value_prefix(text, i + 1);
        assert(text.take(i + 1).drop_last() =~= text.take(i));
        assert(value(text.take(i + 1)) == value(text.take(i)) * 10 + digit_value(
            text.take(i + 1).last(),
        ));
    } else {
        assert(text.take(i) =~= text);
    }
}

/// `n` in decimal.
pub fn decimal(n: u64) -> (out: String)
    ensures
        out@ == digits(n as nat),
    decreases n,
{
    let last = (48u8 + (n % 10) as u8) as char;
    let mut out = if n < 10 {
        String::new()
    } else {
        decimal(n / 10)
    };
    out.push(last);
    assert(out@ =~= digits(n as nat));
    out
}

/// `n` in decimal, with a minus sign where it is negative.
pub fn signed_decimal(n: i64) -> (out: String)
    ensures
        out@ == signed_digits(n as int),
{
    if n >= 0 {
        return decimal(n as u64);
    }
    let mut out = "-".to_string();
    proof {
        reveal_strlit("-");
        assert("-"@ =~= seq!['-']);
    }
    let size: u64 = (-(n + 1)) as u64 + 1;
    let body = decimal(size);
    out.append(body.as_str());
    out
}

/// The number not above `max` that `text` stands for.
pub fn parse_up_to(text: &str, max: u64) -> (r: Option<u64>)
    ensures
        match r {
            Some(n) => parsed(text@, max as nat) == Some(n as nat),
            None => parsed(text@, max as nat) is None,
        },
{
    let cs = chars_of(text);
    let start: usize = if cs.len() > 0 && cs[0] == '+' {
        1
    } else {
        0
    };
    let ghost body = without_plus(text@);
    assert(body =~= cs@.skip(start as int));
    if start == cs.len() {
        return None;
    }
    let mut n: u64 = 0;
    let mut i: usize = start;
    assert(body.take(0) =~= Seq::empty());
    while i < cs.len()
        invariant
            start <= i <= cs.len(),
            body == without_plus(text@),
            body == cs@.skip(start as int),
            n <= max,
            forall|k: int| 0 <= k < i - start ==> is_digit(#[trigger] body[k]),
            n as nat == value(body.take(i - start)),
        decreases cs.len() - i,
    {
        let c = cs[i];
        let ghost at = i - start;
        assert(body[at] == c);
        if !('0' <= c && c <= '9') {
            assert(!is_digit(body[at]));
            return None;
        }
        let d: u64 = (c as u32 - '0' as u32) as u64;
        assert(body.take(at + 1).drop_last() =~= body.take(at));
        assert(value(body.take(at + 1)) == n * 10 + d);
        if n > max / 10 || d > max - n * 10 {
            proof {
                assert(n * 10 + d > max) by {
                    if n > max / 10 {
                        assert(n >= max / 10 + 1);
                        assert(n * 10 >= (max / 10 + 1) * 10);
                    }
                }
                if all_digits(body) {
                    lemma_value_prefix(body, at + 1);
                }
            }
            return None;
        }
        n = n * 10 + d;
        i = i + 1;
    }
    assert(body.take(i - start) =~= body);
    Some(n)
}

/// A number is written in tens: the last digit stands for what is left over, and a
/// number below ten is one digit.
pub proof fn law_digits_are_tens(n: nat, d: nat)
    requires
        d < 10,
    ensures
        digits(d) == seq![(48 + d) as char],
        n > 0 ==> digits(n * 10 + d) == digits(n).push((48 + d) as char),
{
    if n > 0 {
        let m = (n * 10 + d) as nat;
        assert(m / 10 == n && m % 10 == d);
        assert(digits(m) =~= digits(n).push((48 + d) as char));
    }
    assert(digits(d) =~= seq![(48 + d) as char]);
}

/// A negative number is a minus sign and the number without it.
pub proof fn law_negative_numbers(n: nat)
    ensures
        signed_digits(n as int) == digits(n),
        n > 0 ==> signed_digits(-(n as int)) == seq!['-'] + digits(n),
{
}

/// A text with anything but digits behind a plus sign is no number, nor is one without
/// digits or above the limit.
pub proof fn law_other_texts_are_no_numbers(text: Seq<char>, max: nat)
    ensures
        text.len() == 0 ==> parsed(text, max) is None,
        (exists|k: int| 0 <= k < text.len() && !is_digit(#[trigger] text[k]) && !(k == 0 && text[k]
            == '+')) ==> parsed(text, max) is None,
        parsed(text, max) matches Some(n) ==> n <= max,
        all_digits(text) && text.len() > 0 && value(text) > max ==> parsed(text, max) is None,
{
    if exists|k: int| 0 <= k < text.len() && !is_digit(#[trigger] text[k]) && !(k == 0 && text[k]
        == '+') {
        let k = choose|k: int| 0 <= k < text.len() && !is_digit(#[trigger] text[k]) && !(k == 0
            && text[k] == '+');
        let body = without_plus(text);
        if text[0] == '+' {
            assert(body[k - 1] == text[k]);
        } else {
            assert(body[k] == text[k]);
        }
    }
    if all_digits(text) && text.len() > 0 {
        assert(is_digit(text[0]));
    }
}

} // verus!
