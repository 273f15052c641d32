//! Unsigned integers as the decimal literals of a JSON document.

use vstd::prelude::*;
use vstd::string::*;

verus! {

/// The value of a decimal digit, and `None` for any other character.
pub open spec fn digit_of(c: char) -> Option<nat> {
    if '0' <= c <= '9' {
        Some((c as nat - '0' as nat) as nat)
    } else {
        None
    }
}

/// The character that stands for a digit below ten.
pub open spec fn digit_char(d: nat) -> char {
    if d == 0 {
        '0'
    } else if d == 1 {
        '1'
    } else if d == 2 {
        '2'
    } else if d == 3 {
        '3'
    } else if d == 4 {
        '4'
    } else if d == 5 {
        '5'
    } else if d == 6 {
        '6'
    } else if d == 7 {
        '7'
    } else if d == 8 {
        '8'
    } else {
        '9'
    }
}

/// The number that a literal of decimal digits stands for. A literal that
/// is empty, or holds a sign, a fraction, an exponent or any other
/// character that is no digit, stands for no unsigned integer.
pub open spec fn decimal_value(text: Seq<char>) -> Option<nat>
    decreases text.len(),
{
    if text.len() == 0 {
        None
    } else {
        match digit_of(text.last()) {
            None => None,
            Some(low) => if text.len() == 1 {
                Some(low)
            } else {
                match decimal_value(text.drop_last()) {
                    None => None,
                    Some(high) => Some(10 * high + low),
                }
            },
        }
    }
}

/// The shortest decimal literal of a number.
pub open spec fn decimal_text(n: nat) -> Seq<char>
    decreases n,
{
    if n < 10 {
        seq![digit_char(n)]
    } else {
        decimal_text(n / 10).push(digit_char(n % 10))
    }
}

/// What `read_unsigned` returns: the value of the literal where it has one
/// that does not exceed the limit.
pub open spec fn bounded_value(text: Seq<char>, limit: nat) -> Option<nat> {
    match decimal_value(text) {
        Some(value) => if value <= limit {
            Some(value)
        } else {
            None
        },
        None => None,
    }
}

/// Reading the literal of a number gives the number back.
pub proof fn lemma_decimal_round_trip(n: nat)
    ensures
        decimal_value(decimal_text(n)) == Some(n),
        decimal_text(n).len() > 0,
    decreases n,
{
    if n < 10 {
        assert(decimal_text(n).last() == digit_char(n));
    } else {
        lemma_decimal_round_trip(n / 10);
        let text = decimal_text(n);
        assert(text.drop_last() =~= decimal_text(n / 10));
        assert(text.last() == digit_char(n % 10));
    }
}

/// A literal with a value has one on each of its nonempty prefixes, and the
/// values grow with the prefixes.
pub proof fn lemma_decimal_prefix(text: Seq<char>, k: int)
    requires
        0 < k <= text.len(),
        decimal_value(text) is Some,
    ensures
        decimal_value(text.take(k)) is Some,
        decimal_value(text.take(k))->0 <= decimal_value(text)->0,
    decreases text.len() - k,
{
    if k == text.len() {
        assert(text.take(k) =~= text);
    } else {
        assert(text.drop_last().take(k) =~= text.take(k));
        lemma_decimal_prefix(text.drop_last(), k);
    }
}

/// A literal that holds a character which is no digit has no value.
pub proof fn lemma_decimal_needs_digits(text: Seq<char>, at: int)
    requires
        0 <= at < text.len(),
        digit_of(text[at]) is None,
    ensures
        decimal_value(text) is None,
    decreases text.len(),
{
    if at < text.len() - 1 {
        lemma_decimal_needs_digits(text.drop_last(), at);
    }
}

fn digit(c: char) -> (d: Option<u64>)
    ensures
        match d {
            Some(value) => digit_of(c) == Some(value as nat) && value < 10,
            None => digit_of(c) is None,
        },
{
    let code = c as u32;
    if 48 <= code && code <= 57 {
        Some((code - 48) as u64)
    } else {
        None
    }
}

/// Reads an unsigned integer that does not exceed `limit` from its decimal
/// literal.
pub fn read_unsigned(text: &str, limit: u64) -> (value: Option<u64>)
    ensures
        match value {
            Some(v) => bounded_value(text@, limit as nat) == Some(v as nat),
            None => bounded_value(text@, limit as nat) is None,
        },
{
    let length = text.unicode_len();
    if length == 0 {
        return None;
    }
    let mut value: u64 = 0;
    let mut i: usize = 0;
    while i < length
        invariant
            i <= length,
            length == text@.len(),
            value <= limit,
            i > 0 ==> decimal_value(text@.take(i as int)) == Some(value as nat),
            i == 0 ==> value == 0,
        decreases length - i,
    {
        let low = match digit(text.get_char(i)) {
            Some(low) => low,
            None => {
                proof {
                    lemma_decimal_needs_digits(text@, i as int);
                }
                return None;
            },
        };
        proof {
            assert(text@.take(i + 1).drop_last() =~= text@.take(i as int));
            assert(text@.take(i + 1).last() == text@[i as int]);
            if decimal_value(text@) is Some {
                lemma_decimal_prefix(text@, i + 1);
            }
        }
        if low > limit || value > (limit - low) / 10 {
            return None;
        }
        value = value * 10 + low;
        i += 1;
    }
    proof {
        assert(text@.take(i as int) =~= text@);
    }
    Some(value)
}

fn digit_text(d: u64) -> (text: &'static str)
    requires
        d < 10,
    ensures
        text@ == seq![digit_char(d as nat)],
{
    proof {
        reveal_strlit("0");
        reveal_strlit("1");
        reveal_strlit("2");
        reveal_strlit("3");
        reveal_strlit("4");
        reveal_strlit("5");
        reveal_strlit("6");
        reveal_strlit("7");
        reveal_strlit("8");
        reveal_strlit("9");
    }
    let text = if d == 0 {
        "0"
    } else if d == 1 {
        "1"
    } else if d == 2 {
        "2"
    } else if d == 3 {
        "3"
    } else if d == 4 {
        "4"
    } else if d == 5 {
        "5"
    } else if d == 6 {
        "6"
    } else if d == 7 {
        "7"
    } else if d == 8 {
        "8"
    } else {
        "9"
    };
    assert(text@ =~= seq![digit_char(d as nat)]);
    text
}

/// Writes an unsigned integer as its shortest decimal literal.
pub fn write_unsigned(n: u64) -> (text: String)
    ensures
        text@ == decimal_text(n as nat),
    decreases n,
{
    if n < 10 {
        String::from_str(digit_text(n))
    } else {
        let mut text = write_unsigned(n / 10);
        text.append(digit_text(n % 10));
        assert(text@ =~= decimal_text(n as nat));
        text
    }
}

} // verus!
