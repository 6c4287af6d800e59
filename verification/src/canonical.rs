//! The canonical text of an instant: the one shape of RFC 3339 text under
//! which the engine stores an expiry, and for which the order of the texts
//! is the order of the instants.
//!
//! The shape is `YYYY-MM-DDTHH:MM:SS`, then a fraction of the second, then
//! `+00:00`. The fraction is absent where the second is whole, and else has
//! three, six or nine digits: as few of these as write it down exactly.

use crate::calendar::civil_instant;
use crate::calendar::civil_timestamp;
use crate::calendar::is_civil;
use crate::time::Timestamp;
use vstd::prelude::*;

verus! {

/// The value of a decimal digit; `None` for any other character.
pub open spec fn digit_value(c: char) -> Option<int> {
    if 48 <= c as int <= 57 {
        Some(c as int - 48)
    } else {
        None
    }
}

/// The number that a run of decimal digits stands for; `None` where some
/// character of the run is not a digit.
pub open spec fn number(digits: Seq<char>) -> Option<int>
    decreases digits.len(),
{
    if digits.len() == 0 {
        Some(0)
    } else {
        match (number(digits.drop_last()), digit_value(digits.last())) {
            (Some(high), Some(low)) => Some(10 * high + low),
            _ => None,
        }
    }
}

/// What ends a canonical text: the offset of UTC.
pub open spec fn utc_suffix() -> Seq<char> {
    seq!['+', '0', '0', ':', '0', '0']
}

/// The nanoseconds that the fraction of a canonical text stands for: none
/// where the fraction is absent, and else the value of a point and three,
/// six or nine digits, of which fewer would not do. `None` for any other
/// text.
pub open spec fn fraction(part: Seq<char>) -> Option<int> {
    if part.len() == 0 {
        Some(0)
    } else if part[0] != '.' {
        None
    } else {
        match number(part.skip(1)) {
            None => None,
            Some(n) => if part.len() == 4 && n != 0 {
                Some(n * 1_000_000)
            } else if part.len() == 7 && n % 1_000 != 0 {
                Some(n * 1_000)
            } else if part.len() == 10 && n % 1_000 != 0 {
                Some(n)
            } else {
                None
            },
        }
    }
}

/// The numbers that a canonical text is made of, in the order year, month,
/// day, hour, minute, second, nanoseconds; `None` where the text does not
/// have the canonical shape.
pub open spec fn fields(text: Seq<char>) -> Option<(int, int, int, int, int, int, int)> {
    if text.len() < 25 {
        None
    } else {
        match (
            number(text.subrange(0, 4)),
            number(text.subrange(5, 7)),
            number(text.subrange(8, 10)),
            number(text.subrange(11, 13)),
            number(text.subrange(14, 16)),
            number(text.subrange(17, 19)),
            fraction(text.subrange(19, text.len() - 6)),
        ) {
            (
                Some(year),
                Some(month),
                Some(day),
                Some(hour),
                Some(minute),
                Some(second),
                Some(nanos),
            ) => if text[4] == '-' && text[7] == '-' && text[10] == 'T' && text[13] == ':'
                && text[16] == ':' && text.subrange(text.len() - 6, text.len() as int)
                == utc_suffix() {
                Some((year, month, day, hour, minute, second, nanos))
            } else {
                None
            },
            _ => None,
        }
    }
}

/// The instant that a canonical text stands for; `None` where the text is
/// not canonical.
pub open spec fn canonical(text: Seq<char>) -> Option<Timestamp> {
    match fields(text) {
        Some((year, month, day, hour, minute, second, nanos)) => if is_civil(
            year,
            month,
            day,
            hour,
            minute,
            second,
            nanos,
        ) {
            Some(civil_instant(year, month, day, hour, minute, second, nanos))
        } else {
            None
        },
        None => None,
    }
}

/// A run of three digits stands for a number below a thousand.
pub(crate) proof fn lemma_three_digits(digits: Seq<char>)
    requires
        digits.len() == 3,
        number(digits) is Some,
    ensures
        0 <= number(digits).unwrap() < 1_000,
{
    reveal_with_fuel(number, 4);
}

/// A run of digits is made of its last three digits and of what stands
/// before them: its number is a thousand times the number of the latter
/// plus the number of the former, where both are numbers.
pub(crate) proof fn lemma_last_three(digits: Seq<char>)
    requires
        digits.len() >= 3,
    ensures
        number(digits) == match (
            number(digits.subrange(0, digits.len() - 3)),
            number(digits.subrange(digits.len() - 3, digits.len() as int)),
        ) {
            (Some(high), Some(low)) => Some(1_000 * high + low),
            _ => None,
        },
{
    reveal_with_fuel(number, 4);
    let n = digits.len() as int;
    let one = digits.drop_last();
    let two = one.drop_last();
    let head = two.drop_last();
    let tail = digits.subrange(n - 3, n);
    assert(head =~= digits.subrange(0, n - 3));
    assert(tail.last() == digits.last());
    assert(tail.drop_last().last() == one.last());
    assert(tail.drop_last().drop_last().last() == two.last());
    assert(tail.drop_last().drop_last().drop_last() =~= Seq::<char>::empty());
}

/// The fraction of a canonical text, group by group of three digits: the
/// nanoseconds are made of the groups that are there, and the last group
/// that is there is not zero.
pub(crate) proof fn lemma_fraction_groups(text: Seq<char>)
    requires
        fields(text) is Some,
    ensures
        text.len() == 25 || text.len() == 29 || text.len() == 32 || text.len() == 35,
        text.skip(text.len() - 6) == utc_suffix(),
        text.len() == 25 ==> fields(text).unwrap().6 == 0,
        text.len() >= 29 ==> text[19] == '.' && (number(text.subrange(20, 23)) matches Some(n)
            && 0 <= n < 1_000),
        text.len() >= 32 ==> (number(text.subrange(23, 26)) matches Some(n) && 0 <= n < 1_000),
        text.len() >= 35 ==> (number(text.subrange(26, 29)) matches Some(n) && 0 <= n < 1_000),
        text.len() == 29 ==> fields(text).unwrap().6 == 1_000_000 * number(
            text.subrange(20, 23),
        ).unwrap() && number(text.subrange(20, 23)).unwrap() > 0,
        text.len() == 32 ==> fields(text).unwrap().6 == 1_000_000 * number(
            text.subrange(20, 23),
        ).unwrap() + 1_000 * number(text.subrange(23, 26)).unwrap() && number(
            text.subrange(23, 26),
        ).unwrap() > 0,
        text.len() == 35 ==> fields(text).unwrap().6 == 1_000_000 * number(
            text.subrange(20, 23),
        ).unwrap() + 1_000 * number(text.subrange(23, 26)).unwrap() + number(
            text.subrange(26, 29),
        ).unwrap() && number(text.subrange(26, 29)).unwrap() > 0,
{
    let n = text.len() as int;
    let part = text.subrange(19, n - 6);
    assert(text.skip(n - 6) =~= text.subrange(n - 6, n));
    if part.len() > 0 {
        let digits = part.skip(1);
        assert(part[0] == text[19]);
        if part.len() == 4 {
            assert(digits =~= text.subrange(20, 23));
            lemma_three_digits(digits);
        } else if part.len() == 7 {
            assert(digits =~= text.subrange(20, 26));
            lemma_last_three(digits);
            assert(digits.subrange(0, 3) =~= text.subrange(20, 23));
            assert(digits.subrange(3, 6) =~= text.subrange(23, 26));
            lemma_three_digits(text.subrange(20, 23));
            lemma_three_digits(text.subrange(23, 26));
        } else {
            assert(digits =~= text.subrange(20, 29));
            lemma_last_three(digits);
            let head = digits.subrange(0, 6);
            lemma_last_three(head);
            assert(head.subrange(0, 3) =~= text.subrange(20, 23));
            assert(head.subrange(3, 6) =~= text.subrange(23, 26));
            assert(digits.subrange(6, 9) =~= text.subrange(26, 29));
            lemma_three_digits(text.subrange(20, 23));
            lemma_three_digits(text.subrange(23, 26));
            lemma_three_digits(text.subrange(26, 29));
        }
    }
}

/// The digit at a place of a text, if there is a digit.
fn digit_at(text: &str, at: usize) -> (digit: Option<u32>)
    requires
        at < text@.len(),
    ensures
        match digit {
            Some(d) => digit_value(text@[at as int]) == Some(d as int),
            None => digit_value(text@[at as int]) is None,
        },
{
    let code: u32 = text.get_char(at) as u32;
    if 48 <= code && code <= 57 {
        Some(code - 48)
    } else {
        None
    }
}

/// The number of the two digits at a place of a text.
fn read_two(text: &str, at: usize) -> (value: Option<u32>)
    requires
        at <= 32,
        at + 2 <= text@.len(),
    ensures
        match value {
            Some(n) => number(text@.subrange(at as int, at + 2)) == Some(n as int) && n < 100,
            None => number(text@.subrange(at as int, at + 2)) is None,
        },
{
    proof {
        reveal_with_fuel(number, 3);
        let run = text@.subrange(at as int, at + 2);
        assert(run.last() == text@[at + 1]);
        assert(run.drop_last().last() == text@[at as int]);
    }
    match (digit_at(text, at), digit_at(text, at + 1)) {
        (Some(tens), Some(ones)) => Some(10 * tens + ones),
        _ => None,
    }
}

/// The number of the three digits at a place of a text.
fn read_three(text: &str, at: usize) -> (value: Option<u32>)
    requires
        at <= 32,
        at + 3 <= text@.len(),
    ensures
        match value {
            Some(n) => number(text@.subrange(at as int, at + 3)) == Some(n as int) && n < 1_000,
            None => number(text@.subrange(at as int, at + 3)) is None,
        },
{
    proof {
        reveal_with_fuel(number, 4);
        let run = text@.subrange(at as int, at + 3);
        assert(run.last() == text@[at + 2]);
        assert(run.drop_last().last() == text@[at + 1]);
        assert(run.drop_last().drop_last().last() == text@[at as int]);
    }
    match (digit_at(text, at), digit_at(text, at + 1), digit_at(text, at + 2)) {
        (Some(hundreds), Some(tens), Some(ones)) => Some(100 * hundreds + 10 * tens + ones),
        _ => None,
    }
}

/// The number of the four digits at a place of a text.
fn read_four(text: &str, at: usize) -> (value: Option<u32>)
    requires
        at <= 32,
        at + 4 <= text@.len(),
    ensures
        match value {
            Some(n) => number(text@.subrange(at as int, at + 4)) == Some(n as int) && n < 10_000,
            None => number(text@.subrange(at as int, at + 4)) is None,
        },
{
    proof {
        reveal_with_fuel(number, 5);
        let run = text@.subrange(at as int, at + 4);
        assert(run.last() == text@[at + 3]);
        assert(run.drop_last().last() == text@[at + 2]);
        assert(run.drop_last().drop_last().last() == text@[at + 1]);
        assert(run.drop_last().drop_last().drop_last().last() == text@[at as int]);
    }
    match (
        digit_at(text, at),
        digit_at(text, at + 1),
        digit_at(text, at + 2),
        digit_at(text, at + 3),
    ) {
        (Some(thousands), Some(hundreds), Some(tens), Some(ones)) => Some(
            1_000 * thousands + 100 * hundreds + 10 * tens + ones,
        ),
        _ => None,
    }
}

/// The nanoseconds of the fraction of a text of one of the four canonical
/// lengths.
fn read_fraction(text: &str, len: usize) -> (nanos: Option<u32>)
    requires
        len == text@.len(),
        len == 25 || len == 29 || len == 32 || len == 35,
    ensures
        match nanos {
            Some(n) => fraction(text@.subrange(19, len - 6)) == Some(n as int) && n
                < 1_000_000_000,
            None => fraction(text@.subrange(19, len - 6)) is None,
        },
{
    let ghost part = text@.subrange(19, len - 6);
    if len == 25 {
        return Some(0);
    }
    assert(part[0] == text@[19]);
    if text.get_char(19) != '.' {
        return None;
    }
    let Some(millis) = read_three(text, 20) else {
        proof {
            if len == 29 {
                assert(part.skip(1) =~= text@.subrange(20, 23));
            } else if len == 32 {
                lemma_last_three(part.skip(1));
                lemma_last_three(part.skip(1).subrange(0, 3));
                assert(part.skip(1).subrange(0, 3) =~= text@.subrange(20, 23));
            } else {
                lemma_last_three(part.skip(1));
                lemma_last_three(part.skip(1).subrange(0, 6));
                assert(part.skip(1).subrange(0, 6).subrange(0, 3) =~= text@.subrange(20, 23));
            }
        }
        return None;
    };
    if len == 29 {
        assert(part.skip(1) =~= text@.subrange(20, 23));
        return if millis != 0 {
            Some(millis * 1_000_000)
        } else {
            None
        };
    }
    let Some(micros) = read_three(text, 23) else {
        proof {
            if len == 32 {
                lemma_last_three(part.skip(1));
                assert(part.skip(1).subrange(3, 6) =~= text@.subrange(23, 26));
            } else {
                lemma_last_three(part.skip(1));
                lemma_last_three(part.skip(1).subrange(0, 6));
                assert(part.skip(1).subrange(0, 6).subrange(3, 6) =~= text@.subrange(23, 26));
            }
        }
        return None;
    };
    if len == 32 {
        proof {
            lemma_last_three(part.skip(1));
            assert(part.skip(1).subrange(0, 3) =~= text@.subrange(20, 23));
            assert(part.skip(1).subrange(3, 6) =~= text@.subrange(23, 26));
        }
        return if micros != 0 {
            Some((millis * 1_000 + micros) * 1_000)
        } else {
            None
        };
    }
    proof {
        lemma_last_three(part.skip(1));
        lemma_last_three(part.skip(1).subrange(0, 6));
        assert(part.skip(1).subrange(0, 6).subrange(0, 3) =~= text@.subrange(20, 23));
        assert(part.skip(1).subrange(0, 6).subrange(3, 6) =~= text@.subrange(23, 26));
        assert(part.skip(1).subrange(6, 9) =~= text@.subrange(26, 29));
    }
    let Some(last) = read_three(text, 26) else {
        return None;
    };
    if last != 0 {
        Some((millis * 1_000 + micros) * 1_000 + last)
    } else {
        None
    }
}

/// Whether the characters between the numbers of a text, and the offset at
/// its end, are those of a canonical text.
fn has_frame(text: &str, len: usize) -> (framed: bool)
    requires
        len == text@.len(),
        25 <= len <= 35,
    ensures
        framed == (text@[4] == '-' && text@[7] == '-' && text@[10] == 'T' && text@[13] == ':'
            && text@[16] == ':' && text@.subrange(len - 6, len as int) == utc_suffix()),
{
    let ghost end = text@.subrange(len - 6, len as int);
    assert(end[0] == text@[len - 6] && end[1] == text@[len - 5] && end[2] == text@[len - 4]
        && end[3] == text@[len - 3] && end[4] == text@[len - 2] && end[5] == text@[len - 1]);
    let framed = text.get_char(4) == '-' && text.get_char(7) == '-' && text.get_char(10) == 'T'
        && text.get_char(13) == ':' && text.get_char(16) == ':' && text.get_char(len - 6) == '+'
        && text.get_char(len - 5) == '0' && text.get_char(len - 4) == '0' && text.get_char(
        len - 3,
    ) == ':' && text.get_char(len - 2) == '0' && text.get_char(len - 1) == '0';
    assert(framed ==> end =~= utc_suffix());
    framed
}

/// The numbers that a text is made of, where it has the canonical shape.
fn read_fields(text: &str) -> (numbers: Option<(u32, u32, u32, u32, u32, u32, u32)>)
    ensures
        match numbers {
            Some(n) => fields(text@) == Some(
                (
                    n.0 as int,
                    n.1 as int,
                    n.2 as int,
                    n.3 as int,
                    n.4 as int,
                    n.5 as int,
                    n.6 as int,
                ),
            ) && n.0 < 10_000 && n.1 < 100 && n.2 < 100 && n.3 < 100 && n.4 < 100 && n.5 < 100
                && n.6 < 1_000_000_000,
            None => fields(text@) is None,
        },
{
    let len: usize = text.unicode_len();
    if len != 25 && len != 29 && len != 32 && len != 35 {
        proof {
            if fields(text@) is Some {
                lemma_fraction_groups(text@);
            }
        }
        return None;
    }
    if !has_frame(text, len) {
        return None;
    }
    match (
        read_four(text, 0),
        read_two(text, 5),
        read_two(text, 8),
        read_two(text, 11),
        read_two(text, 14),
        read_two(text, 17),
        read_fraction(text, len),
    ) {
        (
            Some(year),
            Some(month),
            Some(day),
            Some(hour),
            Some(minute),
            Some(second),
            Some(nanos),
        ) => Some((year, month, day, hour, minute, second, nanos)),
        _ => None,
    }
}

/// Reads the instant out of a canonical text; `None` for any other text.
pub fn read_canonical(text: &str) -> (at: Option<Timestamp>)
    ensures
        at == canonical(text@),
{
    match read_fields(text) {
        Some((year, month, day, hour, minute, second, nanos)) => civil_timestamp(
            year,
            month,
            day,
            hour,
            minute,
            second,
            nanos,
        ),
        None => None,
    }
}

} // verus!
