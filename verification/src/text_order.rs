//! Why canonical texts sort as their instants do: the table compares two
//! expiries character by character, and in a canonical text every
//! character stands where a later instant has a greater one.

use crate::calendar::lemma_civil_order;
use crate::canonical::canonical;
use crate::canonical::fields;
use crate::canonical::lemma_fraction_groups;
use crate::canonical::lemma_three_digits;
use crate::canonical::number;
use crate::canonical::utc_suffix;
use crate::canonical::digit_value;
use crate::table::text_before;
use vstd::prelude::*;

verus! {

/// Text order goes by the first `n` characters, and by the rest where these
/// agree.
proof fn lemma_split(a: Seq<char>, b: Seq<char>, n: int)
    requires
        0 <= n <= a.len(),
        n <= b.len(),
    ensures
        text_before(a, b) == if a.subrange(0, n) == b.subrange(0, n) {
            text_before(a.skip(n), b.skip(n))
        } else {
            text_before(a.subrange(0, n), b.subrange(0, n))
        },
    decreases n,
{
    if n == 0 {
        assert(a.subrange(0, 0) =~= b.subrange(0, 0));
        assert(a.skip(0) =~= a);
        assert(b.skip(0) =~= b);
    } else {
        let head_a = a.subrange(0, n);
        let head_b = b.subrange(0, n);
        assert(head_a[0] == a[0] && head_b[0] == b[0]);
        if a[0] == b[0] {
            lemma_split(a.skip(1), b.skip(1), n - 1);
            assert(a.skip(1).subrange(0, n - 1) =~= head_a.skip(1));
            assert(b.skip(1).subrange(0, n - 1) =~= head_b.skip(1));
            assert(a.skip(1).skip(n - 1) =~= a.skip(n));
            assert(b.skip(1).skip(n - 1) =~= b.skip(n));
            if head_a.skip(1) == head_b.skip(1) {
                assert(head_a =~= head_b) by {
                    assert forall|i: int| 0 <= i < n implies head_a[i] == head_b[i] by {
                        if i > 0 {
                            assert(head_a.skip(1)[i - 1] == head_a[i]);
                            assert(head_b.skip(1)[i - 1] == head_b[i]);
                        }
                    }
                }
            }
        }
    }
}

/// Text order from the character at `at` on goes by the `width` characters
/// there, and by what follows them where these agree.
proof fn lemma_field(a: Seq<char>, b: Seq<char>, at: int, width: int)
    requires
        0 <= at,
        0 <= width,
        at + width <= a.len(),
        at + width <= b.len(),
    ensures
        text_before(a.skip(at), b.skip(at)) == if a.subrange(at, at + width) == b.subrange(
            at,
            at + width,
        ) {
            text_before(a.skip(at + width), b.skip(at + width))
        } else {
            text_before(a.subrange(at, at + width), b.subrange(at, at + width))
        },
{
    lemma_split(a.skip(at), b.skip(at), width);
    assert(a.skip(at).subrange(0, width) =~= a.subrange(at, at + width));
    assert(b.skip(at).subrange(0, width) =~= b.subrange(at, at + width));
    assert(a.skip(at).skip(width) =~= a.skip(at + width));
    assert(b.skip(at).skip(width) =~= b.skip(at + width));
}

/// No text sorts before itself.
proof fn lemma_not_before_itself(a: Seq<char>)
    ensures
        !text_before(a, a),
    decreases a.len(),
{
    if a.len() > 0 {
        lemma_not_before_itself(a.skip(1));
    }
}

/// Two runs of digits of one length sort as their numbers do, and are the
/// same run where the numbers are the same.
proof fn lemma_digits(a: Seq<char>, b: Seq<char>)
    requires
        a.len() == b.len(),
        number(a) is Some,
        number(b) is Some,
    ensures
        text_before(a, b) <==> number(a).unwrap() < number(b).unwrap(),
        a == b <==> number(a).unwrap() == number(b).unwrap(),
        0 <= number(a).unwrap(),
    decreases a.len(),
{
    if a.len() == 0 {
        assert(a =~= b);
    } else {
        let n = a.len() - 1;
        let head_a = a.drop_last();
        let head_b = b.drop_last();
        lemma_digits(head_a, head_b);
        lemma_split(a, b, n);
        assert(a.subrange(0, n) =~= head_a);
        assert(b.subrange(0, n) =~= head_b);
        let last_a = a.skip(n);
        let last_b = b.skip(n);
        assert(last_a.len() == 1 && last_b.len() == 1);
        assert(last_a[0] == a.last() && last_b[0] == b.last());
        assert(last_a.skip(1) =~= last_b.skip(1));
        lemma_not_before_itself(last_a.skip(1));
        assert(text_before(last_a, last_b) <==> (a.last() as u32) < (b.last() as u32));
        assert(a =~= head_a.push(a.last()));
        assert(b =~= head_b.push(b.last()));
    }
}

/// Whether the numbers `x` come before the numbers `y`: by the first of
/// them in which the two differ.
pub open spec fn fields_before(
    x: (int, int, int, int, int, int, int),
    y: (int, int, int, int, int, int, int),
) -> bool {
    x.0 < y.0 || (x.0 == y.0 && (x.1 < y.1 || (x.1 == y.1 && (x.2 < y.2 || (x.2 == y.2 && (x.3
        < y.3 || (x.3 == y.3 && (x.4 < y.4 || (x.4 == y.4 && (x.5 < y.5 || (x.5 == y.5 && x.6
        < y.6)))))))))))
}

/// One group of three digits of the fractions of two canonical texts: the
/// texts from the group on sort by the numbers of the group, and by what
/// follows the group where these are the same.
proof fn lemma_group(a: Seq<char>, b: Seq<char>, at: int)
    requires
        0 <= at,
        at + 3 <= a.len(),
        at + 3 <= b.len(),
        number(a.subrange(at, at + 3)) is Some,
        number(b.subrange(at, at + 3)) is Some,
    ensures
        0 <= number(a.subrange(at, at + 3)).unwrap() < 1_000,
        0 <= number(b.subrange(at, at + 3)).unwrap() < 1_000,
        text_before(a.skip(at), b.skip(at)) == if number(a.subrange(at, at + 3)).unwrap()
            == number(b.subrange(at, at + 3)).unwrap() {
            text_before(a.skip(at + 3), b.skip(at + 3))
        } else {
            number(a.subrange(at, at + 3)).unwrap() < number(b.subrange(at, at + 3)).unwrap()
        },
{
    lemma_field(a, b, at, 3);
    lemma_digits(a.subrange(at, at + 3), b.subrange(at, at + 3));
    lemma_three_digits(a.subrange(at, at + 3));
    lemma_three_digits(b.subrange(at, at + 3));
}

/// Where the fraction of one canonical text ends and that of another goes
/// on, the first sorts before the second.
proof fn lemma_end_before_digit(a: Seq<char>, b: Seq<char>, at: int)
    requires
        0 <= at,
        at + 6 == a.len(),
        at + 3 <= b.len(),
        a.skip(at) == utc_suffix(),
        number(b.subrange(at, at + 3)) is Some,
    ensures
        text_before(a.skip(at), b.skip(at)),
        !text_before(b.skip(at), a.skip(at)),
{
    reveal_with_fuel(number, 4);
    let group = b.subrange(at, at + 3);
    assert(group.drop_last().drop_last().last() == b[at]);
    assert(digit_value(b[at]) is Some);
    assert(a.skip(at)[0] == '+');
    assert(b.skip(at)[0] == b[at]);
}

/// The fractions of two canonical texts, with the offsets that follow them,
/// sort as their nanoseconds do.
proof fn lemma_fraction_order(a: Seq<char>, b: Seq<char>)
    requires
        fields(a) is Some,
        fields(b) is Some,
    ensures
        text_before(a.skip(19), b.skip(19)) <==> fields(a).unwrap().6 < fields(b).unwrap().6,
{
    lemma_fraction_groups(a);
    lemma_fraction_groups(b);
    lemma_not_before_itself(utc_suffix());
    if a.len() == 25 && b.len() == 25 {
    } else if a.len() == 25 {
        assert(a.skip(19)[0] == '+');
        assert(b.skip(19)[0] == '.');
    } else if b.len() == 25 {
        assert(a.skip(19)[0] == '.');
        assert(b.skip(19)[0] == '+');
    } else {
        lemma_field(a, b, 19, 1);
        assert(a.subrange(19, 20) =~= b.subrange(19, 20));
        lemma_group(a, b, 20);
        if a.len() == 29 && b.len() == 29 {
        } else if a.len() == 29 {
            lemma_end_before_digit(a, b, 23);
        } else if b.len() == 29 {
            lemma_end_before_digit(b, a, 23);
        } else {
            lemma_group(a, b, 23);
            if a.len() == 32 && b.len() == 32 {
            } else if a.len() == 32 {
                lemma_end_before_digit(a, b, 26);
            } else if b.len() == 32 {
                lemma_end_before_digit(b, a, 26);
            } else {
                lemma_group(a, b, 26);
            }
        }
    }
}

/// Two canonical texts sort as the numbers that they are made of.
proof fn lemma_text_order(a: Seq<char>, b: Seq<char>)
    requires
        fields(a) is Some,
        fields(b) is Some,
    ensures
        text_before(a, b) <==> fields_before(fields(a).unwrap(), fields(b).unwrap()),
{
    assert(a.skip(0) =~= a);
    assert(b.skip(0) =~= b);
    lemma_field(a, b, 0, 4);
    lemma_digits(a.subrange(0, 4), b.subrange(0, 4));
    lemma_field(a, b, 4, 1);
    assert(a.subrange(4, 5) =~= b.subrange(4, 5));
    lemma_field(a, b, 5, 2);
    lemma_digits(a.subrange(5, 7), b.subrange(5, 7));
    lemma_field(a, b, 7, 1);
    assert(a.subrange(7, 8) =~= b.subrange(7, 8));
    lemma_field(a, b, 8, 2);
    lemma_digits(a.subrange(8, 10), b.subrange(8, 10));
    lemma_field(a, b, 10, 1);
    assert(a.subrange(10, 11) =~= b.subrange(10, 11));
    lemma_field(a, b, 11, 2);
    lemma_digits(a.subrange(11, 13), b.subrange(11, 13));
    lemma_field(a, b, 13, 1);
    assert(a.subrange(13, 14) =~= b.subrange(13, 14));
    lemma_field(a, b, 14, 2);
    lemma_digits(a.subrange(14, 16), b.subrange(14, 16));
    lemma_field(a, b, 16, 1);
    assert(a.subrange(16, 17) =~= b.subrange(16, 17));
    lemma_field(a, b, 17, 2);
    lemma_digits(a.subrange(17, 19), b.subrange(17, 19));
    lemma_fraction_order(a, b);
}

/// Two canonical texts sort as the instants that they stand for.
pub proof fn lemma_canonical_order(a: Seq<char>, b: Seq<char>)
    requires
        canonical(a) is Some,
        canonical(b) is Some,
    ensures
        text_before(a, b) <==> canonical(a).unwrap().is_before(canonical(b).unwrap()),
{
    let x = fields(a).unwrap();
    let y = fields(b).unwrap();
    lemma_text_order(a, b);
    if fields_before(x, y) {
        lemma_civil_order(x.0, x.1, x.2, x.3, x.4, x.5, x.6, y.0, y.1, y.2, y.3, y.4, y.5, y.6);
    } else if x != y {
        lemma_civil_order(y.0, y.1, y.2, y.3, y.4, y.5, y.6, x.0, x.1, x.2, x.3, x.4, x.5, x.6);
    }
}

} // verus!
