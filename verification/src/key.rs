//! Key normalisation: from an application key to the fixed-width identifier
//! under which its entry is stored, and the text that stands for the
//! identifier in the table.

use std::collections::hash_map::DefaultHasher;
use std::hash::Hash;
use std::hash::Hasher;
use vstd::prelude::*;
use vstd::std_specs::hash::DefaultHasherAdditionalSpecFns;

verus! {

/// `String::push` appends one character to the end of the string.
pub assume_specification[ String::push ](text: &mut String, c: char)
    ensures
        final(text)@ == old(text)@.push(c),
;

/// `Hash::hash` feeds the key into the hasher. What the key writes is up to
/// its own `Hash` impl, so nothing is claimed of the hasher afterwards.
#[verifier::external_body]
fn feed<K: Hash>(key: &K, hasher: &mut DefaultHasher) {
    key.hash(hasher)
}

/// The number of distinct 32-bit identifiers.
pub open spec fn hashed_span() -> int {
    0x1_0000_0000
}

/// The identifier of a 64-bit digest: its low 32 bits.
///
/// Distinct digests may share an identifier; their keys then name the same
/// entry. That is accepted, not corrected.
pub fn normalize_hashed(digest: u64) -> (id: u32)
    ensures
        id as int == (digest as int) % hashed_span(),
{
    let low: u64 = digest % 0x1_0000_0000;
    low as u32
}

/// The identifier of a 128-bit unique key: the key itself.
pub fn normalize_uuid(key: u128) -> (id: u128)
    ensures
        id == key,
{
    key
}

/// A normalised key: what a row of the table is found by.
#[derive(Clone, Copy, Debug, PartialEq, Eq, Structural)]
pub enum Identifier {
    /// The low 32 bits of a hash of the key. Distinct keys may collide.
    Hashed(u32),
    /// A caller-supplied 128-bit unique value, used as it is.
    Uuid(u128),
}

/// The character of one decimal digit.
pub open spec fn decimal_digit(d: int) -> char
    recommends
        0 <= d < 10,
{
    ('0' as u8 + d) as char
}

/// The decimal numeral of `n`, without leading zeros (`"0"` for zero).
pub open spec fn decimal_text(n: nat) -> Seq<char>
    decreases n,
{
    if n < 10 {
        seq![decimal_digit(n as int)]
    } else {
        decimal_text(n / 10).push(decimal_digit((n % 10) as int))
    }
}

/// The character of one hexadecimal digit, in lower case.
pub open spec fn hex_digit(d: int) -> char
    recommends
        0 <= d < 16,
{
    if d < 10 {
        ('0' as u8 + d) as char
    } else {
        ('a' as u8 + (d - 10)) as char
    }
}

/// The last `width` hexadecimal digits of `n`, most significant first.
pub open spec fn hex_text(n: nat, width: nat) -> Seq<char>
    decreases width,
{
    if width == 0 {
        Seq::empty()
    } else {
        hex_text(n / 16, (width - 1) as nat).push(hex_digit((n % 16) as int))
    }
}

/// The hyphenated form of a 128-bit value: its 32 hexadecimal digits in
/// groups of 8, 4, 4, 4 and 12.
pub open spec fn uuid_text(n: nat) -> Seq<char> {
    let digits = hex_text(n, 32);
    digits.subrange(0, 8) + seq!['-'] + digits.subrange(8, 12) + seq!['-'] + digits.subrange(
        12,
        16,
    ) + seq!['-'] + digits.subrange(16, 20) + seq!['-'] + digits.subrange(20, 32)
}

fn digit_char(d: u8) -> (c: char)
    requires
        d < 16,
    ensures
        c == hex_digit(d as int),
        d < 10 ==> c == decimal_digit(d as int),
{
    if d < 10 {
        (48u8 + d) as char
    } else {
        (97u8 + (d - 10)) as char
    }
}

fn push_decimal(text: &mut String, n: u32)
    ensures
        final(text)@ == old(text)@ + decimal_text(n as nat),
    decreases n,
{
    if n >= 10 {
        push_decimal(text, n / 10);
    }
    text.push(digit_char((n % 10) as u8));
}

fn push_hex(text: &mut String, n: u128, width: u8)
    ensures
        final(text)@ == old(text)@ + hex_text(n as nat, width as nat),
    decreases width,
{
    if width > 0 {
        push_hex(text, n / 16, width - 1);
        text.push(digit_char((n % 16) as u8));
    }
}

impl Identifier {
    /// The identifier of a hashable key: the key is fed to a fresh
    /// `DefaultHasher` and the digest is cut to 32 bits.
    ///
    /// What the key writes into the hasher is up to its own `Hash` impl, so
    /// the identifier is stated for the writes that the hasher has taken,
    /// whatever they were: it is the low 32 bits of the digest that a
    /// `DefaultHasher` gives for them.
    pub fn hashed<K: Hash>(key: &K) -> (id: Identifier)
        ensures
            exists|written: Seq<Seq<u8>>|
                id == Identifier::Hashed(
                    (#[trigger] DefaultHasher::spec_finish(written) as int % hashed_span())
                        as u32,
                ),
    {
        let mut hasher = DefaultHasher::new();
        feed(key, &mut hasher);
        let digest: u64 = hasher.finish();
        assert(digest == DefaultHasher::spec_finish(hasher@));
        Identifier::Hashed(normalize_hashed(digest))
    }

    /// The identifier of a key that is given by its bytes: the bytes are
    /// written to a fresh `DefaultHasher` in one piece and the digest is cut
    /// to 32 bits. The same bytes always give the same identifier.
    pub fn hashed_bytes(bytes: &[u8]) -> (id: Identifier)
        ensures
            id == Identifier::Hashed(
                (DefaultHasher::spec_finish(seq![bytes@]) as int % hashed_span()) as u32,
            ),
    {
        let mut hasher = DefaultHasher::new();
        hasher.write(bytes);
        assert(hasher@ =~= seq![bytes@]);
        Identifier::Hashed(normalize_hashed(hasher.finish()))
    }

    /// The identifier of a 128-bit unique key.
    pub fn uuid(key: u128) -> (id: Identifier)
        ensures
            id == Identifier::Uuid(key),
    {
        Identifier::Uuid(normalize_uuid(key))
    }

    /// The text that stands for the identifier in the table: the decimal
    /// numeral of a hashed identifier, the hyphenated hexadecimal form of a
    /// unique one.
    pub open spec fn text(self) -> Seq<char> {
        match self {
            Identifier::Hashed(n) => decimal_text(n as nat),
            Identifier::Uuid(n) => uuid_text(n as nat),
        }
    }

    /// Writes the identifier as the table holds it.
    pub fn canonical_text(&self) -> (text: String)
        ensures
            text@ == self.text(),
    {
        let mut text = String::new();
        match self {
            Identifier::Hashed(n) => {
                push_decimal(&mut text, *n);
            },
            Identifier::Uuid(n) => {
                let n: u128 = *n;
                push_hex(&mut text, n / 0x1_0000_0000_0000_0000_0000_0000, 8);
                text.push('-');
                push_hex(&mut text, n / 0x1_0000_0000_0000_0000_0000, 4);
                text.push('-');
                push_hex(&mut text, n / 0x1_0000_0000_0000_0000, 4);
                text.push('-');
                push_hex(&mut text, n / 0x1_0000_0000_0000, 4);
                text.push('-');
                push_hex(&mut text, n, 12);
                proof {
                    lemma_uuid_groups(n as nat);
                }
            },
        }
        text
    }
}

/// A numeral of a given width has that many digits.
proof fn lemma_hex_len(n: nat, width: nat)
    ensures
        hex_text(n, width).len() == width,
    decreases width,
{
    if width > 0 {
        lemma_hex_len(n / 16, (width - 1) as nat);
    }
}

/// The last four digits of a numeral are the numeral of width four, and
/// what stands before them is the numeral of the value divided by 16^4.
proof fn lemma_hex_last_four(n: nat, width: nat)
    ensures
        hex_text(n, width + 4) == hex_text(n / 0x1_0000, width) + hex_text(n, 4),
{
    reveal_with_fuel(hex_text, 5);
    assert(n / 16 / 16 / 16 / 16 == n / 0x1_0000);
    assert(hex_text(n / 0x1_0000, 0) =~= Seq::<char>::empty());
    assert(hex_text(n, width + 4) =~= hex_text(n / 0x1_0000, width) + hex_text(n, 4));
}

proof fn lemma_uuid_groups(n: nat)
    ensures
        uuid_text(n) == hex_text(n / 0x1_0000_0000_0000_0000_0000_0000, 8) + seq!['-'] + hex_text(
            n / 0x1_0000_0000_0000_0000_0000,
            4,
        ) + seq!['-'] + hex_text(n / 0x1_0000_0000_0000_0000, 4) + seq!['-'] + hex_text(
            n / 0x1_0000_0000_0000,
            4,
        ) + seq!['-'] + hex_text(n, 12),
{
    let g0 = hex_text(n / 0x1_0000_0000_0000_0000_0000_0000, 8);
    let g1 = hex_text(n / 0x1_0000_0000_0000_0000_0000, 4);
    let g2 = hex_text(n / 0x1_0000_0000_0000_0000, 4);
    let g3 = hex_text(n / 0x1_0000_0000_0000, 4);
    let g4 = hex_text(n, 12);
    let t2 = hex_text(n / 0x1_0000_0000, 4);
    let t1 = hex_text(n / 0x1_0000, 4);
    let t0 = hex_text(n, 4);
    lemma_hex_last_four(n, 28);
    lemma_hex_last_four(n / 0x1_0000, 24);
    lemma_hex_last_four(n / 0x1_0000_0000, 20);
    lemma_hex_last_four(n / 0x1_0000_0000_0000, 16);
    lemma_hex_last_four(n / 0x1_0000_0000_0000_0000, 12);
    lemma_hex_last_four(n / 0x1_0000_0000_0000_0000_0000, 8);
    lemma_hex_last_four(n, 8);
    lemma_hex_last_four(n / 0x1_0000, 4);
    lemma_hex_last_four(n / 0x1_0000_0000, 0);
    assert(n / 0x1_0000 / 0x1_0000 == n / 0x1_0000_0000);
    assert(n / 0x1_0000_0000 / 0x1_0000 == n / 0x1_0000_0000_0000);
    assert(n / 0x1_0000_0000_0000 / 0x1_0000 == n / 0x1_0000_0000_0000_0000);
    assert(n / 0x1_0000_0000_0000_0000 / 0x1_0000 == n / 0x1_0000_0000_0000_0000_0000);
    assert(n / 0x1_0000_0000_0000_0000_0000 / 0x1_0000 == n
        / 0x1_0000_0000_0000_0000_0000_0000);
    lemma_hex_len(n / 0x1_0000_0000_0000_0000_0000_0000, 8);
    lemma_hex_len(n / 0x1_0000_0000_0000_0000_0000, 4);
    lemma_hex_len(n / 0x1_0000_0000_0000_0000, 4);
    lemma_hex_len(n / 0x1_0000_0000_0000, 4);
    lemma_hex_len(n / 0x1_0000_0000, 4);
    lemma_hex_len(n / 0x1_0000, 4);
    lemma_hex_len(n, 4);
    lemma_hex_len(n, 12);
    assert(g4 =~= t2 + t1 + t0);
    let digits = hex_text(n, 32);
    assert(digits =~= g0 + g1 + g2 + g3 + g4);
    assert(digits.subrange(0, 8) =~= g0);
    assert(digits.subrange(8, 12) =~= g1);
    assert(digits.subrange(12, 16) =~= g2);
    assert(digits.subrange(16, 20) =~= g3);
    assert(digits.subrange(20, 32) =~= g4);
}

/// A decimal numeral has a digit, and two of them from ten on.
proof fn lemma_decimal_len(n: nat)
    ensures
        decimal_text(n).len() >= 1,
        n >= 10 ==> decimal_text(n).len() >= 2,
    decreases n,
{
    if n >= 10 {
        lemma_decimal_len(n / 10);
    }
}

/// The numeral of a number below `10^digits` has at most `digits` digits.
proof fn lemma_decimal_len_at_most(n: nat, digits: nat)
    requires
        digits >= 1,
        n < ten_to(digits),
    ensures
        decimal_text(n).len() <= digits,
    decreases n,
{
    if n >= 10 {
        assert(digits >= 2) by {
            reveal_with_fuel(ten_to, 2);
        }
        lemma_decimal_len_at_most(n / 10, (digits - 1) as nat);
    }
}

/// Ten to the power of `digits`.
spec fn ten_to(digits: nat) -> nat
    decreases digits,
{
    if digits == 0 {
        1
    } else {
        10 * ten_to((digits - 1) as nat)
    }
}

/// Sixteen to the power of `digits`.
spec fn sixteen_to(digits: nat) -> nat
    decreases digits,
{
    if digits == 0 {
        1
    } else {
        16 * sixteen_to((digits - 1) as nat)
    }
}

/// Two numbers with the same decimal numeral are the same number.
proof fn lemma_decimal_injective(a: nat, b: nat)
    requires
        decimal_text(a) == decimal_text(b),
    ensures
        a == b,
    decreases a,
{
    lemma_decimal_len(a);
    lemma_decimal_len(b);
    if a < 10 && b < 10 {
        assert(decimal_text(a)[0] == decimal_digit(a as int));
        assert(decimal_text(b)[0] == decimal_digit(b as int));
        assert(decimal_digit(a as int) as int == 48 + a);
        assert(decimal_digit(b as int) as int == 48 + b);
    } else if a >= 10 && b >= 10 {
        let head_a = decimal_text(a / 10);
        let head_b = decimal_text(b / 10);
        let last_a = decimal_digit((a % 10) as int);
        let last_b = decimal_digit((b % 10) as int);
        assert(decimal_text(a).drop_last() =~= head_a);
        assert(decimal_text(b).drop_last() =~= head_b);
        assert(decimal_text(a).last() == last_a);
        assert(decimal_text(b).last() == last_b);
        assert(last_a as int == 48 + a % 10);
        assert(last_b as int == 48 + b % 10);
        lemma_decimal_injective(a / 10, b / 10);
    }
}

/// Two numbers below `16^width` whose numerals of that width agree are the
/// same number.
proof fn lemma_hex_injective(a: nat, b: nat, width: nat)
    requires
        a < sixteen_to(width),
        b < sixteen_to(width),
        hex_text(a, width) == hex_text(b, width),
    ensures
        a == b,
    decreases width,
{
    if width > 0 {
        let head_a = hex_text(a / 16, (width - 1) as nat);
        let head_b = hex_text(b / 16, (width - 1) as nat);
        let last_a = hex_digit((a % 16) as int);
        let last_b = hex_digit((b % 16) as int);
        assert(hex_text(a, width).drop_last() =~= head_a);
        assert(hex_text(b, width).drop_last() =~= head_b);
        assert(hex_text(a, width).last() == last_a);
        assert(hex_text(b, width).last() == last_b);
        assert(last_a as int == if a % 16 < 10 {
            48 + a % 16
        } else {
            87 + a % 16
        });
        assert(last_b as int == if b % 16 < 10 {
            48 + b % 16
        } else {
            87 + b % 16
        });
        lemma_hex_injective(a / 16, b / 16, (width - 1) as nat);
    }
}

/// Two 128-bit values with the same hyphenated text are the same value.
proof fn lemma_uuid_injective(a: u128, b: u128)
    requires
        uuid_text(a as nat) == uuid_text(b as nat),
    ensures
        a == b,
{
    let da = hex_text(a as nat, 32);
    let db = hex_text(b as nat, 32);
    let ta = uuid_text(a as nat);
    let tb = uuid_text(b as nat);
    lemma_hex_len(a as nat, 32);
    lemma_hex_len(b as nat, 32);
    assert forall|j: int| 0 <= j < 32 implies da[j] == db[j] by {
        let at = if j < 8 {
            j
        } else if j < 12 {
            j + 1
        } else if j < 16 {
            j + 2
        } else if j < 20 {
            j + 3
        } else {
            j + 4
        };
        assert(ta[at] == da[j]);
        assert(tb[at] == db[j]);
    }
    assert(da =~= db);
    assert(sixteen_to(32) == 0x1_0000_0000_0000_0000_0000_0000_0000_0000) by {
        reveal_with_fuel(sixteen_to, 33);
    }
    lemma_hex_injective(a as nat, b as nat, 32);
}

/// Two identifiers with the same text are the same identifier: identifiers
/// that differ never share a row.
pub proof fn lemma_text_injective(a: Identifier, b: Identifier)
    requires
        a.text() == b.text(),
    ensures
        a == b,
{
    match (a, b) {
        (Identifier::Hashed(m), Identifier::Hashed(n)) => {
            lemma_decimal_injective(m as nat, n as nat);
        },
        (Identifier::Uuid(m), Identifier::Uuid(n)) => {
            lemma_uuid_injective(m, n);
        },
        (Identifier::Hashed(m), Identifier::Uuid(n)) => {
            lemma_text_lengths(m, n);
        },
        (Identifier::Uuid(m), Identifier::Hashed(n)) => {
            lemma_text_lengths(n, m);
        },
    }
}

/// The text of a hashed identifier has at most 10 characters, that of a
/// unique one has 36.
proof fn lemma_text_lengths(hashed: u32, unique: u128)
    ensures
        decimal_text(hashed as nat).len() <= 10,
        uuid_text(unique as nat).len() == 36,
{
    assert(ten_to(10) == 10_000_000_000) by {
        reveal_with_fuel(ten_to, 11);
    }
    lemma_decimal_len_at_most(hashed as nat, 10);
    lemma_hex_len(unique as nat, 32);
}

} // verus!
