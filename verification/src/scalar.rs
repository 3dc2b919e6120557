//! Fixed-point numbers for the numeric markup attributes.
//!
//! Sizes, origins, opacities and transform components are decimal literals in
//! the markup.  They are held here in millionths of a unit, parsed from a
//! literal of the form `sign? digits* ('.' digits*)?` with at least one digit,
//! at most twelve digits before the point, and fraction digits beyond the
//! sixth truncated.  Anything else is unparsable.
//!
//! This grammar stands in for floating-point parsing, which this library
//! keeps out of its verified core: a literal in scientific notation, or one
//! with more than twelve digits before the point, is unparsable here — and a
//! size attribute outside the grammar therefore resolves to zero — where a
//! float parser would have accepted it.

use vstd::prelude::*;

use crate::xml::str_eq;

verus! {

/// Millionths of a unit per unit.
pub const SCALE: i64 = 1000000;

/// Most digits allowed before the decimal point.
pub const MAX_INT_DIGITS: usize = 12;

/// A decimal number held in millionths of a unit.
#[derive(Clone, Copy, PartialEq, Eq, Structural, Debug)]
pub struct Scalar {
    pub micros: i64,
}

impl DeepView for Scalar {
    type V = int;

    open spec fn deep_view(&self) -> int {
        self.micros as int
    }
}

impl Scalar {
    /// The number zero, the default for absent or unparsable sizes.
    pub fn zero() -> (r: Scalar)
        ensures
            r.micros == 0,
    {
        Scalar { micros: 0 }
    }

    /// The number holding the given count of millionths.
    pub fn from_micros(micros: i64) -> (r: Scalar)
        ensures
            r.micros == micros,
    {
        Scalar { micros }
    }

    /// Parses a decimal literal.
    pub fn parse(s: &str) -> (r: Option<Scalar>)
        ensures
            r.deep_view() == spec_parse_scalar(s@),
    {
        let chars = to_chars(s);
        parse_scalar_chars(&chars)
    }
}

/// Ten to the given power.
pub open spec fn pow10(n: nat) -> int
    decreases n,
{
    if n == 0 {
        1
    } else {
        10 * pow10((n - 1) as nat)
    }
}

/// Whether the character is a decimal digit.
pub open spec fn is_digit(c: char) -> bool {
    48 <= c as u32 <= 57
}

/// The value of a decimal digit.
pub open spec fn digit_val(c: char) -> int {
    c as u32 - 48
}

/// Whether every character of the sequence is a decimal digit.
pub open spec fn all_digits(s: Seq<char>) -> bool {
    forall|i: int| 0 <= i < s.len() ==> is_digit(#[trigger] s[i])
}

/// The value of a sequence of decimal digits, most significant first.
pub open spec fn int_val(s: Seq<char>) -> int
    decreases s.len(),
{
    if s.len() == 0 {
        0
    } else {
        int_val(s.drop_last()) * 10 + digit_val(s.last())
    }
}

/// The value in millionths of a fraction-digit sequence; digits beyond the
/// sixth are truncated.
pub open spec fn frac_val_micros(s: Seq<char>) -> int {
    let k = if s.len() < 6 {
        s.len() as int
    } else {
        6
    };
    int_val(s.take(k)) * pow10((6 - k) as nat)
}

/// The comma- or dot-separated fields of a sequence, in order; separators
/// are dropped and empty fields kept.
pub open spec fn spec_split(s: Seq<char>, sep: char) -> Seq<Seq<char>> {
    split_rec(s, sep, Seq::empty(), Seq::empty())
}

pub open spec fn split_rec(s: Seq<char>, sep: char, cur: Seq<char>, acc: Seq<Seq<char>>) -> Seq<
    Seq<char>,
>
    decreases s.len(),
{
    if s.len() == 0 {
        acc.push(cur)
    } else if s[0] == sep {
        split_rec(s.drop_first(), sep, Seq::empty(), acc.push(cur))
    } else {
        split_rec(s.drop_first(), sep, cur.push(s[0]), acc)
    }
}

/// The value, in millionths, of an unsigned decimal literal, or `None` when
/// the literal is outside the grammar.
pub open spec fn body_val_micros(s: Seq<char>) -> Option<int> {
    let parts = spec_split(s, '.');
    if parts.len() == 1 && all_digits(parts[0]) && 0 < parts[0].len() <= MAX_INT_DIGITS {
        Some(int_val(parts[0]) * SCALE)
    } else if parts.len() == 2 && all_digits(parts[0]) && all_digits(parts[1])
        && parts[0].len() <= MAX_INT_DIGITS && parts[0].len() + parts[1].len() > 0 {
        Some(int_val(parts[0]) * SCALE + frac_val_micros(parts[1]))
    } else {
        None
    }
}

/// The value, in millionths, of a signed decimal literal, or `None` when the
/// literal is outside the grammar.
pub open spec fn spec_parse_scalar(s: Seq<char>) -> Option<int> {
    if s.len() > 0 && (s[0] == '-' || s[0] == '+') {
        match body_val_micros(s.drop_first()) {
            Some(v) => Some(if s[0] == '-' { -v } else { v }),
            None => None,
        }
    } else {
        body_val_micros(s)
    }
}

/// A size attribute resolves to the parsed value when it is a non-negative
/// literal of the grammar, and to zero otherwise.
pub open spec fn spec_parse_size(s: Seq<char>) -> int {
    match spec_parse_scalar(s) {
        Some(v) => if v >= 0 {
            v
        } else {
            0
        },
        None => 0,
    }
}

/// A boolean attribute is exactly `true` or `false`.
pub open spec fn spec_parse_bool(s: Seq<char>) -> Option<bool> {
    if s == "true"@ {
        Some(true)
    } else if s == "false"@ {
        Some(false)
    } else {
        None
    }
}

/// Digit sequences are bounded by ten to their length.
pub proof fn lemma_int_val_bound(s: Seq<char>)
    requires
        all_digits(s),
    ensures
        0 <= int_val(s) < pow10(s.len()),
    decreases s.len(),
{
    if s.len() > 0 {
        assert(all_digits(s.drop_last()));
        lemma_int_val_bound(s.drop_last());
        assert(is_digit(s.last()));
    }
}

/// Ten to any power is positive.
pub proof fn lemma_pow10_pos(n: nat)
    ensures
        0 < pow10(n),
    decreases n,
{
    if n > 0 {
        lemma_pow10_pos((n - 1) as nat);
    }
}

/// Ten to a power grows with the power.
pub proof fn lemma_pow10_mono(a: nat, b: nat)
    requires
        a <= b,
    ensures
        0 < pow10(a) <= pow10(b),
    decreases b,
{
    lemma_pow10_pos(a);
    if a < b {
        lemma_pow10_mono(a, (b - 1) as nat);
        lemma_pow10_pos((b - 1) as nat);
    }
}

/// The characters of the text, in order.
pub fn to_chars(s: &str) -> (v: Vec<char>)
    ensures
        v@ == s@,
{
    let n = s.unicode_len();
    let mut v: Vec<char> = Vec::new();
    for i in 0..n
        invariant
            n == s@.len(),
            v@ == s@.take(i as int),
    {
        let c = s.get_char(i);
        v.push(c);
        proof {
            assert(s@.take(i + 1) =~= s@.take(i as int).push(s@[i as int]));
        }
    }
    proof {
        assert(s@.take(n as int) =~= s@);
    }
    v
}

/// Splits the characters at the separator, keeping empty fields.
pub fn split_chars(s: &Vec<char>, sep: char) -> (r: Vec<Vec<char>>)
    ensures
        r.deep_view() == spec_split(s@, sep),
{
    let mut acc: Vec<Vec<char>> = Vec::new();
    let mut cur: Vec<char> = Vec::new();
    let n = s.len();
    proof {
        assert(s@.skip(0) =~= s@);
        assert(cur.deep_view() =~= Seq::<char>::empty());
        assert(acc.deep_view() =~= Seq::<Seq<char>>::empty());
    }
    for i in 0..n
        invariant
            n == s@.len(),
            split_rec(s@, sep, Seq::empty(), Seq::empty()) == split_rec(
                s@.skip(i as int),
                sep,
                cur.deep_view(),
                acc.deep_view(),
            ),
    {
        let ghost rest = s@.skip(i as int);
        let ghost cur0 = cur.deep_view();
        let ghost acc0 = acc.deep_view();
        proof {
            assert(rest.drop_first() =~= s@.skip(i + 1));
            assert(rest[0] == s@[i as int]);
        }
        if s[i] == sep {
            let done = cur;
            cur = Vec::new();
            acc.push(done);
            proof {
                assert(acc.deep_view() =~= acc0.push(cur0));
                assert(cur.deep_view() =~= Seq::<char>::empty());
            }
        } else {
            let c = s[i];
            cur.push(c);
            proof {
                assert(cur.deep_view() =~= cur0.push(s@[i as int]));
            }
        }
    }
    proof {
        assert(s@.skip(n as int) =~= Seq::<char>::empty());
    }
    let ghost accn = acc.deep_view();
    let ghost curn = cur.deep_view();
    acc.push(cur);
    proof {
        assert(acc.deep_view() =~= accn.push(curn));
    }
    acc
}

/// The value of a digit character.
fn digit_of(c: char) -> (r: Option<u8>)
    ensures
        match r {
            Some(d) => is_digit(c) && d == digit_val(c),
            None => !is_digit(c),
        },
{
    let u = c as u32;
    if 48 <= u && u <= 57 {
        Some((u - 48) as u8)
    } else {
        None
    }
}

/// The value of a digit sequence of at most twelve digits, or `None` when a
/// character is not a digit.
fn int_value(s: &Vec<char>) -> (r: Option<i64>)
    requires
        s@.len() <= MAX_INT_DIGITS,
    ensures
        match r {
            Some(v) => all_digits(s@) && v == int_val(s@) && 0 <= v < 1000000000000,
            None => !all_digits(s@),
        },
{
    let mut acc: i64 = 0;
    let n = s.len();
    proof {
        reveal_with_fuel(pow10, 13);
        assert(s@.take(0) =~= Seq::<char>::empty());
    }
    for i in 0..n
        invariant
            n == s@.len() <= MAX_INT_DIGITS,
            all_digits(s@.take(i as int)),
            acc == int_val(s@.take(i as int)),
            0 <= acc < pow10(i as nat),
            pow10(i as nat) <= pow10(12),
            pow10(12) == 1000000000000,
    {
        proof {
            reveal_with_fuel(pow10, 13);
        }
        match digit_of(s[i]) {
            Some(d) => {
                proof {
                    assert(s@.take(i + 1).drop_last() =~= s@.take(i as int));
                    assert(s@.take(i + 1).last() == s@[i as int]);
                    assert(all_digits(s@.take(i + 1)));
                    lemma_int_val_bound(s@.take(i + 1));
                    lemma_pow10_mono((i + 1) as nat, 12);
                }
                acc = acc * 10 + (d as i64);
            },
            None => {
                return None;
            },
        }
    }
    proof {
        assert(s@.take(n as int) =~= s@);
        lemma_pow10_mono(n as nat, 12);
        reveal_with_fuel(pow10, 13);
    }
    Some(acc)
}

/// The value in millionths of a fraction-digit sequence, or `None` when a
/// character is not a digit.
fn frac_value_micros(s: &Vec<char>) -> (r: Option<i64>)
    ensures
        match r {
            Some(v) => all_digits(s@) && v == frac_val_micros(s@) && 0 <= v < 1000000,
            None => !all_digits(s@),
        },
{
    // Digits beyond the sixth only need checking, not accumulating.
    let k = if s.len() < 6 {
        s.len()
    } else {
        6
    };
    let mut acc: i64 = 0;
    proof {
        reveal_with_fuel(pow10, 7);
        assert(s@.take(0) =~= Seq::<char>::empty());
    }
    for i in 0..k
        invariant
            k == if s@.len() < 6 {
                s@.len() as int
            } else {
                6
            },
            all_digits(s@.take(i as int)),
            acc == int_val(s@.take(i as int)),
            0 <= acc < pow10(i as nat),
            pow10(i as nat) <= pow10(6),
            pow10(6) == 1000000,
    {
        proof {
            reveal_with_fuel(pow10, 7);
        }
        match digit_of(s[i]) {
            Some(d) => {
                proof {
                    assert(s@.take(i + 1).drop_last() =~= s@.take(i as int));
                    assert(s@.take(i + 1).last() == s@[i as int]);
                    assert(all_digits(s@.take(i + 1)));
                    lemma_int_val_bound(s@.take(i + 1));
                    lemma_pow10_mono((i + 1) as nat, 6);
                }
                acc = acc * 10 + (d as i64);
            },
            None => {
                return None;
            },
        }
    }
    // The remaining digits are only validated.
    let n = s.len();
    for i in k..n
        invariant
            k <= n == s@.len(),
            all_digits(s@.take(i as int)),
    {
        match digit_of(s[i]) {
            Some(_) => {
                proof {
                    assert(s@.take(i + 1).drop_last() =~= s@.take(i as int));
                    assert(s@.take(i + 1).last() == s@[i as int]);
                    assert(all_digits(s@.take(i + 1)));
                }
            },
            None => {
                return None;
            },
        }
    }
    proof {
        assert(s@.take(n as int) =~= s@);
        reveal_with_fuel(pow10, 7);
        lemma_int_val_bound(s@.take(
            if s@.len() < 6 {
                s@.len() as int
            } else {
                6
            },
        ));
    }
    let mult: i64 = if k == 0 {
        1000000
    } else if k == 1 {
        100000
    } else if k == 2 {
        10000
    } else if k == 3 {
        1000
    } else if k == 4 {
        100
    } else if k == 5 {
        10
    } else {
        1
    };
    proof {
        reveal_with_fuel(pow10, 7);
    }
    Some(acc * mult)
}

/// The value, in millionths, of an unsigned decimal literal.
fn body_value(s: &Vec<char>) -> (r: Option<i64>)
    ensures
        match r {
            Some(v) => body_val_micros(s@) == Some(v as int),
            None => body_val_micros(s@) is None,
        },
{
    let parts = split_chars(s, '.');
    proof {
        if parts@.len() >= 1 {
            assert(parts.deep_view()[0] =~= parts@[0]@);
        }
        if parts@.len() >= 2 {
            assert(parts.deep_view()[1] =~= parts@[1]@);
        }
    }
    if parts.len() == 1 {
        if parts[0].len() == 0 || parts[0].len() > MAX_INT_DIGITS {
            return None;
        }
        match int_value(&parts[0]) {
            Some(v) => Some(v * SCALE),
            None => None,
        }
    } else if parts.len() == 2 {
        if parts[0].len() > MAX_INT_DIGITS {
            return None;
        }
        if parts[0].len() == 0 && parts[1].len() == 0 {
            return None;
        }
        match int_value(&parts[0]) {
            Some(v) => match frac_value_micros(&parts[1]) {
                Some(f) => Some(v * SCALE + f),
                None => None,
            },
            None => None,
        }
    } else {
        None
    }
}

/// A literal of the grammar never parses to a negative count of millionths
/// before its sign is applied.
proof fn lemma_body_val_nonneg(s: Seq<char>)
    ensures
        match body_val_micros(s) {
            Some(v) => 0 <= v,
            None => true,
        },
{
    let parts = spec_split(s, '.');
    if parts.len() == 1 && all_digits(parts[0]) && 0 < parts[0].len() <= MAX_INT_DIGITS {
        lemma_int_val_bound(parts[0]);
    } else if parts.len() == 2 && all_digits(parts[0]) && all_digits(parts[1])
        && parts[0].len() <= MAX_INT_DIGITS && parts[0].len() + parts[1].len() > 0 {
        lemma_int_val_bound(parts[0]);
        let k = if parts[1].len() < 6 {
            parts[1].len() as int
        } else {
            6
        };
        assert(all_digits(parts[1].take(k)));
        lemma_int_val_bound(parts[1].take(k));
        lemma_pow10_mono(0, (6 - k) as nat);
        vstd::arithmetic::mul::lemma_mul_nonnegative(int_val(parts[1].take(k)), pow10((6 - k) as nat));
    }
}

/// The characters after the first.
fn tail_chars(s: &Vec<char>) -> (r: Vec<char>)
    requires
        s@.len() > 0,
    ensures
        r@ == s@.drop_first(),
{
    let mut r: Vec<char> = Vec::new();
    let n = s.len();
    for i in 1..n
        invariant
            1 <= n == s@.len(),
            r@ == s@.subrange(1, i as int),
    {
        let c = s[i];
        r.push(c);
        proof {
            assert(s@.subrange(1, i + 1) =~= s@.subrange(1, i as int).push(s@[i as int]));
        }
    }
    proof {
        assert(s@.subrange(1, n as int) =~= s@.drop_first());
    }
    r
}

/// Parses a signed decimal literal given as characters.
pub fn parse_scalar_chars(chars: &Vec<char>) -> (r: Option<Scalar>)
    ensures
        r.deep_view() == spec_parse_scalar(chars@),
{
    proof {
        lemma_body_val_nonneg(chars@);
        if chars@.len() > 0 {
            lemma_body_val_nonneg(chars@.drop_first());
        }
    }
    if chars.len() > 0 && (chars[0] == '-' || chars[0] == '+') {
        let neg = chars[0] == '-';
        let body = tail_chars(&chars);
        match body_value(&body) {
            Some(v) => Some(
                Scalar {
                    micros: if neg {
                        -v
                    } else {
                        v
                    },
                },
            ),
            None => None,
        }
    } else {
        match body_value(chars) {
            Some(v) => Some(Scalar { micros: v }),
            None => None,
        }
    }
}

/// A size attribute: the parsed value when it is a non-negative literal of
/// the grammar, and zero otherwise.
pub fn parse_size(s: &str) -> (r: Scalar)
    ensures
        r.micros as int == spec_parse_size(s@),
{
    match Scalar::parse(s) {
        Some(v) => if v.micros >= 0 {
            v
        } else {
            Scalar::zero()
        },
        None => Scalar::zero(),
    }
}

/// A boolean attribute: exactly `true` or `false`.
pub fn parse_bool(s: &str) -> (r: Option<bool>)
    ensures
        r == spec_parse_bool(s@),
{
    if str_eq(s, "true") {
        Some(true)
    } else if str_eq(s, "false") {
        Some(false)
    } else {
        None
    }
}

} // verus!
