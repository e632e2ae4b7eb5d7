//! Integer literals: what a run of digits with an optional sign denotes.

use crate::text::after;
use vstd::prelude::*;

verus! {

/// The base in which a literal is written.
#[derive(Clone, Copy, Debug, PartialEq, Eq, Structural)]
pub enum Radix {
    /// Base ten.
    Decimal,
    /// Base sixteen.
    Hex,
}

impl Radix {
    /// The base as a number.
    pub open spec fn base(self) -> int {
        match self {
            Radix::Decimal => 10,
            Radix::Hex => 16,
        }
    }
}

/// The value of `c` as a digit in `radix`, where it is one. The digits of
/// base sixteen above nine are the letters `a` to `f`, small or capital.
pub open spec fn digit_value(c: char, radix: Radix) -> Option<int> {
    if '0' <= c && c <= '9' {
        Some(c as int - '0' as int)
    } else if radix == Radix::Hex && 'a' <= c && c <= 'f' {
        Some(c as int - 'a' as int + 10)
    } else if radix == Radix::Hex && 'A' <= c && c <= 'F' {
        Some(c as int - 'A' as int + 10)
    } else {
        None
    }
}

/// Whether `s` is a run of at least one digit.
pub open spec fn is_digits(s: Seq<char>, radix: Radix) -> bool {
    s.len() > 0 && forall|i: int| 0 <= i < s.len() ==> (#[trigger] digit_value(s[i], radix)) is Some
}

/// The number that the digits `s` denote, most significant digit first.
pub open spec fn digits_value(s: Seq<char>, radix: Radix) -> int
    decreases s.len(),
{
    if s.len() == 0 {
        0
    } else {
        digits_value(s.drop_last(), radix) * radix.base() + digit_value(s.last(), radix)->0
    }
}

/// The number that `s` denotes as a literal without a minus sign: a run of
/// digits, which a `+` may precede.
pub open spec fn unsigned_value(s: Seq<char>, radix: Radix) -> Option<int> {
    let digits = if s.len() > 0 && s[0] == '+' {
        s.skip(1)
    } else {
        s
    };
    if is_digits(digits, radix) {
        Some(digits_value(digits, radix))
    } else {
        None
    }
}

/// The number that `s` denotes as a literal: a run of digits, which a `+`
/// or a `-` may precede.
pub open spec fn signed_value(s: Seq<char>, radix: Radix) -> Option<int> {
    if s.len() > 0 && s[0] == '-' {
        if is_digits(s.skip(1), radix) {
            Some(-digits_value(s.skip(1), radix))
        } else {
            None
        }
    } else {
        unsigned_value(s, radix)
    }
}

/// What reading a literal gave.
#[derive(Clone, Copy, Debug, PartialEq, Eq, Structural)]
pub enum Parsed {
    /// The text is no literal.
    Malformed,
    /// The text is a literal whose number lies outside the limit.
    OutOfRange,
    /// The number that the literal denotes.
    Value(i32),
}

/// What reading gives for the number `value`, or for no number, where
/// numbers from `-below` to `limit` are accepted.
pub open spec fn parsed(value: Option<int>, below: int, limit: int) -> Parsed {
    match value {
        None => Parsed::Malformed,
        Some(v) => if -below <= v <= limit {
            Parsed::Value(v as i32)
        } else {
            Parsed::OutOfRange
        },
    }
}

/// The digits of a number are never negative, and a longer run of digits
/// denotes no smaller number than its start.
pub proof fn lemma_digits_value_grows(s: Seq<char>, radix: Radix)
    requires
        s.len() > 0,
        forall|i: int| 0 <= i < s.len() ==> (#[trigger] digit_value(s[i], radix)) is Some,
    ensures
        0 <= digits_value(s.drop_last(), radix) <= digits_value(s, radix),
    decreases s.len(),
{
    let shorter = s.drop_last();
    assert(digit_value(s[s.len() - 1], radix) is Some);
    if shorter.len() > 0 {
        assert forall|i: int| 0 <= i < shorter.len() implies (#[trigger] digit_value(
            shorter[i],
            radix,
        )) is Some by {
            assert(shorter[i] == s[i]);
        }
        lemma_digits_value_grows(shorter, radix);
    }
    let v = digits_value(shorter, radix);
    assert(v * radix.base() >= v) by (nonlinear_arith)
        requires
            v >= 0,
            radix.base() >= 1,
    ;
}

/// Reads `c` as a digit.
pub fn digit(c: char, radix: Radix) -> (d: Option<u32>)
    ensures
        match d {
            Some(v) => digit_value(c, radix) == Some(v as int) && v < radix.base(),
            None => digit_value(c, radix) is None,
        },
{
    let hex = matches!(radix, Radix::Hex);
    if '0' <= c && c <= '9' {
        Some((c as u8 - '0' as u8) as u32)
    } else if hex && 'a' <= c && c <= 'f' {
        Some((c as u8 - 'a' as u8) as u32 + 10)
    } else if hex && 'A' <= c && c <= 'F' {
        Some((c as u8 - 'A' as u8) as u32 + 10)
    } else {
        None
    }
}

/// Reads `s` as a run of digits that denotes a number up to `limit`.
pub fn parse_digits(s: &[char], radix: Radix, limit: u16) -> (r: Parsed)
    ensures
        r == parsed(
            if is_digits(s@, radix) {
                Some(digits_value(s@, radix))
            } else {
                None
            },
            0,
            limit as int,
        ),
{
    if s.len() == 0 {
        return Parsed::Malformed;
    }
    let base: u32 = match radix {
        Radix::Decimal => 10,
        Radix::Hex => 16,
    };
    let mut acc: u32 = 0;
    let mut over = false;
    let mut i: usize = 0;
    assert(s@.take(0) =~= Seq::<char>::empty());
    while i < s.len()
        invariant
            i <= s@.len(),
            base == radix.base(),
            forall|j: int| 0 <= j < i ==> (#[trigger] digit_value(s@[j], radix)) is Some,
            acc <= limit,
            !over ==> acc == digits_value(s@.take(i as int), radix),
            over ==> digits_value(s@.take(i as int), radix) > limit,
        decreases s@.len() - i,
    {
        let d = match digit(s[i], radix) {
            Some(d) => d,
            None => {
                return Parsed::Malformed;
            },
        };
        proof {
            let longer = s@.take(i + 1);
            assert(longer.drop_last() =~= s@.take(i as int));
            assert(longer.last() == s@[i as int]);
            assert forall|j: int| 0 <= j < longer.len() implies (#[trigger] digit_value(
                longer[j],
                radix,
            )) is Some by {
                assert(longer[j] == s@[j]);
            }
            lemma_digits_value_grows(longer, radix);
        }
        if !over {
            let next = acc * base + d;
            if next > limit as u32 {
                over = true;
            } else {
                acc = next;
            }
        }
        i += 1;
    }
    assert(s@.take(s@.len() as int) =~= s@);
    if over {
        Parsed::OutOfRange
    } else {
        Parsed::Value(acc as i32)
    }
}

/// Reads `s` as a literal without a minus sign that denotes a number up to
/// `limit`.
pub fn parse_unsigned(s: &[char], radix: Radix, limit: u16) -> (r: Parsed)
    ensures
        r == parsed(unsigned_value(s@, radix), 0, limit as int),
{
    if s.len() > 0 && s[0] == '+' {
        parse_digits(after(s, 1), radix, limit)
    } else {
        parse_digits(s, radix, limit)
    }
}

/// Reads `s` as a literal that denotes a number from `-limit` to `limit`.
pub fn parse_signed(s: &[char], radix: Radix, limit: u16) -> (r: Parsed)
    ensures
        r == parsed(signed_value(s@, radix), limit as int, limit as int),
{
    if s.len() > 0 && s[0] == '-' {
        proof {
            if is_digits(s@.skip(1), radix) {
                lemma_digits_value_grows(s@.skip(1), radix);
            }
        }
        match parse_digits(after(s, 1), radix, limit) {
            Parsed::Value(v) => Parsed::Value(-v),
            other => other,
        }
    } else {
        proof {
            let digits = if s@.len() > 0 && s@[0] == '+' {
                s@.skip(1)
            } else {
                s@
            };
            if is_digits(digits, radix) {
                lemma_digits_value_grows(digits, radix);
            }
        }
        parse_unsigned(s, radix, limit)
    }
}

} // verus!
