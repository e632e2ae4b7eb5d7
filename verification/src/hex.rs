//! The hexadecimal text format of an image: on each line pairs of
//! hexadecimal digits, one pair for each byte.

use crate::number::{digit_value, digits_value, is_digits, parse_digits, Parsed, Radix};
use crate::text::{
    after, before, chars_of, find, first, lower, lowered, trim_end, trim_start, trimmed_end,
    trimmed_start, Class,
};
use vstd::prelude::*;
use vstd::slice::slice_subrange;

verus! {

/// A line of a hexadecimal text that is no run of pairs of digits.
#[derive(Clone, Copy, Debug, PartialEq, Eq, Structural)]
pub struct HexError {
    /// The line, counted from 0.
    pub line: usize,
}

/// The digits of a line, in small letters: the line without the white
/// space at its start, without its comment, which starts at the first `;`,
/// and without the white space before the comment.
pub open spec fn line_digits(line: Seq<char>) -> Seq<char> {
    let t = trimmed_start(line);
    lowered(trimmed_end(t.take(first(t, Class::Exactly(';')))))
}

/// The bytes that a run of pairs of digits denotes, where it is one.
pub open spec fn pairs(digits: Seq<char>) -> Option<Seq<u8>> {
    if digits.len() % 2 == 0 && forall|i: int|
        0 <= i < digits.len() ==> (#[trigger] digit_value(digits[i], Radix::Hex)) is Some {
        Some(
            Seq::new(
                digits.len() / 2,
                |i: int| digits_value(digits.subrange(2 * i, 2 * i + 2), Radix::Hex) as u8,
            ),
        )
    } else {
        None
    }
}

/// The bytes of the lines of `text`, the first of which is line `line`.
/// Lines end at `\n`. The first line that is wrong gives the error.
pub open spec fn decoded(text: Seq<char>, line: int) -> Result<Seq<u8>, HexError>
    decreases text.len(),
{
    let end = first(text, Class::Exactly('\n'));
    match pairs(line_digits(text.take(end))) {
        None => Err(HexError { line: line as usize }),
        Some(bytes) => if 0 <= end < text.len() {
            match decoded(text.skip(end + 1), line + 1) {
                Err(e) => Err(e),
                Ok(rest) => Ok(bytes + rest),
            }
        } else {
            Ok(bytes)
        },
    }
}

/// Two digits denote sixteen times the first plus the second.
proof fn lemma_pair_value(pair: Seq<char>)
    requires
        pair.len() == 2,
        digit_value(pair[0], Radix::Hex) is Some,
        digit_value(pair[1], Radix::Hex) is Some,
    ensures
        is_digits(pair, Radix::Hex),
        digits_value(pair, Radix::Hex) == 16 * digit_value(pair[0], Radix::Hex)->0 + digit_value(
            pair[1],
            Radix::Hex,
        )->0,
        0 <= digits_value(pair, Radix::Hex) <= 255,
{
    let one = pair.drop_last();
    assert(one.len() == 1 && one[0] == pair[0]);
    assert(one.drop_last().len() == 0);
    assert(digits_value(one.drop_last(), Radix::Hex) == 0);
    assert(digits_value(one, Radix::Hex) == digit_value(pair[0], Radix::Hex)->0);
}

/// Reads the pairs of digits of one line.
fn line_bytes(line: &[char], bytes: &mut Vec<u8>) -> (ok: bool)
    ensures
        match pairs(line_digits(line@)) {
            Some(more) => ok && final(bytes)@ == old(bytes)@ + more,
            None => !ok,
        },
{
    let t = trim_start(line);
    let digits = lower(trim_end(before(t, find(t, Class::Exactly(';')))));
    let digits = digits.as_slice();
    let n = digits.len();
    if n % 2 != 0 {
        return false;
    }
    let mut i: usize = 0;
    while i < n
        invariant
            i <= n,
            i % 2 == 0,
            n % 2 == 0,
            n == digits@.len(),
            digits@ == line_digits(line@),
            forall|j: int| 0 <= j < i ==> (#[trigger] digit_value(digits@[j], Radix::Hex)) is Some,
            bytes@.len() == old(bytes)@.len() + i / 2,
            forall|k: int|
                0 <= k < i / 2 ==> #[trigger] bytes@[old(bytes)@.len() + k] == digits_value(
                    digits@.subrange(2 * k, 2 * k + 2),
                    Radix::Hex,
                ) as u8,
            forall|k: int| 0 <= k < old(bytes)@.len() ==> bytes@[k] == old(bytes)@[k],
        decreases n - i,
    {
        let pair = slice_subrange(digits, i, i + 2);
        proof {
            assert(pair@[0] == digits@[i as int]);
            assert(pair@[1] == digits@[i + 1]);
            if digit_value(digits@[i as int], Radix::Hex) is Some && digit_value(
                digits@[i + 1],
                Radix::Hex,
            ) is Some {
                lemma_pair_value(pair@);
            } else {
                assert(!is_digits(pair@, Radix::Hex));
            }
        }
        match parse_digits(pair, Radix::Hex, 255) {
            Parsed::Value(v) => {
                bytes.push(v as u8);
            },
            _ => {
                return false;
            },
        }
        i += 2;
    }
    proof {
        let more = pairs(digits@)->0;
        let base = old(bytes)@.len() as int;
        assert(more.len() == n / 2);
        assert forall|j: int| 0 <= j < bytes@.len() implies bytes@[j] == (old(bytes)@ + more)[j] by {
            if j >= base {
                let k = j - base;
                assert(bytes@[base + k] == more[k]);
            }
        }
        assert(bytes@ =~= old(bytes)@ + more);
    }
    true
}

/// Reads a hexadecimal text: the bytes of its lines, one after the other.
pub fn hex_to_bytes(s: String) -> (r: Result<Vec<u8>, HexError>)
    ensures
        match decoded(s@, 0) {
            Ok(bytes) => r is Ok && r->Ok_0@ == bytes,
            Err(e) => r == Err::<Vec<u8>, HexError>(e),
        },
{
    let chars = chars_of(s.as_str());
    let code = chars.as_slice();
    let total = code.len();
    let mut bytes: Vec<u8> = Vec::new();
    let mut rest: &[char] = code;
    let mut line: usize = 0;
    let mut done = false;
    while !done
        invariant
            total == code@.len(),
            code@ == s@,
            !done ==> line + rest@.len() <= total,
            !done ==> decoded(code@, 0) == match decoded(rest@, line as int) {
                Ok(more) => Ok::<Seq<u8>, HexError>(bytes@ + more),
                Err(e) => Err(e),
            },
            done ==> decoded(code@, 0) == Ok::<Seq<u8>, HexError>(bytes@),
        decreases rest@.len() + if done { 0int } else { 1int },
    {
        let end = find(rest, Class::Exactly('\n'));
        let ghost text = rest@;
        let ghost so_far = bytes@;
        if !line_bytes(before(rest, end), &mut bytes) {
            assert(decoded(text, line as int) == Err::<Seq<u8>, HexError>(HexError { line }));
            return Err(HexError { line });
        }
        proof {
            let here = pairs(line_digits(text.take(end as int)))->0;
            if 0 <= end < text.len() {
                match decoded(text.skip(end + 1), line + 1) {
                    Ok(more) => {
                        assert(so_far + (here + more) =~= (so_far + here) + more);
                    },
                    Err(_) => {},
                }
            }
        }
        if end == rest.len() {
            done = true;
        } else {
            rest = after(rest, end + 1);
            line += 1;
        }
    }
    Ok(bytes)
}

} // verus!
