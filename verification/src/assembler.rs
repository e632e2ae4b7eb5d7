//! The assembler: from the text of a program to its image of 256 bytes.
//!
//! A program is read line by line. On each line a comment starts at `;`.
//! A label may come first, `name:` or `name@address:`, then a statement: a
//! mnemonic and its operands. Mnemonics, registers and numbers may be written
//! in letters of either case; the names of labels tell capital letters from
//! small ones. What a text assembles to is a function of the text alone,
//! [`assembled`], and [`assemble`] computes it.

use crate::number::{parse_unsigned, parsed, unsigned_value, Parsed, Radix};
use crate::program::{AsmError, AsmErrorKind, Program, ProgramView};
use crate::statement::{encoded, operands, parse_statement, Mnemonic};
use crate::text::{
    after, all, before, chars_of, every, find, first, has_prefix, lower, lowered, starts_with,
    trim, trim_start, trimmed, trimmed_start, Class,
};
use vstd::prelude::*;

verus! {

/// Whether `ch` may stand in the name of a label: a letter, a digit or an
/// underscore.
pub fn identifier(ch: char) -> (b: bool)
    ensures
        b == Class::Identifier.holds(ch),
{
    Class::Identifier.contains(ch)
}

/// What a line says: the line without the white space around it and without
/// its comment, which starts at the first `;`.
pub open spec fn statement_text(line: Seq<char>) -> Seq<char> {
    let t = trimmed(line);
    t.take(first(t, Class::Exactly(';')))
}

/// Whether `name` can name a label: it is not empty and consists of letters,
/// digits and underscores, which one dot may precede.
pub open spec fn valid_label(name: Seq<char>) -> bool {
    name.len() > 0 && if name[0] == '.' {
        all(name.skip(1), Class::Identifier)
    } else {
        all(name, Class::Identifier)
    }
}

/// The address that stands behind `@` in a label, in small letters: a
/// literal from 0 to 255, hexadecimal behind `0x` and decimal else.
pub open spec fn label_address(text: Seq<char>) -> Parsed {
    if starts_with(text, "0x"@) {
        parsed(unsigned_value(text.skip(2), Radix::Hex), 0, 255)
    } else {
        parsed(unsigned_value(text, Radix::Decimal), 0, 255)
    }
}

/// The program after the label `text` was defined. Behind `@` the label
/// names the address that the cursor moves to, and the label gets.
pub open spec fn labelled(p: ProgramView, text: Seq<char>) -> Result<ProgramView, AsmErrorKind> {
    let at = first(text, Class::Exactly('@'));
    let name = text.take(at);
    let q = if at < text.len() {
        match label_address(lowered(text.skip(at + 1))) {
            Parsed::Value(a) => Ok(p.moved(a as u8)),
            _ => Err(AsmErrorKind::BadLabelAddress),
        }
    } else {
        Ok(p)
    };
    match q {
        Err(e) => Err(e),
        Ok(q) => if valid_label(name) {
            q.defined(name)
        } else {
            Err(AsmErrorKind::BadLabel)
        },
    }
}

/// The program after the statement `body`, written on line `line`. An
/// empty statement changes nothing. Else the first word is the mnemonic, in
/// letters of either case; its operands follow, and nothing but white space
/// follows them.
pub open spec fn after_statement(p: ProgramView, body: Seq<char>, line: usize) -> Result<
    ProgramView,
    AsmErrorKind,
> {
    let t = trimmed_start(body);
    let end = first(t, Class::Space);
    if t.len() == 0 {
        Ok(p)
    } else {
        match Mnemonic::named(lowered(t.take(end))) {
            None => Err(AsmErrorKind::UnknownMnemonic),
            Some(m) => match operands(m.shape(), t.skip(end)) {
                Err(e) => Err(e),
                Ok((ops, rest)) => match p.stored(encoded(m, ops, line)) {
                    Err(e) => Err(e),
                    Ok(q) => if trimmed_start(rest).len() == 0 {
                        Ok(q)
                    } else {
                        Err(AsmErrorKind::TrailingInput)
                    },
                },
            },
        }
    }
}

/// The program after the line `text`, which is line `line`. What stands
/// before the first `:` is a label.
#[verifier::opaque]
pub open spec fn after_line(p: ProgramView, text: Seq<char>, line: usize) -> Result<
    ProgramView,
    AsmErrorKind,
> {
    let s = statement_text(text);
    let colon = first(s, Class::Exactly(':'));
    if colon < s.len() {
        match labelled(p, s.take(colon)) {
            Err(e) => Err(e),
            Ok(q) => after_statement(q, s.skip(colon + 1), line),
        }
    } else {
        after_statement(p, s, line)
    }
}

/// The program after the lines of `text`, the first of which is line
/// `line`. Lines end at `\n`. The first line that is wrong gives the error.
pub open spec fn after_lines(p: ProgramView, text: Seq<char>, line: int) -> Result<
    ProgramView,
    AsmError,
>
    decreases text.len(),
{
    let end = first(text, Class::Exactly('\n'));
    match after_line(p, text.take(end), line as usize) {
        Err(kind) => Err(AsmError { line: line as usize, kind }),
        Ok(q) => if 0 <= end < text.len() {
            after_lines(q, text.skip(end + 1), line + 1)
        } else {
            Ok(q)
        },
    }
}

/// What the program text `code` assembles to: an image of 256 bytes, or the
/// first error.
pub open spec fn assembled(code: Seq<char>) -> Result<Seq<u8>, AsmError> {
    match after_lines(ProgramView::empty(), code, 1) {
        Err(e) => Err(e),
        Ok(p) => p.image(256),
    }
}

/// An empty line changes nothing.
pub proof fn lemma_empty_line(p: ProgramView, line: usize)
    ensures
        after_line(p, Seq::empty(), line) == Ok::<ProgramView, AsmErrorKind>(p),
{
    reveal(after_line);
    let e = Seq::<char>::empty();
    assert(trimmed(e) =~= e) by {
        assert(trimmed_start(e) =~= e);
        assert(crate::text::trimmed_len(e) == 0);
    }
    assert(statement_text(e) =~= e);
    assert(trimmed_start(e) =~= e);
}

/// Tests whether `name` can name a label.
fn is_valid_label(name: &[char]) -> (b: bool)
    ensures
        b == valid_label(name@),
{
    if name.len() == 0 {
        false
    } else if name[0] == '.' {
        every(after(name, 1), Class::Identifier)
    } else {
        every(name, Class::Identifier)
    }
}

/// Defines the label `text`.
fn define_label(p: &mut Program, text: &[char]) -> (r: Result<(), AsmErrorKind>)
    requires
        old(p)@.wf(),
    ensures
        match labelled(old(p)@, text@) {
            Ok(q) => r is Ok && final(p)@ == q,
            Err(e) => r == Err::<(), AsmErrorKind>(e),
        },
        final(p)@.wf(),
{
    let at = find(text, Class::Exactly('@'));
    if at < text.len() {
        let address = lower(after(text, at + 1));
        let number = if has_prefix(address.as_slice(), "0x") {
            proof {
                reveal_strlit("0x");
            }
            parse_unsigned(after(address.as_slice(), 2), Radix::Hex, 255)
        } else {
            parse_unsigned(address.as_slice(), Radix::Decimal, 255)
        };
        match number {
            Parsed::Value(a) => {
                p.move_to(a as u8);
            },
            _ => {
                return Err(AsmErrorKind::BadLabelAddress);
            },
        }
    }
    let name = before(text, at);
    if !is_valid_label(name) {
        return Err(AsmErrorKind::BadLabel);
    }
    p.define(name)
}

/// Assembles the statement `body`, written on line `line`.
fn assemble_statement(p: &mut Program, body: &[char], line: usize) -> (r: Result<
    (),
    AsmErrorKind,
>)
    requires
        old(p)@.wf(),
    ensures
        match after_statement(old(p)@, body@, line) {
            Ok(q) => r is Ok && final(p)@ == q,
            Err(e) => r == Err::<(), AsmErrorKind>(e),
        },
        final(p)@.wf(),
{
    let t = trim_start(body);
    if t.len() == 0 {
        return Ok(());
    }
    let end = find(t, Class::Space);
    let word = lower(before(t, end));
    let mnemonic = match Mnemonic::parse(word.as_slice()) {
        Some(m) => m,
        None => {
            return Err(AsmErrorKind::UnknownMnemonic);
        },
    };
    let (word, rest) = match parse_statement(mnemonic, after(t, end), line) {
        Ok(parsed) => parsed,
        Err(e) => {
            return Err(e);
        },
    };
    match p.store(word) {
        Ok(()) => {},
        Err(e) => {
            return Err(e);
        },
    }
    if trim_start(rest).len() == 0 {
        Ok(())
    } else {
        Err(AsmErrorKind::TrailingInput)
    }
}

/// Assembles the line `text`, which is line `line`.
pub fn assemble_line(p: &mut Program, text: &[char], line: usize) -> (r: Result<(), AsmErrorKind>)
    requires
        old(p)@.wf(),
    ensures
        match after_line(old(p)@, text@, line) {
            Ok(q) => r is Ok && final(p)@ == q,
            Err(e) => r == Err::<(), AsmErrorKind>(e),
        },
        final(p)@.wf(),
{
    proof {
        reveal(after_line);
    }
    let t = trim(text);
    let s = before(t, find(t, Class::Exactly(';')));
    let colon = find(s, Class::Exactly(':'));
    if colon < s.len() {
        match define_label(p, before(s, colon)) {
            Ok(()) => {},
            Err(e) => {
                return Err(e);
            },
        }
        assemble_statement(p, after(s, colon + 1), line)
    } else {
        assemble_statement(p, s, line)
    }
}

/// Assembles the program text `code`.
pub fn assemble_chars(code: &[char]) -> (r: Result<Vec<u8>, AsmError>)
    ensures
        match assembled(code@) {
            Ok(image) => r is Ok && r->Ok_0@ == image,
            Err(e) => r == Err::<Vec<u8>, AsmError>(e),
        },
        r is Ok ==> r->Ok_0@.len() == 256,
{
    let mut p = Program::new();
    let mut rest: &[char] = code;
    let mut line: usize = 1;
    let mut done = false;
    let total = code.len();
    while !done
        invariant
            p@.wf(),
            1 <= line,
            total == code@.len(),
            !done ==> line + rest@.len() <= total + 1,
            !done ==> after_lines(ProgramView::empty(), code@, 1) == after_lines(
                p@,
                rest@,
                line as int,
            ),
            done ==> after_lines(ProgramView::empty(), code@, 1) == Ok::<ProgramView, AsmError>(
                p@,
            ),
        decreases rest@.len() + if done { 0int } else { 1int },
    {
        let end = find(rest, Class::Exactly('\n'));
        let ghost before_line = p@;
        let ghost text = rest@;
        match assemble_line(&mut p, before(rest, end), line) {
            Ok(()) => {},
            Err(kind) => {
                return Err(AsmError { line, kind });
            },
        }
        assert(after_lines(before_line, text, line as int) == if 0 <= end < text.len() {
            after_lines(p@, text.skip(end + 1), line + 1)
        } else {
            Ok::<ProgramView, AsmError>(p@)
        });
        if end == rest.len() {
            done = true;
        } else {
            rest = after(rest, end + 1);
            assert(rest@.len() == text.len() - end - 1);
            if rest.len() == 0 {
                proof {
                    let e = Seq::<char>::empty();
                    assert(rest@ =~= e);
                    assert(first(e, Class::Exactly('\n')) == 0);
                    assert(e.take(0) =~= e);
                    lemma_empty_line(p@, (line + 1) as usize);
                    assert(after_lines(p@, e, line + 1) == Ok::<ProgramView, AsmError>(p@));
                }
                done = true;
            } else {
                line += 1;
            }
        }
    }
    p.resolve()
}

/// Assembles the program text `code` into its image of 256 bytes. The
/// result is a function of the text alone.
pub fn assemble(code: &str) -> (r: Result<Vec<u8>, AsmError>)
    ensures
        match assembled(code@) {
            Ok(image) => r is Ok && r->Ok_0@ == image,
            Err(e) => r == Err::<Vec<u8>, AsmError>(e),
        },
        r is Ok ==> r->Ok_0@.len() == 256,
{
    let chars = chars_of(code);
    assemble_chars(chars.as_slice())
}

} // verus!
