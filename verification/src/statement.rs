//! Statements: a mnemonic with its operands, and the slots they are
//! encoded in.

use crate::number::{digit, digit_value, parse_signed, parsed, signed_value, Parsed, Radix};
use crate::program::{AsmErrorKind, Slot, SlotView, Word, WordView};
use crate::text::{
    after, before, copy_of, find, first, has_prefix, is_word, lower, lowered, starts_with,
    trim_start, trimmed_start, Class,
};
use vstd::prelude::*;

verus! {

/// The operations that a statement can name.
#[derive(Clone, Copy, Debug, PartialEq, Eq, Structural)]
pub enum Mnemonic {
    /// `none`: does nothing.
    Nop,
    /// `loadm r, a`: loads the register from the cell at the address.
    Loadm,
    /// `loadb r, v`: loads the register with the value.
    Loadb,
    /// `storem r, a`: stores the register into the cell at the address.
    Storem,
    /// `move a, b`: copies register `b` into register `a`.
    Move,
    /// `addi d, a, b`: adds two registers as integers.
    Addi,
    /// `addf d, a, b`: adds two registers as floating-point numbers.
    Addf,
    /// `or d, a, b`: the bitwise or of two registers.
    Or,
    /// `and d, a, b`: the bitwise and of two registers.
    And,
    /// `xor d, a, b`: the bitwise exclusive or of two registers.
    Xor,
    /// `rot r, n`: rotates the register right.
    Rot,
    /// `jump r, a`: jumps if the register equals register 0.
    Jump,
    /// `halt`: stops.
    Halt,
    /// `loadp r, p`: loads the register from the cell that `p` points at.
    Loadp,
    /// `storep r, p`: stores the register into the cell that `p` points at.
    Storep,
    /// `jumpl r, a`: jumps if the register is below register 0.
    Jumpl,
    /// `db v`: one byte of data.
    Db,
}

/// The operands that a mnemonic takes.
#[derive(Clone, Copy, Debug, PartialEq, Eq, Structural)]
pub enum Shape {
    /// None.
    Bare,
    /// A register and a value.
    RegValue,
    /// Three registers.
    Regs3,
    /// Two registers.
    Regs2,
    /// A value.
    Value,
}

impl Mnemonic {
    /// The opcode, which the high nibble of an instruction's first byte
    /// holds. `db` is no instruction and has none.
    pub open spec fn opcode(self) -> u8 {
        match self {
            Mnemonic::Nop | Mnemonic::Db => 0,
            Mnemonic::Loadm => 1,
            Mnemonic::Loadb => 2,
            Mnemonic::Storem => 3,
            Mnemonic::Move => 4,
            Mnemonic::Addi => 5,
            Mnemonic::Addf => 6,
            Mnemonic::Or => 7,
            Mnemonic::And => 8,
            Mnemonic::Xor => 9,
            Mnemonic::Rot => 10,
            Mnemonic::Jump => 11,
            Mnemonic::Halt => 12,
            Mnemonic::Loadp => 13,
            Mnemonic::Storep => 14,
            Mnemonic::Jumpl => 15,
        }
    }

    /// The operands that the mnemonic takes.
    pub open spec fn shape(self) -> Shape {
        match self {
            Mnemonic::Nop | Mnemonic::Halt => Shape::Bare,
            Mnemonic::Loadm
            | Mnemonic::Loadb
            | Mnemonic::Storem
            | Mnemonic::Rot
            | Mnemonic::Jump
            | Mnemonic::Jumpl => Shape::RegValue,
            Mnemonic::Addi | Mnemonic::Addf | Mnemonic::Or | Mnemonic::And | Mnemonic::Xor =>
                Shape::Regs3,
            Mnemonic::Move | Mnemonic::Loadp | Mnemonic::Storep => Shape::Regs2,
            Mnemonic::Db => Shape::Value,
        }
    }

    /// The mnemonic that `word` is, where it is one. Mnemonics are written in
    /// small letters.
    pub open spec fn named(word: Seq<char>) -> Option<Mnemonic> {
        if word == "none"@ {
            Some(Mnemonic::Nop)
        } else if word == "loadm"@ {
            Some(Mnemonic::Loadm)
        } else if word == "loadb"@ {
            Some(Mnemonic::Loadb)
        } else if word == "storem"@ {
            Some(Mnemonic::Storem)
        } else if word == "move"@ {
            Some(Mnemonic::Move)
        } else if word == "addi"@ {
            Some(Mnemonic::Addi)
        } else if word == "addf"@ {
            Some(Mnemonic::Addf)
        } else if word == "or"@ {
            Some(Mnemonic::Or)
        } else if word == "and"@ {
            Some(Mnemonic::And)
        } else if word == "xor"@ {
            Some(Mnemonic::Xor)
        } else if word == "rot"@ {
            Some(Mnemonic::Rot)
        } else if word == "jump"@ {
            Some(Mnemonic::Jump)
        } else if word == "halt"@ {
            Some(Mnemonic::Halt)
        } else if word == "loadp"@ {
            Some(Mnemonic::Loadp)
        } else if word == "storep"@ {
            Some(Mnemonic::Storep)
        } else if word == "jumpl"@ {
            Some(Mnemonic::Jumpl)
        } else if word == "db"@ {
            Some(Mnemonic::Db)
        } else {
            None
        }
    }

    /// Reads `word` as a mnemonic.
    pub fn parse(word: &[char]) -> (m: Option<Mnemonic>)
        ensures
            m == Mnemonic::named(word@),
    {
        if is_word(word, "none") {
            Some(Mnemonic::Nop)
        } else if is_word(word, "loadm") {
            Some(Mnemonic::Loadm)
        } else if is_word(word, "loadb") {
            Some(Mnemonic::Loadb)
        } else if is_word(word, "storem") {
            Some(Mnemonic::Storem)
        } else if is_word(word, "move") {
            Some(Mnemonic::Move)
        } else if is_word(word, "addi") {
            Some(Mnemonic::Addi)
        } else if is_word(word, "addf") {
            Some(Mnemonic::Addf)
        } else if is_word(word, "or") {
            Some(Mnemonic::Or)
        } else if is_word(word, "and") {
            Some(Mnemonic::And)
        } else if is_word(word, "xor") {
            Some(Mnemonic::Xor)
        } else if is_word(word, "rot") {
            Some(Mnemonic::Rot)
        } else if is_word(word, "jump") {
            Some(Mnemonic::Jump)
        } else if is_word(word, "halt") {
            Some(Mnemonic::Halt)
        } else if is_word(word, "loadp") {
            Some(Mnemonic::Loadp)
        } else if is_word(word, "storep") {
            Some(Mnemonic::Storep)
        } else if is_word(word, "jumpl") {
            Some(Mnemonic::Jumpl)
        } else if is_word(word, "db") {
            Some(Mnemonic::Db)
        } else {
            None
        }
    }

    /// The opcode.
    pub fn code(self) -> (op: u8)
        ensures
            op == self.opcode(),
            op < 16,
    {
        match self {
            Mnemonic::Nop | Mnemonic::Db => 0,
            Mnemonic::Loadm => 1,
            Mnemonic::Loadb => 2,
            Mnemonic::Storem => 3,
            Mnemonic::Move => 4,
            Mnemonic::Addi => 5,
            Mnemonic::Addf => 6,
            Mnemonic::Or => 7,
            Mnemonic::And => 8,
            Mnemonic::Xor => 9,
            Mnemonic::Rot => 10,
            Mnemonic::Jump => 11,
            Mnemonic::Halt => 12,
            Mnemonic::Loadp => 13,
            Mnemonic::Storep => 14,
            Mnemonic::Jumpl => 15,
        }
    }

    /// The operands that the mnemonic takes.
    pub fn form(self) -> (shape: Shape)
        ensures
            shape == self.shape(),
    {
        match self {
            Mnemonic::Nop | Mnemonic::Halt => Shape::Bare,
            Mnemonic::Loadm
            | Mnemonic::Loadb
            | Mnemonic::Storem
            | Mnemonic::Rot
            | Mnemonic::Jump
            | Mnemonic::Jumpl => Shape::RegValue,
            Mnemonic::Addi | Mnemonic::Addf | Mnemonic::Or | Mnemonic::And | Mnemonic::Xor =>
                Shape::Regs3,
            Mnemonic::Move | Mnemonic::Loadp | Mnemonic::Storep => Shape::Regs2,
            Mnemonic::Db => Shape::Value,
        }
    }
}

/// A value operand.
#[derive(Debug)]
pub enum Value {
    /// A byte.
    Const(u8),
    /// A reference to a label, as it is written.
    Ref(Vec<char>),
}

/// The mathematical value of a [`Value`].
pub enum ValueView {
    /// A byte.
    Const(u8),
    /// A reference to a label, as it is written.
    Ref(Seq<char>),
}

impl View for Value {
    type V = ValueView;

    open spec fn view(&self) -> ValueView {
        match self {
            Value::Const(b) => ValueView::Const(*b),
            Value::Ref(text) => ValueView::Ref(text@),
        }
    }
}

/// The operands of a statement.
pub enum Operands {
    /// None.
    Bare,
    /// A register and a value.
    RegValue(u8, ValueView),
    /// Three registers.
    Regs3(u8, u8, u8),
    /// Two registers.
    Regs2(u8, u8),
    /// A value.
    Value(ValueView),
}

impl Operands {
    /// Every register is one of the sixteen.
    pub open spec fn wf(self) -> bool {
        match self {
            Operands::Bare | Operands::Value(_) => true,
            Operands::RegValue(r, _) => r < 16,
            Operands::Regs3(a, b, c) => a < 16 && b < 16 && c < 16,
            Operands::Regs2(a, b) => a < 16 && b < 16,
        }
    }

    /// Which operands these are.
    pub open spec fn shape(self) -> Shape {
        match self {
            Operands::Bare => Shape::Bare,
            Operands::RegValue(_, _) => Shape::RegValue,
            Operands::Regs3(_, _, _) => Shape::Regs3,
            Operands::Regs2(_, _) => Shape::Regs2,
            Operands::Value(_) => Shape::Value,
        }
    }
}

/// The register that `s` starts with, and what follows it. A register is
/// written as `R` or `r` and one hexadecimal digit; white space may precede
/// it, and no letter or digit may follow it.
pub open spec fn register(s: Seq<char>) -> Result<(u8, Seq<char>), AsmErrorKind> {
    let t = trimmed_start(s);
    let end = first(t, Class::NonAlphanumeric);
    if end == 2 && (t[0] == 'r' || t[0] == 'R') && digit_value(t[1], Radix::Hex) is Some {
        Ok((digit_value(t[1], Radix::Hex)->0 as u8, t.skip(2)))
    } else {
        Err(AsmErrorKind::BadRegister)
    }
}

/// What follows the comma that `s` starts with; white space may precede the
/// comma.
pub open spec fn comma(s: Seq<char>) -> Result<Seq<char>, AsmErrorKind> {
    let t = trimmed_start(s);
    if t.len() > 0 && t[0] == ',' {
        Ok(t.skip(1))
    } else {
        Err(AsmErrorKind::MissingComma)
    }
}

/// The byte that a literal is stored as, where numbers from -256 to 256
/// were accepted: the number modulo 256.
pub open spec fn constant(number: Parsed) -> Result<u8, AsmErrorKind> {
    match number {
        Parsed::Malformed => Err(AsmErrorKind::BadNumber),
        Parsed::OutOfRange => Err(AsmErrorKind::ValueOutOfRange),
        Parsed::Value(v) => Ok((v as int % 256) as u8),
    }
}

/// The value that the token `token` denotes. What kind of value it is shows
/// in its small letters: behind `0x` a hexadecimal literal; with a letter or
/// a dot at its start a reference; else a decimal literal. A reference keeps
/// its spelling: the names of labels tell capital letters from small ones.
pub open spec fn token_value(token: Seq<char>) -> Result<ValueView, AsmErrorKind> {
    let small = lowered(token);
    if starts_with(small, "0x"@) {
        match constant(parsed(signed_value(small.skip(2), Radix::Hex), 256, 256)) {
            Ok(b) => Ok(ValueView::Const(b)),
            Err(e) => Err(e),
        }
    } else if small.len() > 0 && Class::LetterOrDot.holds(small[0]) {
        Ok(ValueView::Ref(token))
    } else {
        match constant(parsed(signed_value(small, Radix::Decimal), 256, 256)) {
            Ok(b) => Ok(ValueView::Const(b)),
            Err(e) => Err(e),
        }
    }
}

/// The value that `s` starts with, and what follows it. The value is the
/// token up to the next white space or comma; white space may precede it.
pub open spec fn value(s: Seq<char>) -> Result<(ValueView, Seq<char>), AsmErrorKind> {
    let t = trimmed_start(s);
    let end = first(t, Class::SpaceOrComma);
    match token_value(t.take(end)) {
        Ok(v) => Ok((v, t.skip(end))),
        Err(e) => Err(e),
    }
}

/// The register behind a comma that `s` starts with, and what follows it.
pub open spec fn next_register(s: Seq<char>) -> Result<(u8, Seq<char>), AsmErrorKind> {
    match comma(s) {
        Ok(rest) => register(rest),
        Err(e) => Err(e),
    }
}

/// The operands of the given shape that `s` starts with, and what follows
/// them. Commas separate the operands.
pub open spec fn operands(shape: Shape, s: Seq<char>) -> Result<(Operands, Seq<char>), AsmErrorKind> {
    match shape {
        Shape::Bare => Ok((Operands::Bare, s)),
        Shape::Value => match value(s) {
            Ok((v, rest)) => Ok((Operands::Value(v), rest)),
            Err(e) => Err(e),
        },
        Shape::RegValue => match register(s) {
            Err(e) => Err(e),
            Ok((r, s1)) => match comma(s1) {
                Err(e) => Err(e),
                Ok(s2) => match value(s2) {
                    Err(e) => Err(e),
                    Ok((v, rest)) => Ok((Operands::RegValue(r, v), rest)),
                },
            },
        },
        Shape::Regs2 => match register(s) {
            Err(e) => Err(e),
            Ok((a, s1)) => match next_register(s1) {
                Err(e) => Err(e),
                Ok((b, rest)) => Ok((Operands::Regs2(a, b), rest)),
            },
        },
        Shape::Regs3 => match register(s) {
            Err(e) => Err(e),
            Ok((a, s1)) => match next_register(s1) {
                Err(e) => Err(e),
                Ok((b, s2)) => match next_register(s2) {
                    Err(e) => Err(e),
                    Ok((c, rest)) => Ok((Operands::Regs3(a, b, c), rest)),
                },
            },
        },
    }
}

/// The byte with the given nibbles.
pub open spec fn nibbles(high: u8, low: u8) -> u8
    recommends
        high < 16,
        low < 16,
{
    (high * 16 + low) as u8
}

/// The slot that holds `value`, written on line `line`.
pub open spec fn slot_of(value: ValueView, line: usize) -> SlotView {
    match value {
        ValueView::Const(b) => SlotView::Const(b),
        ValueView::Ref(text) => SlotView::Ref(text, line),
    }
}

/// The slots that the statement of `mnemonic` with `ops`, written on line
/// `line`, is encoded in. An instruction has the opcode in the high nibble
/// of its first byte. `move a, b` has `b` in the high and `a` in the low
/// nibble of its second byte.
pub open spec fn encoded(mnemonic: Mnemonic, ops: Operands, line: usize) -> WordView {
    let op = mnemonic.opcode();
    match ops {
        Operands::Bare => WordView {
            first: SlotView::Const(nibbles(op, 0)),
            second: Some(SlotView::Const(0)),
        },
        Operands::RegValue(r, v) => WordView {
            first: SlotView::Const(nibbles(op, r)),
            second: Some(slot_of(v, line)),
        },
        Operands::Regs3(a, b, c) => WordView {
            first: SlotView::Const(nibbles(op, a)),
            second: Some(SlotView::Const(nibbles(b, c))),
        },
        Operands::Regs2(a, b) => if mnemonic == Mnemonic::Move {
            WordView {
                first: SlotView::Const(nibbles(op, 0)),
                second: Some(SlotView::Const(nibbles(b, a))),
            }
        } else {
            WordView { first: SlotView::Const(nibbles(op, a)), second: Some(SlotView::Const(b)) }
        },
        Operands::Value(v) => WordView { first: slot_of(v, line), second: None },
    }
}

/// Joins two nibbles into a byte.
fn join(high: u8, low: u8) -> (b: u8)
    requires
        high < 16,
        low < 16,
    ensures
        b == nibbles(high, low),
{
    assert(high < 16 && low < 16 ==> (high << 4) | low == high * 16 + low) by (bit_vector);
    (high << 4) | low
}

/// Reads the register that `s` starts with.
pub fn parse_register(s: &[char]) -> (r: Result<(u8, &[char]), AsmErrorKind>)
    ensures
        match register(s@) {
            Ok((reg, rest)) => r is Ok && r->Ok_0.0 == reg && r->Ok_0.1@ == rest && reg < 16,
            Err(e) => r is Err && r->Err_0 == e,
        },
{
    let t = trim_start(s);
    let end = find(t, Class::NonAlphanumeric);
    if end != 2 || !(t[0] == 'r' || t[0] == 'R') {
        return Err(AsmErrorKind::BadRegister);
    }
    match digit(t[1], Radix::Hex) {
        Some(v) => Ok((v as u8, after(t, 2))),
        None => Err(AsmErrorKind::BadRegister),
    }
}

/// Reads the comma that `s` starts with.
pub fn parse_comma(s: &[char]) -> (r: Result<&[char], AsmErrorKind>)
    ensures
        match comma(s@) {
            Ok(rest) => r is Ok && r->Ok_0@ == rest,
            Err(e) => r is Err && r->Err_0 == e,
        },
{
    let t = trim_start(s);
    if t.len() > 0 && t[0] == ',' {
        Ok(after(t, 1))
    } else {
        Err(AsmErrorKind::MissingComma)
    }
}

/// Stores the number that a literal was read as.
fn to_constant(number: Parsed) -> (r: Result<Value, AsmErrorKind>)
    requires
        number matches Parsed::Value(v) ==> -256 <= v <= 256,
    ensures
        match constant(number) {
            Ok(b) => r is Ok && r->Ok_0@ == ValueView::Const(b),
            Err(e) => r is Err && r->Err_0 == e,
        },
{
    match number {
        Parsed::Malformed => Err(AsmErrorKind::BadNumber),
        Parsed::OutOfRange => Err(AsmErrorKind::ValueOutOfRange),
        Parsed::Value(v) => {
            if v < 0 {
                Ok(Value::Const((256 + v) as u8))
            } else if v == 256 {
                Ok(Value::Const(0))
            } else {
                Ok(Value::Const(v as u8))
            }
        },
    }
}

/// Reads the value that `s` starts with.
pub fn parse_value(s: &[char]) -> (r: Result<(Value, &[char]), AsmErrorKind>)
    ensures
        match value(s@) {
            Ok((v, rest)) => r is Ok && r->Ok_0.0@ == v && r->Ok_0.1@ == rest,
            Err(e) => r is Err && r->Err_0 == e,
        },
{
    let t = trim_start(s);
    let end = find(t, Class::SpaceOrComma);
    let token = before(t, end);
    let small = lower(token);
    let rest = after(t, end);
    let value = if has_prefix(small.as_slice(), "0x") {
        proof {
            reveal_strlit("0x");
        }
        let number = parse_signed(after(small.as_slice(), 2), Radix::Hex, 256);
        to_constant(number)
    } else if small.len() > 0 && Class::LetterOrDot.contains(small[0]) {
        Ok(Value::Ref(copy_of(token)))
    } else {
        let number = parse_signed(small.as_slice(), Radix::Decimal, 256);
        to_constant(number)
    };
    match value {
        Ok(v) => Ok((v, rest)),
        Err(e) => Err(e),
    }
}

/// The slot that holds `value`.
fn to_slot(value: Value, line: usize) -> (slot: Slot)
    ensures
        slot@ == slot_of(value@, line),
{
    match value {
        Value::Const(b) => Slot::Const(b),
        Value::Ref(text) => Slot::Ref(text, line),
    }
}

/// Reads the operands of `mnemonic` that `s` starts with and encodes the
/// statement, written on line `line`.
pub fn parse_statement(mnemonic: Mnemonic, s: &[char], line: usize) -> (r: Result<
    (Word, &[char]),
    AsmErrorKind,
>)
    ensures
        match operands(mnemonic.shape(), s@) {
            Ok((ops, rest)) => r is Ok && r->Ok_0.0@ == encoded(mnemonic, ops, line) && r->Ok_0.1@
                == rest,
            Err(e) => r is Err && r->Err_0 == e,
        },
{
    let op = mnemonic.code();
    match mnemonic.form() {
        Shape::Bare => Ok(
            (Word { first: Slot::Const(join(op, 0)), second: Some(Slot::Const(0)) }, s),
        ),
        Shape::Value => {
            let (v, rest) = parse_value(s)?;
            Ok((Word { first: to_slot(v, line), second: None }, rest))
        },
        Shape::RegValue => {
            let (r, s1) = parse_register(s)?;
            let s2 = parse_comma(s1)?;
            let (v, rest) = parse_value(s2)?;
            Ok((Word { first: Slot::Const(join(op, r)), second: Some(to_slot(v, line)) }, rest))
        },
        Shape::Regs2 => {
            let (a, s1) = parse_register(s)?;
            let s2 = parse_comma(s1)?;
            let (b, rest) = parse_register(s2)?;
            if let Mnemonic::Move = mnemonic {
                Ok(
                    (
                        Word {
                            first: Slot::Const(join(op, 0)),
                            second: Some(Slot::Const(join(b, a))),
                        },
                        rest,
                    ),
                )
            } else {
                Ok((Word { first: Slot::Const(join(op, a)), second: Some(Slot::Const(b)) }, rest))
            }
        },
        Shape::Regs3 => {
            let (a, s1) = parse_register(s)?;
            let s2 = parse_comma(s1)?;
            let (b, s3) = parse_register(s2)?;
            let s4 = parse_comma(s3)?;
            let (c, rest) = parse_register(s4)?;
            Ok(
                (
                    Word {
                        first: Slot::Const(join(op, a)),
                        second: Some(Slot::Const(join(b, c))),
                    },
                    rest,
                ),
            )
        },
    }
}

} // verus!
