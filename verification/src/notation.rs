//! Statements as they are written: the text of a register, of a number and
//! of a whole statement, and what the assembler reads from it.

use crate::assembler::{after_line, after_lines, after_statement, assembled, statement_text};
use crate::encoding::{lemma_statement_decodes, meaning};
use crate::number::{digit_value, digits_value, is_digits, Radix};
use crate::program::{AsmError, AsmErrorKind, ProgramView, SlotView};
use crate::statement::{
    comma, encoded, nibbles, operands, register, value, Mnemonic, Operands, ValueView,
};
use crate::text::{
    alphanumeric, lemma_first_from_is, lowered, trimmed, trimmed_len, trimmed_start, whitespace,
    Class,
};
use crate::vm::Instr;
use vstd::prelude::*;

verus! {

/// The digit that stands for `d`, for `d` below sixteen: `0` to `9`, then
/// `A` to `F`.
pub open spec fn digit_char(d: int) -> char {
    if d < 10 {
        (48 + d) as char
    } else {
        (55 + d) as char
    }
}

/// The decimal digits of `v`, without a zero at the start.
pub open spec fn decimal(v: nat) -> Seq<char>
    decreases v,
{
    if v < 10 {
        seq![digit_char(v as int)]
    } else {
        decimal(v / 10).push(digit_char((v % 10) as int))
    }
}

/// The text of a register, as it stands behind a mnemonic or a comma: a
/// space, `R` and the digit of the register.
pub open spec fn register_text(r: u8) -> Seq<char> {
    seq![' ', 'R', digit_char(r as int)]
}

/// A digit is read as the number that it stands for.
pub proof fn lemma_digit_char(d: int)
    requires
        0 <= d < 16,
    ensures
        digit_value(digit_char(d), Radix::Hex) == Some(d),
        d < 10 ==> digit_value(digit_char(d), Radix::Decimal) == Some(d),
        d < 10 ==> '0' <= digit_char(d) && digit_char(d) <= '9',
        alphanumeric(digit_char(d)),
        !whitespace(digit_char(d)),
        digit_char(d) != ',',
{
}

/// The decimal digits of a number are read as that number.
pub proof fn lemma_decimal(v: nat)
    ensures
        decimal(v).len() > 0,
        forall|i: int|
            0 <= i < decimal(v).len() ==> '0' <= #[trigger] decimal(v)[i] && decimal(v)[i] <= '9',
        is_digits(decimal(v), Radix::Decimal),
        digits_value(decimal(v), Radix::Decimal) == v,
    decreases v,
{
    if v < 10 {
        lemma_digit_char(v as int);
        let d = decimal(v);
        assert(d.drop_last() =~= Seq::<char>::empty());
        assert(digits_value(d.drop_last(), Radix::Decimal) == 0);
    } else {
        lemma_decimal(v / 10);
        lemma_digit_char((v % 10) as int);
        let d = decimal(v);
        let shorter = decimal(v / 10);
        assert(d.drop_last() =~= shorter);
        assert forall|i: int| 0 <= i < d.len() implies '0' <= #[trigger] d[i] && d[i] <= '9' by {
            if i < shorter.len() {
                assert(d[i] == shorter[i]);
            }
        }
        assert forall|i: int| 0 <= i < d.len() implies (#[trigger] digit_value(
            d[i],
            Radix::Decimal,
        )) is Some by {
            assert('0' <= d[i] && d[i] <= '9');
        }
    }
}

/// A written register is read as that register, where no letter or digit
/// follows it.
pub proof fn lemma_register_written(r: u8, rest: Seq<char>)
    requires
        r < 16,
        rest.len() > 0 ==> !alphanumeric(rest[0]),
    ensures
        register(register_text(r) + rest) == Ok::<(u8, Seq<char>), AsmErrorKind>((r, rest)),
{
    let s = register_text(r) + rest;
    lemma_digit_char(r as int);
    assert(s[0] == ' ' && s[1] == 'R' && s[2] == digit_char(r as int));
    lemma_first_from_is(s, Class::NonSpace, 0, 1);
    let t = trimmed_start(s);
    assert(t =~= seq!['R', digit_char(r as int)] + rest);
    assert(t[0] == 'R' && t[1] == digit_char(r as int));
    if rest.len() > 0 {
        assert(t[2] == rest[0]);
    }
    lemma_first_from_is(t, Class::NonAlphanumeric, 0, 2);
    assert(t.skip(2) =~= rest);
}

/// A comma is read, and what follows it is left.
pub proof fn lemma_comma_written(rest: Seq<char>)
    ensures
        comma(seq![','] + rest) == Ok::<Seq<char>, AsmErrorKind>(rest),
{
    let s = seq![','] + rest;
    assert(s[0] == ',');
    lemma_first_from_is(s, Class::NonSpace, 0, 0);
    assert(trimmed_start(s) =~= s);
    assert(s.skip(1) =~= rest);
}

/// A written number is read as the byte that it denotes.
pub proof fn lemma_value_written(v: u8)
    ensures
        value(seq![' '] + decimal(v as nat)) == Ok::<(ValueView, Seq<char>), AsmErrorKind>(
            (ValueView::Const(v), Seq::empty()),
        ),
{
    let d = decimal(v as nat);
    let s = seq![' '] + d;
    lemma_decimal(v as nat);
    assert(s[0] == ' ' && s[1] == d[0]);
    assert('0' <= d[0] && d[0] <= '9');
    lemma_first_from_is(s, Class::NonSpace, 0, 1);
    let t = trimmed_start(s);
    assert(t =~= d);
    assert forall|i: int| 0 <= i < d.len() implies !Class::SpaceOrComma.holds(#[trigger] d[i]) by {
        assert('0' <= d[i] && d[i] <= '9');
    }
    lemma_first_from_is(d, Class::SpaceOrComma, 0, d.len() as int);
    assert(d.take(d.len() as int) =~= d);
    assert(d.skip(d.len() as int) =~= Seq::<char>::empty());
    assert(lowered(d) =~= d) by {
        assert forall|i: int| 0 <= i < d.len() implies lowered(d)[i] == d[i] by {
            assert('0' <= d[i] && d[i] <= '9');
        }
    }
    reveal_strlit("0x");
    if d.len() >= 2 {
        assert('0' <= d[1] && d[1] <= '9');
        assert(d.take(2)[1] == d[1]);
        assert("0x"@[1] == 'x');
    }
}

/// The text of the operands of a statement, as it stands behind the
/// mnemonic: registers as `R` and a digit, values as decimal numbers, a comma
/// and a space between two operands.
pub open spec fn operands_text(ops: Operands) -> Seq<char> {
    match ops {
        Operands::Bare => Seq::empty(),
        Operands::RegValue(r, ValueView::Const(v)) => register_text(r) + seq![','] + (seq![' ']
            + decimal(v as nat)),
        Operands::Regs2(a, b) => register_text(a) + seq![','] + register_text(b),
        Operands::Regs3(a, b, c) => register_text(a) + seq![','] + register_text(b) + seq![',']
            + register_text(c),
        Operands::Value(ValueView::Const(v)) => seq![' '] + decimal(v as nat),
        _ => Seq::empty(),
    }
}

/// Whether the operands are registers and numbers, with no reference among
/// them.
pub open spec fn plain(ops: Operands) -> bool {
    match ops {
        Operands::RegValue(_, v) => v is Const,
        Operands::Value(v) => v is Const,
        _ => true,
    }
}

/// Written operands are read as the operands that were written, and nothing
/// is left behind them.
pub proof fn lemma_operands_written(ops: Operands)
    requires
        ops.wf(),
        plain(ops),
    ensures
        operands(ops.shape(), operands_text(ops)) == Ok::<(Operands, Seq<char>), AsmErrorKind>(
            (ops, Seq::empty()),
        ),
{
    let none = Seq::<char>::empty();
    match ops {
        Operands::Bare => {},
        Operands::Value(ValueView::Const(v)) => {
            lemma_value_written(v);
        },
        Operands::RegValue(r, ValueView::Const(v)) => {
            let tail = seq![' '] + decimal(v as nat);
            let rest = seq![','] + tail;
            assert(operands_text(ops) =~= register_text(r) + rest);
            assert(rest[0] == ',');
            lemma_register_written(r, rest);
            lemma_comma_written(tail);
            lemma_value_written(v);
        },
        Operands::Regs2(a, b) => {
            let second = register_text(b);
            let rest = seq![','] + second;
            assert(operands_text(ops) =~= register_text(a) + rest);
            assert(rest[0] == ',');
            lemma_register_written(a, rest);
            lemma_comma_written(second);
            assert(second =~= second + none);
            lemma_register_written(b, none);
        },
        Operands::Regs3(a, b, c) => {
            let third = register_text(c);
            let after_second = seq![','] + third;
            let second = register_text(b) + after_second;
            let rest = seq![','] + second;
            assert(operands_text(ops) =~= register_text(a) + rest);
            assert(rest[0] == ',');
            assert(after_second[0] == ',');
            lemma_register_written(a, rest);
            lemma_comma_written(second);
            lemma_register_written(b, after_second);
            lemma_comma_written(third);
            assert(third =~= third + none);
            lemma_register_written(c, none);
        },
        _ => {},
    }
}

impl Mnemonic {
    /// The word that names the mnemonic.
    pub open spec fn name(self) -> Seq<char> {
        match self {
            Mnemonic::Nop => "none"@,
            Mnemonic::Loadm => "loadm"@,
            Mnemonic::Loadb => "loadb"@,
            Mnemonic::Storem => "storem"@,
            Mnemonic::Move => "move"@,
            Mnemonic::Addi => "addi"@,
            Mnemonic::Addf => "addf"@,
            Mnemonic::Or => "or"@,
            Mnemonic::And => "and"@,
            Mnemonic::Xor => "xor"@,
            Mnemonic::Rot => "rot"@,
            Mnemonic::Jump => "jump"@,
            Mnemonic::Halt => "halt"@,
            Mnemonic::Loadp => "loadp"@,
            Mnemonic::Storep => "storep"@,
            Mnemonic::Jumpl => "jumpl"@,
            Mnemonic::Db => "db"@,
        }
    }
}

/// The name of a mnemonic is a word of small letters that names this
/// mnemonic and no other.
pub proof fn lemma_name(m: Mnemonic)
    ensures
        m.name().len() > 0,
        forall|i: int| 0 <= i < m.name().len() ==> 'a' <= #[trigger] m.name()[i] && m.name()[i] <= 'z',
        Mnemonic::named(m.name()) == Some(m),
{
    reveal_strlit("none");
    reveal_strlit("loadm");
    reveal_strlit("loadb");
    reveal_strlit("storem");
    reveal_strlit("move");
    reveal_strlit("addi");
    reveal_strlit("addf");
    reveal_strlit("or");
    reveal_strlit("and");
    reveal_strlit("xor");
    reveal_strlit("rot");
    reveal_strlit("jump");
    reveal_strlit("halt");
    reveal_strlit("loadp");
    reveal_strlit("storep");
    reveal_strlit("jumpl");
    reveal_strlit("db");
    match m {
        Mnemonic::Nop => {

        },
        Mnemonic::Loadm => {
            assert("loadm"@.len() != "none"@.len());
        },
        Mnemonic::Loadb => {
            assert("loadb"@.len() != "none"@.len());
            assert("loadb"@[4] != "loadm"@[4]);
        },
        Mnemonic::Storem => {
            assert("storem"@.len() != "none"@.len());
            assert("storem"@.len() != "loadm"@.len());
            assert("storem"@.len() != "loadb"@.len());
        },
        Mnemonic::Move => {
            assert("move"@[0] != "none"@[0]);
            assert("move"@.len() != "loadm"@.len());
            assert("move"@.len() != "loadb"@.len());
            assert("move"@.len() != "storem"@.len());
        },
        Mnemonic::Addi => {
            assert("addi"@[0] != "none"@[0]);
            assert("addi"@.len() != "loadm"@.len());
            assert("addi"@.len() != "loadb"@.len());
            assert("addi"@.len() != "storem"@.len());
            assert("addi"@[0] != "move"@[0]);
        },
        Mnemonic::Addf => {
            assert("addf"@[0] != "none"@[0]);
            assert("addf"@.len() != "loadm"@.len());
            assert("addf"@.len() != "loadb"@.len());
            assert("addf"@.len() != "storem"@.len());
            assert("addf"@[0] != "move"@[0]);
            assert("addf"@[3] != "addi"@[3]);
        },
        Mnemonic::Or => {
            assert("or"@.len() != "none"@.len());
            assert("or"@.len() != "loadm"@.len());
            assert("or"@.len() != "loadb"@.len());
            assert("or"@.len() != "storem"@.len());
            assert("or"@.len() != "move"@.len());
            assert("or"@.len() != "addi"@.len());
            assert("or"@.len() != "addf"@.len());
        },
        Mnemonic::And => {
            assert("and"@.len() != "none"@.len());
            assert("and"@.len() != "loadm"@.len());
            assert("and"@.len() != "loadb"@.len());
            assert("and"@.len() != "storem"@.len());
            assert("and"@.len() != "move"@.len());
            assert("and"@.len() != "addi"@.len());
            assert("and"@.len() != "addf"@.len());
            assert("and"@.len() != "or"@.len());
        },
        Mnemonic::Xor => {
            assert("xor"@.len() != "none"@.len());
            assert("xor"@.len() != "loadm"@.len());
            assert("xor"@.len() != "loadb"@.len());
            assert("xor"@.len() != "storem"@.len());
            assert("xor"@.len() != "move"@.len());
            assert("xor"@.len() != "addi"@.len());
            assert("xor"@.len() != "addf"@.len());
            assert("xor"@.len() != "or"@.len());
            assert("xor"@[0] != "and"@[0]);
        },
        Mnemonic::Rot => {
            assert("rot"@.len() != "none"@.len());
            assert("rot"@.len() != "loadm"@.len());
            assert("rot"@.len() != "loadb"@.len());
            assert("rot"@.len() != "storem"@.len());
            assert("rot"@.len() != "move"@.len());
            assert("rot"@.len() != "addi"@.len());
            assert("rot"@.len() != "addf"@.len());
            assert("rot"@.len() != "or"@.len());
            assert("rot"@[0] != "and"@[0]);
            assert("rot"@[0] != "xor"@[0]);
        },
        Mnemonic::Jump => {
            assert("jump"@[0] != "none"@[0]);
            assert("jump"@.len() != "loadm"@.len());
            assert("jump"@.len() != "loadb"@.len());
            assert("jump"@.len() != "storem"@.len());
            assert("jump"@[0] != "move"@[0]);
            assert("jump"@[0] != "addi"@[0]);
            assert("jump"@[0] != "addf"@[0]);
            assert("jump"@.len() != "or"@.len());
            assert("jump"@.len() != "and"@.len());
            assert("jump"@.len() != "xor"@.len());
            assert("jump"@.len() != "rot"@.len());
        },
        Mnemonic::Halt => {
            assert("halt"@[0] != "none"@[0]);
            assert("halt"@.len() != "loadm"@.len());
            assert("halt"@.len() != "loadb"@.len());
            assert("halt"@.len() != "storem"@.len());
            assert("halt"@[0] != "move"@[0]);
            assert("halt"@[0] != "addi"@[0]);
            assert("halt"@[0] != "addf"@[0]);
            assert("halt"@.len() != "or"@.len());
            assert("halt"@.len() != "and"@.len());
            assert("halt"@.len() != "xor"@.len());
            assert("halt"@.len() != "rot"@.len());
            assert("halt"@[0] != "jump"@[0]);
        },
        Mnemonic::Loadp => {
            assert("loadp"@.len() != "none"@.len());
            assert("loadp"@[4] != "loadm"@[4]);
            assert("loadp"@[4] != "loadb"@[4]);
            assert("loadp"@.len() != "storem"@.len());
            assert("loadp"@.len() != "move"@.len());
            assert("loadp"@.len() != "addi"@.len());
            assert("loadp"@.len() != "addf"@.len());
            assert("loadp"@.len() != "or"@.len());
            assert("loadp"@.len() != "and"@.len());
            assert("loadp"@.len() != "xor"@.len());
            assert("loadp"@.len() != "rot"@.len());
            assert("loadp"@.len() != "jump"@.len());
            assert("loadp"@.len() != "halt"@.len());
        },
        Mnemonic::Storep => {
            assert("storep"@.len() != "none"@.len());
            assert("storep"@.len() != "loadm"@.len());
            assert("storep"@.len() != "loadb"@.len());
            assert("storep"@[5] != "storem"@[5]);
            assert("storep"@.len() != "move"@.len());
            assert("storep"@.len() != "addi"@.len());
            assert("storep"@.len() != "addf"@.len());
            assert("storep"@.len() != "or"@.len());
            assert("storep"@.len() != "and"@.len());
            assert("storep"@.len() != "xor"@.len());
            assert("storep"@.len() != "rot"@.len());
            assert("storep"@.len() != "jump"@.len());
            assert("storep"@.len() != "halt"@.len());
            assert("storep"@.len() != "loadp"@.len());
        },
        Mnemonic::Jumpl => {
            assert("jumpl"@.len() != "none"@.len());
            assert("jumpl"@[0] != "loadm"@[0]);
            assert("jumpl"@[0] != "loadb"@[0]);
            assert("jumpl"@.len() != "storem"@.len());
            assert("jumpl"@.len() != "move"@.len());
            assert("jumpl"@.len() != "addi"@.len());
            assert("jumpl"@.len() != "addf"@.len());
            assert("jumpl"@.len() != "or"@.len());
            assert("jumpl"@.len() != "and"@.len());
            assert("jumpl"@.len() != "xor"@.len());
            assert("jumpl"@.len() != "rot"@.len());
            assert("jumpl"@.len() != "jump"@.len());
            assert("jumpl"@.len() != "halt"@.len());
            assert("jumpl"@[0] != "loadp"@[0]);
            assert("jumpl"@.len() != "storep"@.len());
        },
        Mnemonic::Db => {
            assert("db"@.len() != "none"@.len());
            assert("db"@.len() != "loadm"@.len());
            assert("db"@.len() != "loadb"@.len());
            assert("db"@.len() != "storem"@.len());
            assert("db"@.len() != "move"@.len());
            assert("db"@.len() != "addi"@.len());
            assert("db"@.len() != "addf"@.len());
            assert("db"@[0] != "or"@[0]);
            assert("db"@.len() != "and"@.len());
            assert("db"@.len() != "xor"@.len());
            assert("db"@.len() != "rot"@.len());
            assert("db"@.len() != "jump"@.len());
            assert("db"@.len() != "halt"@.len());
            assert("db"@.len() != "loadp"@.len());
            assert("db"@.len() != "storep"@.len());
            assert("db"@.len() != "jumpl"@.len());
        },
    }
}

/// The text of a statement: the name of the mnemonic and the operands.
pub open spec fn written(m: Mnemonic, ops: Operands) -> Seq<char> {
    m.name() + operands_text(ops)
}

/// Whether `c` can stand among written operands: a space, a comma, `R` or a
/// digit.
pub open spec fn operand_char(c: char) -> bool {
    c == ' ' || c == ',' || c == 'R' || ('0' <= c && c <= '9') || ('A' <= c && c <= 'F')
}

/// Written operands consist of spaces, commas, `R` and digits; they start
/// with a space and end with a digit.
pub proof fn lemma_operands_text(ops: Operands)
    requires
        ops.wf(),
        plain(ops),
    ensures
        forall|i: int|
            0 <= i < operands_text(ops).len() ==> operand_char(#[trigger] operands_text(ops)[i]),
        operands_text(ops).len() > 0 ==> operands_text(ops)[0] == ' ' && !whitespace(
            operands_text(ops).last(),
        ),
{
    let t = operands_text(ops);
    match ops {
        Operands::Value(ValueView::Const(v)) => {
            lemma_decimal(v as nat);
            let d = decimal(v as nat);
            assert forall|i: int| 0 <= i < t.len() implies operand_char(#[trigger] t[i]) by {
                if i > 0 {
                    assert(t[i] == d[i - 1]);
                }
            }
            assert(t.last() == d[d.len() - 1]);
        },
        Operands::RegValue(r, ValueView::Const(v)) => {
            lemma_decimal(v as nat);
            lemma_digit_char(r as int);
            let d = decimal(v as nat);
            assert forall|i: int| 0 <= i < t.len() implies operand_char(#[trigger] t[i]) by {
                if i > 4 {
                    assert(t[i] == d[i - 5]);
                }
            }
            assert(t.last() == d[d.len() - 1]);
        },
        Operands::Regs2(a, b) => {
            lemma_digit_char(a as int);
            lemma_digit_char(b as int);
        },
        Operands::Regs3(a, b, c) => {
            lemma_digit_char(a as int);
            lemma_digit_char(b as int);
            lemma_digit_char(c as int);
        },
        _ => {},
    }
}

/// The line of a written statement stores the statement's encoding at the
/// cursor.
pub proof fn lemma_line_written(p: ProgramView, m: Mnemonic, ops: Operands, line: usize)
    requires
        ops.wf(),
        plain(ops),
        ops.shape() == m.shape(),
    ensures
        after_line(p, written(m, ops), line) == p.stored(encoded(m, ops, line)),
{
    reveal(after_line);
    let name = m.name();
    let args = operands_text(ops);
    let text = written(m, ops);
    let n = text.len() as int;
    let k = name.len() as int;
    lemma_name(m);
    lemma_operands_text(ops);
    lemma_operands_written(ops);
    assert forall|i: int| 0 <= i < n implies (if i < k {
        'a' <= #[trigger] text[i] && text[i] <= 'z'
    } else {
        operand_char(text[i])
    }) by {
        if i < k {
            assert(text[i] == name[i]);
        } else {
            assert(text[i] == args[i - k]);
        }
    }
    assert(!whitespace(text.last())) by {
        if args.len() > 0 {
            assert(text.last() == args.last());
        }
    }
    lemma_first_from_is(text, Class::NonSpace, 0, 0);
    assert(trimmed_start(text) =~= text);
    assert(trimmed_len(text) == n);
    assert(text.take(n) =~= text);
    assert(trimmed(text) == text);
    lemma_first_from_is(text, Class::Exactly(';'), 0, n);
    assert(statement_text(text) == text);
    lemma_first_from_is(text, Class::Exactly(':'), 0, n);
    if args.len() > 0 {
        assert(text[k] == args[0]);
    }
    lemma_first_from_is(text, Class::Space, 0, k);
    assert(text.take(k) =~= name);
    assert(lowered(name) =~= name);
    assert(text.skip(k) =~= args);
    let none = Seq::<char>::empty();
    lemma_first_from_is(none, Class::NonSpace, 0, 0);
    assert(trimmed_start(none).len() == 0);
    assert(after_statement(p, text, line) == p.stored(encoded(m, ops, line)));
}

/// Where every slot holds a byte, the image holds these bytes.
pub proof fn lemma_image_of_bytes(p: ProgramView, n: int)
    requires
        p.wf(),
        0 <= n <= 256,
        forall|i: int| 0 <= i < 256 ==> (#[trigger] p.slots[i]) is Const,
    ensures
        p.image(n) == Ok::<Seq<u8>, AsmError>(Seq::new(n as nat, |i: int| p.slots[i]->Const_0)),
    decreases n,
{
    if n > 0 {
        lemma_image_of_bytes(p, n - 1);
        let shorter = Seq::new((n - 1) as nat, |i: int| p.slots[i]->Const_0);
        assert(p.slots[n - 1] is Const);
        assert(shorter.push(p.slots[n - 1]->Const_0) =~= Seq::new(
            n as nat,
            |i: int| p.slots[i]->Const_0,
        ));
    } else {
        assert(Seq::<u8>::empty() =~= Seq::new(0nat, |i: int| p.slots[i]->Const_0));
    }
}

/// Round trip from the text: a program of one written instruction assembles
/// to an image that starts with the two bytes of the statement's encoding
/// and is zero elsewhere, and these two bytes decode to the instruction that
/// the statement names. This holds of every mnemonic of an instruction, all
/// registers and all bytes as values.
pub proof fn lemma_written_statement_assembles(m: Mnemonic, ops: Operands)
    requires
        m != Mnemonic::Db,
        ops.wf(),
        plain(ops),
        ops.shape() == m.shape(),
    ensures
        assembled(written(m, ops)) is Ok,
        assembled(written(m, ops))->Ok_0.len() == 256,
        SlotView::Const(assembled(written(m, ops))->Ok_0[0]) == encoded(m, ops, 1).first,
        Some(SlotView::Const(assembled(written(m, ops))->Ok_0[1])) == encoded(m, ops, 1).second,
        forall|i: int| 2 <= i < 256 ==> assembled(written(m, ops))->Ok_0[i] == 0,
        Instr::decode(assembled(written(m, ops))->Ok_0[0], assembled(written(m, ops))->Ok_0[1])
            == meaning(m, ops, assembled(written(m, ops))->Ok_0[1]),
        ops matches Operands::RegValue(r, ValueView::Const(v)) ==> assembled(
            written(m, ops),
        )->Ok_0[0] == nibbles(m.opcode(), r) && assembled(written(m, ops))->Ok_0[1] == v,
        ops matches Operands::Regs3(a, b, c) ==> assembled(written(m, ops))->Ok_0[0] == nibbles(
            m.opcode(),
            a,
        ) && assembled(written(m, ops))->Ok_0[1] == nibbles(b, c),
{
    let text = written(m, ops);
    let n = text.len() as int;
    let start = ProgramView::empty();
    lemma_name(m);
    lemma_operands_text(ops);
    assert forall|i: int| 0 <= i < n implies text[i] != '\n' by {
        if i < m.name().len() {
            assert(text[i] == m.name()[i]);
        } else {
            assert(text[i] == operands_text(ops)[i - m.name().len()]);
        }
    }
    lemma_first_from_is(text, Class::Exactly('\n'), 0, n);
    assert(text.take(n) =~= text);
    lemma_line_written(start, m, ops, 1);
    let word = encoded(m, ops, 1);
    let p = start.stored(word)->Ok_0;
    assert(start.stored(word) is Ok);
    assert(after_lines(start, text, 1) == Ok::<ProgramView, AsmError>(p));
    assert forall|i: int| 0 <= i < 256 implies (#[trigger] p.slots[i]) is Const by {}
    lemma_image_of_bytes(p, 256);
    let image = assembled(text)->Ok_0;
    assert(image[0] == p.slots[0]->Const_0);
    assert(image[1] == p.slots[1]->Const_0);
    lemma_statement_decodes(m, ops, 1, image[1]);
}

} // verus!
