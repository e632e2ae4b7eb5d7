//! The program under assembly: 256 slots that hold a byte or a reference to
//! a label, the cursor that the next slot goes to, and the table of labels.

use crate::number::{parse_signed, parsed, signed_value, Parsed, Radix};
use crate::text::{after, before, find, first, Class};
use vstd::prelude::*;

verus! {

/// What is wrong with a program text.
#[derive(Clone, Copy, Debug, PartialEq, Eq, Structural)]
pub enum AsmErrorKind {
    /// The first word of a statement is no mnemonic.
    UnknownMnemonic,
    /// An operand is not `R` and one hexadecimal digit.
    BadRegister,
    /// An operand is neither a number nor a reference to a label.
    BadNumber,
    /// A number lies outside -256 to 256.
    ValueOutOfRange,
    /// No comma stands between two operands.
    MissingComma,
    /// Something follows the last operand.
    TrailingInput,
    /// The name of a label is empty or holds a character that no name may
    /// hold.
    BadLabel,
    /// The address behind `@` in a label is no number from 0 to 255.
    BadLabelAddress,
    /// The label is defined a second time.
    DuplicateLabel,
    /// The label stands where all 256 slots are used.
    LabelAtEnd,
    /// A statement needs a slot behind the last of the 256.
    Overflow,
    /// A reference names a label that the program does not define.
    UnknownLabel,
    /// What follows `+` or `-` in a reference is no number.
    BadOffset,
    /// A label's address and the offset give no address from 0 to 255.
    AddressOutOfRange,
}

/// An error in a program text, with the line it belongs to, counted from 1.
#[derive(Clone, Copy, Debug, PartialEq, Eq, Structural)]
pub struct AsmError {
    /// The line of the statement.
    pub line: usize,
    /// What is wrong.
    pub kind: AsmErrorKind,
}

/// One slot of the program.
#[derive(Debug)]
pub enum Slot {
    /// A byte.
    Const(u8),
    /// The address that a reference denotes, written on the given line.
    Ref(Vec<char>, usize),
}

/// The mathematical value of a [`Slot`].
pub enum SlotView {
    /// A byte.
    Const(u8),
    /// The address that a reference denotes, written on the given line.
    Ref(Seq<char>, usize),
}

impl View for Slot {
    type V = SlotView;

    open spec fn view(&self) -> SlotView {
        match self {
            Slot::Const(b) => SlotView::Const(*b),
            Slot::Ref(text, line) => SlotView::Ref(text@, *line),
        }
    }
}

/// The slots that one statement fills: one or two.
#[derive(Debug)]
pub struct Word {
    /// The first slot.
    pub first: Slot,
    /// The second slot, where there is one.
    pub second: Option<Slot>,
}

/// The mathematical value of a [`Word`].
pub struct WordView {
    /// The first slot.
    pub first: SlotView,
    /// The second slot, where there is one.
    pub second: Option<SlotView>,
}

impl View for Word {
    type V = WordView;

    open spec fn view(&self) -> WordView {
        WordView {
            first: self.first@,
            second: match self.second {
                Some(s) => Some(s@),
                None => None,
            },
        }
    }
}

/// A label with its address.
pub struct Label {
    name: Vec<char>,
    addr: u8,
}

/// The table that a sequence of definitions gives; a later definition of a
/// name replaces an earlier one.
pub closed spec fn table(labels: Seq<Label>) -> Map<Seq<char>, u8>
    decreases labels.len(),
{
    if labels.len() == 0 {
        Map::empty()
    } else {
        table(labels.drop_last()).insert(labels.last().name@, labels.last().addr)
    }
}

/// The mathematical value of a [`Program`].
pub struct ProgramView {
    /// The 256 slots.
    pub slots: Seq<SlotView>,
    /// The slot that the next statement starts at: 0 to 256.
    pub pos: int,
    /// The address of each label defined so far.
    pub labels: Map<Seq<char>, u8>,
}

impl ProgramView {
    /// The program before the first line: every slot the byte 0, the cursor
    /// at 0, no label.
    pub open spec fn empty() -> ProgramView {
        ProgramView {
            slots: Seq::new(256, |i: int| SlotView::Const(0)),
            pos: 0,
            labels: Map::empty(),
        }
    }

    /// 256 slots and a cursor from 0 to 256.
    pub open spec fn wf(self) -> bool {
        self.slots.len() == 256 && 0 <= self.pos <= 256
    }

    /// The program with the cursor at `addr`.
    pub open spec fn moved(self, addr: u8) -> ProgramView {
        ProgramView { pos: addr as int, ..self }
    }

    /// The program after `name` was defined as a label at the cursor. A
    /// name that is defined already is refused, and so is a label behind the
    /// last slot.
    pub open spec fn defined(self, name: Seq<char>) -> Result<ProgramView, AsmErrorKind> {
        if self.labels.contains_key(name) {
            Err(AsmErrorKind::DuplicateLabel)
        } else if self.pos == 256 {
            Err(AsmErrorKind::LabelAtEnd)
        } else {
            Ok(ProgramView { labels: self.labels.insert(name, self.pos as u8), ..self })
        }
    }

    /// The program after `slot` was stored at the cursor, which moves on by
    /// one. Behind the last slot nothing can be stored.
    pub open spec fn pushed(self, slot: SlotView) -> Result<ProgramView, AsmErrorKind> {
        if self.pos >= 256 {
            Err(AsmErrorKind::Overflow)
        } else {
            Ok(ProgramView { slots: self.slots.update(self.pos, slot), pos: self.pos + 1, ..self })
        }
    }

    /// The program after the slots of `word` were stored at the cursor.
    pub open spec fn stored(self, word: WordView) -> Result<ProgramView, AsmErrorKind> {
        match self.pushed(word.first) {
            Err(e) => Err(e),
            Ok(next) => match word.second {
                None => Ok(next),
                Some(slot) => next.pushed(slot),
            },
        }
    }

    /// The first `n` bytes of the image: each slot resolved, in the order of
    /// the addresses. The first slot that does not resolve gives the error.
    pub open spec fn image(self, n: int) -> Result<Seq<u8>, AsmError>
        decreases n,
    {
        if n <= 0 {
            Ok(Seq::empty())
        } else {
            match self.image(n - 1) {
                Err(e) => Err(e),
                Ok(bytes) => match resolved(self.slots[n - 1], self.labels) {
                    Err(e) => Err(e),
                    Ok(b) => Ok(bytes.push(b)),
                },
            }
        }
    }
}

/// Where the offset of a reference starts: at its first `+`, else at its
/// first `-`, else at its end.
pub open spec fn offset_start(text: Seq<char>) -> int {
    if first(text, Class::Exactly('+')) < text.len() {
        first(text, Class::Exactly('+'))
    } else {
        first(text, Class::Exactly('-'))
    }
}

/// The byte that `slot` stands for. A reference is the name of a label,
/// which a signed decimal offset may follow, and stands for the label's
/// address plus the offset.
pub open spec fn resolved(slot: SlotView, labels: Map<Seq<char>, u8>) -> Result<u8, AsmError> {
    match slot {
        SlotView::Const(b) => Ok(b),
        SlotView::Ref(text, line) => {
            let at = offset_start(text);
            let name = text.take(at);
            let offset = if at < text.len() {
                signed_value(text.skip(at), Radix::Decimal)
            } else {
                Some(0int)
            };
            match offset {
                None => Err(AsmError { line, kind: AsmErrorKind::BadOffset }),
                Some(o) => if !labels.contains_key(name) {
                    Err(AsmError { line, kind: AsmErrorKind::UnknownLabel })
                } else if 0 <= labels[name] + o <= 255 {
                    Ok((labels[name] + o) as u8)
                } else {
                    Err(AsmError { line, kind: AsmErrorKind::AddressOutOfRange })
                },
            }
        },
    }
}

/// Tests whether two texts are the same.
pub fn same_text(a: &[char], b: &[char]) -> (r: bool)
    ensures
        r == (a@ == b@),
{
    if a.len() != b.len() {
        return false;
    }
    let mut i: usize = 0;
    while i < a.len()
        invariant
            i <= a@.len(),
            a@.len() == b@.len(),
            forall|j: int| 0 <= j < i ==> a@[j] == b@[j],
        decreases a@.len() - i,
    {
        if a[i] != b[i] {
            return false;
        }
        i += 1;
    }
    assert(a@ =~= b@);
    true
}

/// Looks `name` up among the labels.
fn lookup(labels: &Vec<Label>, name: &[char]) -> (r: Option<u8>)
    ensures
        match r {
            Some(addr) => table(labels@).contains_key(name@) && table(labels@)[name@] == addr,
            None => !table(labels@).contains_key(name@),
        },
{
    let mut i: usize = labels.len();
    assert(labels@.take(i as int) =~= labels@);
    while i > 0
        invariant
            i <= labels@.len(),
            table(labels@).contains_key(name@) == table(labels@.take(i as int)).contains_key(name@),
            table(labels@).contains_key(name@) ==> table(labels@)[name@] == table(
                labels@.take(i as int),
            )[name@],
        decreases i,
    {
        assert(labels@.take(i as int).drop_last() =~= labels@.take(i - 1));
        if same_text(labels[i - 1].name.as_slice(), name) {
            return Some(labels[i - 1].addr);
        }
        i -= 1;
    }
    None
}

/// The program under assembly.
pub struct Program {
    slots: Vec<Slot>,
    pos: usize,
    labels: Vec<Label>,
}

impl View for Program {
    type V = ProgramView;

    closed spec fn view(&self) -> ProgramView {
        ProgramView {
            slots: Seq::new(self.slots@.len(), |i: int| self.slots@[i]@),
            pos: self.pos as int,
            labels: table(self.labels@),
        }
    }
}

impl Program {
    /// The program before the first line.
    pub fn new() -> (p: Program)
        ensures
            p@ == ProgramView::empty(),
            p@.wf(),
    {
        let mut slots: Vec<Slot> = Vec::new();
        let mut i: usize = 0;
        while i < 256
            invariant
                i <= 256,
                slots@.len() == i,
                forall|j: int| 0 <= j < i ==> slots@[j]@ == SlotView::Const(0),
            decreases 256 - i,
        {
            slots.push(Slot::Const(0));
            i += 1;
        }
        let p = Program { slots, pos: 0, labels: Vec::new() };
        assert(p@.slots =~= ProgramView::empty().slots);
        p
    }

    /// Moves the cursor to `addr`.
    pub fn move_to(&mut self, addr: u8)
        requires
            old(self)@.wf(),
        ensures
            final(self)@ == old(self)@.moved(addr),
            final(self)@.wf(),
    {
        self.pos = addr as usize;
    }

    /// Defines `name` as a label at the cursor.
    pub fn define(&mut self, name: &[char]) -> (r: Result<(), AsmErrorKind>)
        requires
            old(self)@.wf(),
        ensures
            match old(self)@.defined(name@) {
                Ok(p) => r is Ok && final(self)@ == p,
                Err(e) => r == Err::<(), AsmErrorKind>(e) && final(self)@ == old(self)@,
            },
            final(self)@.wf(),
    {
        if lookup(&self.labels, name).is_some() {
            return Err(AsmErrorKind::DuplicateLabel);
        }
        if self.pos == 256 {
            return Err(AsmErrorKind::LabelAtEnd);
        }
        let ghost before = self.labels@;
        self.labels.push(Label { name: crate::text::copy_of(name), addr: self.pos as u8 });
        assert(self.labels@.drop_last() =~= before);
        Ok(())
    }

    /// Stores `slot` at the cursor, which moves on by one.
    pub fn push(&mut self, slot: Slot) -> (r: Result<(), AsmErrorKind>)
        requires
            old(self)@.wf(),
        ensures
            match old(self)@.pushed(slot@) {
                Ok(p) => r is Ok && final(self)@ == p,
                Err(e) => r == Err::<(), AsmErrorKind>(e) && final(self)@ == old(self)@,
            },
            final(self)@.wf(),
    {
        if self.pos >= 256 {
            return Err(AsmErrorKind::Overflow);
        }
        self.slots[self.pos] = slot;
        self.pos += 1;
        assert(self@.slots =~= old(self)@.slots.update(old(self)@.pos, slot@));
        Ok(())
    }

    /// Stores the slots of `word` at the cursor.
    pub fn store(&mut self, word: Word) -> (r: Result<(), AsmErrorKind>)
        requires
            old(self)@.wf(),
        ensures
            match old(self)@.stored(word@) {
                Ok(p) => r is Ok && final(self)@ == p,
                Err(e) => r == Err::<(), AsmErrorKind>(e),
            },
            final(self)@.wf(),
    {
        let Word { first, second } = word;
        match self.push(first) {
            Err(e) => Err(e),
            Ok(()) => match second {
                None => Ok(()),
                Some(slot) => self.push(slot),
            },
        }
    }

    /// Resolves every slot and gives the image of 256 bytes.
    pub fn resolve(&self) -> (r: Result<Vec<u8>, AsmError>)
        requires
            self@.wf(),
        ensures
            match self@.image(256) {
                Ok(bytes) => r is Ok && r->Ok_0@ == bytes,
                Err(e) => r == Err::<Vec<u8>, AsmError>(e),
            },
            r is Ok ==> r->Ok_0@.len() == 256,
    {
        let mut bytes: Vec<u8> = Vec::new();
        let mut i: usize = 0;
        while i < 256
            invariant
                i <= 256,
                self@.wf(),
                self.slots@.len() == 256,
                bytes@.len() == i,
                self@.image(i as int) == Ok::<Seq<u8>, AsmError>(bytes@),
            decreases 256 - i,
        {
            assert(self@.slots[i as int] == self.slots@[i as int]@);
            match resolve_slot(&self.slots[i], &self.labels) {
                Err(e) => {
                    proof {
                        lemma_image_fails(self@, i as int + 1, 256);
                    }
                    return Err(e);
                },
                Ok(b) => {
                    bytes.push(b);
                },
            }
            i += 1;
        }
        Ok(bytes)
    }
}

/// An image that fails at some length fails in the same way at every greater
/// length.
pub proof fn lemma_image_fails(p: ProgramView, n: int, m: int)
    requires
        0 <= n <= m,
        p.image(n) is Err,
    ensures
        p.image(m) == p.image(n),
    decreases m - n,
{
    if n < m {
        lemma_image_fails(p, n, m - 1);
    }
}

/// Resolves one slot.
fn resolve_slot(slot: &Slot, labels: &Vec<Label>) -> (r: Result<u8, AsmError>)
    ensures
        r == resolved(slot@, table(labels@)),
{
    match slot {
        Slot::Const(b) => Ok(*b),
        Slot::Ref(text, line) => {
            let text = text.as_slice();
            let plus = find(text, Class::Exactly('+'));
            let at = if plus < text.len() {
                plus
            } else {
                find(text, Class::Exactly('-'))
            };
            let offset = if at < text.len() {
                parse_signed(after(text, at), Radix::Decimal, 255)
            } else {
                Parsed::Value(0)
            };
            if let Parsed::Malformed = offset {
                return Err(AsmError { line: *line, kind: AsmErrorKind::BadOffset });
            }
            let addr = match lookup(labels, before(text, at)) {
                Some(addr) => addr,
                None => {
                    return Err(AsmError { line: *line, kind: AsmErrorKind::UnknownLabel });
                },
            };
            match offset {
                Parsed::Value(o) => {
                    let sum: i32 = addr as i32 + o;
                    if 0 <= sum && sum <= 255 {
                        Ok(sum as u8)
                    } else {
                        Err(AsmError { line: *line, kind: AsmErrorKind::AddressOutOfRange })
                    }
                },
                _ => Err(AsmError { line: *line, kind: AsmErrorKind::AddressOutOfRange }),
            }
        },
    }
}

/// A reference without an offset stands for the address of its label,
/// wherever in the text the label is defined.
pub proof fn lemma_plain_reference(name: Seq<char>, line: usize, labels: Map<Seq<char>, u8>)
    requires
        forall|i: int| 0 <= i < name.len() ==> name[i] != '+' && name[i] != '-',
        labels.contains_key(name),
    ensures
        resolved(SlotView::Ref(name, line), labels) == Ok::<u8, AsmError>(labels[name]),
{
    crate::text::lemma_first_from_is(name, Class::Exactly('+'), 0, name.len() as int);
    crate::text::lemma_first_from_is(name, Class::Exactly('-'), 0, name.len() as int);
    assert(name.take(name.len() as int) =~= name);
}

/// A reference with an offset stands for the address of its label plus the
/// offset: `name+digits` for the address that lies `digits` behind the
/// label, where that is an address.
pub proof fn lemma_offset_reference(
    name: Seq<char>,
    digits: Seq<char>,
    line: usize,
    labels: Map<Seq<char>, u8>,
)
    requires
        forall|i: int| 0 <= i < name.len() ==> name[i] != '+',
        crate::number::is_digits(digits, Radix::Decimal),
        labels.contains_key(name),
        labels[name] + crate::number::digits_value(digits, Radix::Decimal) <= 255,
    ensures
        resolved(SlotView::Ref(name + seq!['+'] + digits, line), labels) == Ok::<u8, AsmError>(
            (labels[name] + crate::number::digits_value(digits, Radix::Decimal)) as u8,
        ),
{
    let text = name + seq!['+'] + digits;
    let at = name.len() as int;
    assert(text[at] == '+');
    assert forall|i: int| 0 <= i < at implies !Class::Exactly('+').holds(#[trigger] text[i]) by {
        assert(text[i] == name[i]);
    }
    crate::text::lemma_first_from_is(text, Class::Exactly('+'), 0, at);
    assert(text.take(at) =~= name);
    assert(text.skip(at).skip(1) =~= digits);
    crate::number::lemma_digits_value_grows(digits, Radix::Decimal);
}

/// A reference to a label that the program does not define fails the
/// assembly, and so does every slot that does not resolve.
pub proof fn lemma_unresolved_slot_fails(p: ProgramView, i: int)
    requires
        0 <= i < 256,
        resolved(p.slots[i], p.labels) is Err,
    ensures
        p.image(256) is Err,
{
    lemma_image_fails(p, i + 1, 256);
}

} // verus!
