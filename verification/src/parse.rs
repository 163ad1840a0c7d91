//! The surface language: a program is a run of statements with optional
//! whitespace between them; a statement is an instruction, written as its
//! lowercase name and its operands, or a label, written as letters and a
//! colon.
//!
//! The grammar is read greedily and without looking back: a run of digits,
//! letters or whitespace always extends as far as it can, and of several
//! alternatives the first that fits is taken.

use vstd::prelude::*;
use vstd::string::StringSliceAdditionalSpecFns;
use crate::bytecode::{Condition, GpRegister, Int, Opcode, Shape, Value};
use crate::ir::{InterRep, InterRepValue, InterRepView, IrInstruction, IrInstructionView, SymbolicValue};
use crate::text::{push_char, text_of};

verus! {

/// A class of bytes of which the grammar reads runs.
#[derive(Debug, Clone, Copy, PartialEq, Eq, Structural)]
pub enum ByteClass {
    /// Blank, tab, carriage return, line feed.
    Space,
    /// `0` to `9`.
    Digit,
    /// `a` to `z` and `A` to `Z`.
    Letter,
}

impl ByteClass {
    pub open spec fn spec_contains(&self, b: u8) -> bool {
        match self {
            ByteClass::Space => b == ' ' as u8 || b == '\t' as u8 || b == '\r' as u8 || b
                == '\n' as u8,
            ByteClass::Digit => '0' as u8 <= b <= '9' as u8,
            ByteClass::Letter => 'a' as u8 <= b <= 'z' as u8 || 'A' as u8 <= b <= 'Z' as u8,
        }
    }

    #[verifier::when_used_as_spec(spec_contains)]
    pub fn contains(&self, b: u8) -> (r: bool)
        ensures
            r == self.spec_contains(b),
    {
        match self {
            ByteClass::Space => b == ' ' as u8 || b == '\t' as u8 || b == '\r' as u8 || b
                == '\n' as u8,
            ByteClass::Digit => '0' as u8 <= b && b <= '9' as u8,
            ByteClass::Letter => ('a' as u8 <= b && b <= 'z' as u8) || ('A' as u8 <= b && b
                <= 'Z' as u8),
        }
    }
}

/// Where the run of bytes of `class` that starts at `at` ends: the first
/// position from `at` on that holds no byte of the class.
pub open spec fn run_end(s: Seq<u8>, at: int, class: ByteClass) -> int
    decreases s.len() - at,
{
    if 0 <= at < s.len() && class.contains(s[at]) {
        run_end(s, at + 1, class)
    } else {
        at
    }
}

/// A run ends at or after its start and inside the text; it holds bytes
/// of its class only, and the byte after it is none.
pub proof fn lemma_run_end(s: Seq<u8>, at: int, class: ByteClass)
    requires
        0 <= at <= s.len(),
    ensures
        at <= run_end(s, at, class) <= s.len(),
        forall|i: int| at <= i < run_end(s, at, class) ==> class.contains(#[trigger] s[i]),
        run_end(s, at, class) < s.len() ==> !class.contains(s[run_end(s, at, class)]),
    decreases s.len() - at,
{
    if at < s.len() && class.contains(s[at]) {
        lemma_run_end(s, at + 1, class);
    }
}

/// Whether the bytes of `word` stand in `s` from position `at` on.
pub open spec fn word_at(s: Seq<u8>, at: int, word: &str) -> bool {
    &&& 0 <= at
    &&& at + word.spec_bytes().len() <= s.len()
    &&& s.subrange(at, at + word.spec_bytes().len()) == word.spec_bytes()
}

/// The number that a run of digits writes in base ten.
pub open spec fn decimal(digits: Seq<u8>) -> nat
    decreases digits.len(),
{
    if digits.len() == 0 {
        0
    } else {
        decimal(digits.drop_last()) * 10 + (digits.last() - '0' as u8) as nat
    }
}

/// The register whose name stands at `at`, and where the name ends: `r`
/// and a digit up to six, or `sp`.
pub open spec fn gp_reg_at(s: Seq<u8>, at: int) -> Option<(GpRegister, int)> {
    if 0 <= at && at + 2 <= s.len() && s[at] == 'r' as u8 && '0' as u8 <= s[at + 1] <= '6' as u8 {
        Some((GpRegister::at_idx(s[at + 1] - '0' as u8), at + 2))
    } else if 0 <= at && at + 2 <= s.len() && s[at] == 's' as u8 && s[at + 1] == 'p' as u8 {
        Some((GpRegister::SP, at + 2))
    } else {
        None
    }
}

/// The number written at `at`, and where it ends: an optional `-`, then a
/// run of at least one digit. There is none where the number written is
/// not a machine word.
pub open spec fn number_at(s: Seq<u8>, at: int) -> Option<(Int, int)> {
    let negative = 0 <= at < s.len() && s[at] == '-' as u8;
    let first = if negative {
        at + 1
    } else {
        at
    };
    let end = run_end(s, first, ByteClass::Digit);
    let magnitude = decimal(s.subrange(first, end));
    let n = if negative {
        -magnitude
    } else {
        magnitude as int
    };
    if first < end && Int::MIN <= n <= Int::MAX {
        Some((n as Int, end))
    } else {
        None
    }
}

/// The name written at `at`, and where it ends: a run of at least one
/// letter.
pub open spec fn label_at(s: Seq<u8>, at: int) -> Option<(Seq<char>, int)> {
    let end = run_end(s, at, ByteClass::Letter);
    if at < end {
        Some((text_of(s.subrange(at, end)), end))
    } else {
        None
    }
}

/// The value operand written at `at`, and where it ends: a register, a
/// number, `#` and the name of a label, or `.` for the instruction's own
/// address.
pub open spec fn value_at(s: Seq<u8>, at: int) -> Option<(SymbolicValue, int)> {
    if let Some((r, end)) = gp_reg_at(s, at) {
        Some((SymbolicValue::Concrete(Value::Reg(r)), end))
    } else if let Some((n, end)) = number_at(s, at) {
        Some((SymbolicValue::Concrete(Value::Imm(n)), end))
    } else if 0 <= at < s.len() && s[at] == '#' as u8 {
        match label_at(s, at + 1) {
            Some((name, end)) => Some((SymbolicValue::Label(name), end)),
            None => None,
        }
    } else if 0 <= at < s.len() && s[at] == '.' as u8 {
        Some((SymbolicValue::Here, at + 1))
    } else {
        None
    }
}

/// The condition written at `at`, and where it ends: `<=`, `>=` or `==`,
/// or else `<` or `>`.
pub open spec fn cond_at(s: Seq<u8>, at: int) -> Option<(Condition, int)> {
    if at < 0 || at >= s.len() {
        None
    } else if at + 2 <= s.len() && s[at + 1] == '=' as u8 && s[at] == '<' as u8 {
        Some((Condition::LE, at + 2))
    } else if at + 2 <= s.len() && s[at + 1] == '=' as u8 && s[at] == '>' as u8 {
        Some((Condition::GE, at + 2))
    } else if at + 2 <= s.len() && s[at + 1] == '=' as u8 && s[at] == '=' as u8 {
        Some((Condition::E, at + 2))
    } else if s[at] == '<' as u8 {
        Some((Condition::L, at + 1))
    } else if s[at] == '>' as u8 {
        Some((Condition::G, at + 1))
    } else {
        None
    }
}

impl Opcode {
    /// The word that names the instruction in the surface language.
    pub open spec fn spec_word(&self) -> &'static str {
        match self {
            Opcode::Mov => "mov",
            Opcode::Add => "add",
            Opcode::Sub => "sub",
            Opcode::Mul => "mul",
            Opcode::Div => "div",
            Opcode::And => "and",
            Opcode::Or => "or",
            Opcode::Xor => "xor",
            Opcode::Not => "not",
            Opcode::Load => "load",
            Opcode::Store => "store",
            Opcode::Jmp => "jmp",
            Opcode::Push => "push",
            Opcode::Pop => "pop",
            Opcode::Cond => "cond",
            Opcode::Emit => "emit",
        }
    }

    #[verifier::when_used_as_spec(spec_word)]
    pub fn word(&self) -> (w: &'static str)
        ensures
            w == self.spec_word(),
    {
        match self {
            Opcode::Mov => "mov",
            Opcode::Add => "add",
            Opcode::Sub => "sub",
            Opcode::Mul => "mul",
            Opcode::Div => "div",
            Opcode::And => "and",
            Opcode::Or => "or",
            Opcode::Xor => "xor",
            Opcode::Not => "not",
            Opcode::Load => "load",
            Opcode::Store => "store",
            Opcode::Jmp => "jmp",
            Opcode::Push => "push",
            Opcode::Pop => "pop",
            Opcode::Cond => "cond",
            Opcode::Emit => "emit",
        }
    }
}

/// The names of the instructions, in the order in which they are tried.
pub open spec fn opcodes() -> Seq<Opcode> {
    seq![
        Opcode::Mov, Opcode::Add, Opcode::Sub, Opcode::Mul, Opcode::Div, Opcode::And, Opcode::Or, Opcode::Xor, Opcode::Not, Opcode::Load, Opcode::Store, Opcode::Jmp, Opcode::Push, Opcode::Pop, Opcode::Cond, Opcode::Emit,
    ]
}

/// The first name from position `k` of `opcodes` on whose word stands at
/// `at`, and where the word ends.
pub open spec fn mnemonic_from(s: Seq<u8>, at: int, k: int) -> Option<(Opcode, int)>
    decreases opcodes().len() - k,
{
    if k < 0 || k >= opcodes().len() {
        None
    } else if word_at(s, at, opcodes()[k].word()) {
        Some((opcodes()[k], at + opcodes()[k].word().spec_bytes().len()))
    } else {
        mnemonic_from(s, at, k + 1)
    }
}

/// The instruction name written at `at`, and where it ends.
pub open spec fn mnemonic_at(s: Seq<u8>, at: int) -> Option<(Opcode, int)> {
    mnemonic_from(s, at, 0)
}

/// Where the next token starts: the end of the whitespace at `at`, of
/// which there may be none.
pub open spec fn after_space(s: Seq<u8>, at: int) -> int {
    run_end(s, at, ByteClass::Space)
}

/// The instruction written at `at`, and where it ends: its name, then its
/// operands in the order of its shape, with optional whitespace before
/// each.
pub open spec fn instruction_at(s: Seq<u8>, at: int) -> Option<(IrInstructionView, int)> {
    match mnemonic_at(s, at) {
        None => None,
        Some((opcode, named)) => {
            let start = after_space(s, named);
            match opcode.shape() {
                Shape::RegValue => match gp_reg_at(s, start) {
                    None => None,
                    Some((r, p)) => match value_at(s, after_space(s, p)) {
                        None => None,
                        Some((v, end)) => Some(
                            (
                                IrInstructionView {
                                    opcode,
                                    register: Some(r),
                                    condition: None,
                                    operands: seq![v],
                                },
                                end,
                            ),
                        ),
                    },
                },
                Shape::Reg => match gp_reg_at(s, start) {
                    None => None,
                    Some((r, end)) => Some(
                        (
                            IrInstructionView {
                                opcode,
                                register: Some(r),
                                condition: None,
                                operands: seq![],
                            },
                            end,
                        ),
                    ),
                },
                Shape::ValueValue => match value_at(s, start) {
                    None => None,
                    Some((v, p)) => match value_at(s, after_space(s, p)) {
                        None => None,
                        Some((w, end)) => Some(
                            (
                                IrInstructionView {
                                    opcode,
                                    register: None,
                                    condition: None,
                                    operands: seq![v, w],
                                },
                                end,
                            ),
                        ),
                    },
                },
                Shape::Value => match value_at(s, start) {
                    None => None,
                    Some((v, end)) => Some(
                        (
                            IrInstructionView {
                                opcode,
                                register: None,
                                condition: None,
                                operands: seq![v],
                            },
                            end,
                        ),
                    ),
                },
                Shape::RegCondValue => match gp_reg_at(s, start) {
                    None => None,
                    Some((r, p)) => match cond_at(s, after_space(s, p)) {
                        None => None,
                        Some((c, q)) => match value_at(s, after_space(s, q)) {
                            None => None,
                            Some((v, end)) => Some(
                                (
                                    IrInstructionView {
                                        opcode,
                                        register: Some(r),
                                        condition: Some(c),
                                        operands: seq![v],
                                    },
                                    end,
                                ),
                            ),
                        },
                    },
                },
            }
        },
    }
}

/// The statement written at `at`, and where it ends: an instruction, or
/// else a name with a colon right after it.
pub open spec fn statement_at(s: Seq<u8>, at: int) -> Option<(InterRepView, int)> {
    match instruction_at(s, at) {
        Some((i, end)) => Some((InterRepView::Instruction(i), end)),
        None => match label_at(s, at) {
            Some((name, end)) => if end < s.len() && s[end] == ':' as u8 {
                Some((InterRepView::Label(name), end + 1))
            } else {
                None
            },
            None => None,
        },
    }
}

/// A statement takes at least one byte and ends inside the text.
pub proof fn lemma_statement_extent(s: Seq<u8>, at: int)
    requires
        0 <= at <= s.len(),
    ensures
        statement_at(s, at) matches Some((_, end)) ==> at < end <= s.len(),
{
    lemma_mnemonic_extent(s, at, 0);
    lemma_run_end(s, at, ByteClass::Letter);
    if let Some((opcode, named)) = mnemonic_at(s, at) {
        let start = after_space(s, named);
        lemma_run_end(s, named, ByteClass::Space);
        lemma_value_extent(s, start);
        if let Some((_, p)) = gp_reg_at(s, start) {
            let q = after_space(s, p);
            lemma_run_end(s, p, ByteClass::Space);
            lemma_value_extent(s, q);
            if let Some((_, c)) = cond_at(s, q) {
                lemma_run_end(s, c, ByteClass::Space);
                lemma_value_extent(s, after_space(s, c));
            }
        }
        if let Some((_, p)) = value_at(s, start) {
            lemma_run_end(s, p, ByteClass::Space);
            lemma_value_extent(s, after_space(s, p));
        }
    }
}

/// A value operand takes at least one byte and ends inside the text.
pub proof fn lemma_value_extent(s: Seq<u8>, at: int)
    requires
        0 <= at <= s.len(),
    ensures
        value_at(s, at) matches Some((_, end)) ==> at < end <= s.len(),
{
    if at < s.len() {
        lemma_run_end(s, at, ByteClass::Digit);
        lemma_run_end(s, at + 1, ByteClass::Digit);
        lemma_run_end(s, at + 1, ByteClass::Letter);
    } else {
        lemma_run_end(s, at, ByteClass::Digit);
    }
}

/// The name of an instruction ends at or after its start and inside the
/// text.
pub proof fn lemma_mnemonic_extent(s: Seq<u8>, at: int, k: int)
    requires
        0 <= at <= s.len(),
    ensures
        mnemonic_from(s, at, k) matches Some((_, end)) ==> at <= end <= s.len(),
    decreases opcodes().len() - k,
{
    if 0 <= k < opcodes().len() && !word_at(s, at, opcodes()[k].word()) {
        lemma_mnemonic_extent(s, at, k + 1);
    }
}

/// The statements written from `at` on, each followed by optional
/// whitespace, and where they stop: the first position at which no
/// statement stands.
pub open spec fn statements_from(s: Seq<u8>, at: int) -> (Seq<InterRepView>, int)
    decreases s.len() - at,
{
    if 0 <= at <= s.len() {
        match statement_at(s, at) {
            None => (Seq::empty(), at),
            Some((statement, end)) => {
                proof {
                    lemma_statement_extent(s, at);
                    lemma_run_end(s, end, ByteClass::Space);
                }
                let (rest, stop) = statements_from(s, after_space(s, end));
                (seq![statement] + rest, stop)
            },
        }
    } else {
        (Seq::empty(), at)
    }
}

/// What a text says: its statements where they fill it from its first
/// byte that is no whitespace to its end, and otherwise the position at
/// which they stop.
pub open spec fn parsed(s: Seq<u8>) -> Result<Seq<InterRepView>, int> {
    let (statements, stop) = statements_from(s, after_space(s, 0));
    if stop == s.len() {
        Ok(statements)
    } else {
        Err(stop)
    }
}

/// The text is not a program: at `position` there is neither a statement
/// nor the end of the text.
#[derive(Debug, Clone, Copy, PartialEq, Eq, Structural)]
pub struct ParseError {
    pub position: usize,
}

/// Where the run of bytes of `class` that starts at `at` ends.
pub fn scan(buf: &[u8], at: usize, class: ByteClass) -> (end: usize)
    requires
        at <= buf@.len(),
    ensures
        end == run_end(buf@, at as int, class),
        at <= end <= buf@.len(),
{
    let mut i = at;
    while i < buf.len() && class.contains(buf[i])
        invariant
            at <= i <= buf@.len(),
            run_end(buf@, at as int, class) == run_end(buf@, i as int, class),
        decreases buf@.len() - i,
    {
        i += 1;
    }
    i
}

/// Where the whitespace at `at` ends.
pub fn space(buf: &[u8], at: usize) -> (end: usize)
    requires
        at <= buf@.len(),
    ensures
        end == after_space(buf@, at as int),
        at <= end <= buf@.len(),
{
    scan(buf, at, ByteClass::Space)
}

/// Whether the bytes of `word` stand in `buf` from position `at` on.
pub fn starts_with(buf: &[u8], at: usize, word: &str) -> (b: bool)
    requires
        at <= buf@.len(),
    ensures
        b == word_at(buf@, at as int, word),
{
    let w = word.as_bytes();
    let n = w.len();
    if n > buf.len() - at {
        return false;
    }
    let mut k: usize = 0;
    while k < n
        invariant
            k <= n,
            n == w@.len(),
            w@ == word.spec_bytes(),
            at + n <= buf@.len(),
            buf@.len() <= usize::MAX,
            forall|j: int| 0 <= j < k ==> buf@[at + j] == w@[j],
        decreases n - k,
    {
        if buf[at + k] != w[k] {
            assert(buf@.subrange(at as int, at + n)[k as int] != w@[k as int]);
            return false;
        }
        k += 1;
    }
    assert(buf@.subrange(at as int, at + n) =~= w@);
    true
}

/// The register whose name stands at `at`, and where the name ends.
pub fn gp_reg(buf: &[u8], at: usize) -> (r: Option<(GpRegister, usize)>)
    requires
        at <= buf@.len(),
    ensures
        match gp_reg_at(buf@, at as int) {
            Some((g, end)) => r matches Some((found, e)) && found == g && e == end && at < end
                <= buf@.len(),
            None => r is None,
        },
{
    if buf.len() - at < 2 {
        return None;
    }
    let a = buf[at];
    let b = buf[at + 1];
    if a == 'r' as u8 && '0' as u8 <= b && b <= '6' as u8 {
        match GpRegister::from_index(b - '0' as u8) {
            Some(g) => Some((g, at + 2)),
            None => None,
        }
    } else if a == 's' as u8 && b == 'p' as u8 {
        Some((GpRegister::SP, at + 2))
    } else {
        None
    }
}

/// Ten times a number and a digit more is no less than the number.
proof fn lemma_decimal_step(s: Seq<u8>, first: int, i: int)
    requires
        0 <= first <= i < s.len(),
        ByteClass::Digit.contains(s[i]),
    ensures
        decimal(s.subrange(first, i + 1)) == decimal(s.subrange(first, i)) * 10 + (s[i]
            - '0' as u8),
        decimal(s.subrange(first, i + 1)) >= decimal(s.subrange(first, i)),
{
    assert(s.subrange(first, i + 1).drop_last() =~= s.subrange(first, i));
}

/// The number written at `at`, and where it ends.
pub fn number(buf: &[u8], at: usize) -> (r: Option<(Int, usize)>)
    requires
        at <= buf@.len(),
    ensures
        match number_at(buf@, at as int) {
            Some((n, end)) => r matches Some((found, e)) && found == n && e == end && at < end
                <= buf@.len(),
            None => r is None,
        },
{
    let negative = at < buf.len() && buf[at] == '-' as u8;
    let first = if negative {
        at + 1
    } else {
        at
    };
    let mut i = first;
    let mut magnitude: i32 = 0;
    let mut fits = true;
    assert(buf@.subrange(first as int, first as int) =~= Seq::<u8>::empty());
    while i < buf.len() && ByteClass::Digit.contains(buf[i])
        invariant
            first <= i <= buf@.len(),
            run_end(buf@, first as int, ByteClass::Digit) == run_end(
                buf@,
                i as int,
                ByteClass::Digit,
            ),
            fits ==> magnitude == decimal(buf@.subrange(first as int, i as int)) && magnitude
                <= 32768,
            !fits ==> decimal(buf@.subrange(first as int, i as int)) > 32768,
        decreases buf@.len() - i,
    {
        proof {
            lemma_decimal_step(buf@, first as int, i as int);
        }
        if fits {
            magnitude = magnitude * 10 + (buf[i] - '0' as u8) as i32;
            if magnitude > 32768 {
                fits = false;
            }
        }
        i += 1;
    }
    if i == first || !fits {
        return None;
    }
    let n: i32 = if negative {
        -magnitude
    } else {
        magnitude
    };
    if n > 32767 {
        None
    } else {
        Some((n as Int, i))
    }
}

/// The name written at `at`, and where it ends.
pub fn label(buf: &[u8], at: usize) -> (r: Option<(String, usize)>)
    requires
        at <= buf@.len(),
    ensures
        match label_at(buf@, at as int) {
            Some((name, end)) => r matches Some((text, e)) && text@ == name && e == end && at
                < end <= buf@.len(),
            None => r is None,
        },
{
    let end = scan(buf, at, ByteClass::Letter);
    if end == at {
        return None;
    }
    let mut name = String::new();
    let mut i = at;
    while i < end
        invariant
            at <= i <= end <= buf@.len(),
            name@ == text_of(buf@.subrange(at as int, i as int)),
        decreases end - i,
    {
        push_char(&mut name, buf[i] as char);
        i += 1;
        assert(name@ =~= text_of(buf@.subrange(at as int, i as int)));
    }
    Some((name, end))
}

/// The value operand written at `at`, and where it ends.
pub fn value(buf: &[u8], at: usize) -> (r: Option<(InterRepValue, usize)>)
    requires
        at <= buf@.len(),
    ensures
        match value_at(buf@, at as int) {
            Some((v, end)) => r matches Some((found, e)) && found@ == v && e == end && at < end
                <= buf@.len(),
            None => r is None,
        },
{
    proof {
        lemma_value_extent(buf@, at as int);
    }
    if let Some((g, end)) = gp_reg(buf, at) {
        return Some((InterRepValue::ByteCodeValue(Value::Reg(g)), end));
    }
    if let Some((n, end)) = number(buf, at) {
        return Some((InterRepValue::ByteCodeValue(Value::Imm(n)), end));
    }
    if at < buf.len() && buf[at] == '#' as u8 {
        return match label(buf, at + 1) {
            Some((name, end)) => Some((InterRepValue::LabelRef(name), end)),
            None => None,
        };
    }
    if at < buf.len() && buf[at] == '.' as u8 {
        return Some((InterRepValue::Here, at + 1));
    }
    None
}

/// The condition written at `at`, and where it ends.
pub fn cond(buf: &[u8], at: usize) -> (r: Option<(Condition, usize)>)
    requires
        at <= buf@.len(),
    ensures
        match cond_at(buf@, at as int) {
            Some((c, end)) => r matches Some((found, e)) && found == c && e == end && at < end
                <= buf@.len(),
            None => r is None,
        },
{
    if at >= buf.len() {
        return None;
    }
    let a = buf[at];
    if buf.len() - at >= 2 && buf[at + 1] == '=' as u8 {
        if a == '<' as u8 {
            return Some((Condition::LE, at + 2));
        }
        if a == '>' as u8 {
            return Some((Condition::GE, at + 2));
        }
        if a == '=' as u8 {
            return Some((Condition::E, at + 2));
        }
    }
    if a == '<' as u8 {
        Some((Condition::L, at + 1))
    } else if a == '>' as u8 {
        Some((Condition::G, at + 1))
    } else {
        None
    }
}

/// The instruction name written at `at`, and where it ends.
pub fn mnemonic(buf: &[u8], at: usize) -> (r: Option<(Opcode, usize)>)
    requires
        at <= buf@.len(),
    ensures
        match mnemonic_at(buf@, at as int) {
            Some((op, end)) => r matches Some((found, e)) && found == op && e == end && at
                <= end <= buf@.len(),
            None => r is None,
        },
{
    let table = [
            Opcode::Mov,
            Opcode::Add,
            Opcode::Sub,
            Opcode::Mul,
            Opcode::Div,
            Opcode::And,
            Opcode::Or,
            Opcode::Xor,
            Opcode::Not,
            Opcode::Load,
            Opcode::Store,
            Opcode::Jmp,
            Opcode::Push,
            Opcode::Pop,
            Opcode::Cond,
            Opcode::Emit,
    ];
    assert(table@ =~= opcodes());
    let mut k: usize = 0;
    while k < 16
        invariant
            k <= 16,
            at <= buf@.len(),
            table@ == opcodes(),
            mnemonic_at(buf@, at as int) == mnemonic_from(buf@, at as int, k as int),
        decreases 16 - k,
    {
        let word = table[k].word();
        if starts_with(buf, at, word) {
            proof {
                vstd::slice::axiom_spec_len(buf);
            }
            return Some((table[k], at + word.len()));
        }
        k += 1;
    }
    None
}

/// The instruction written at `at`, and where it ends.
pub fn instruction(buf: &[u8], at: usize) -> (r: Option<(IrInstruction, usize)>)
    requires
        at <= buf@.len(),
    ensures
        match instruction_at(buf@, at as int) {
            Some((i, end)) => r matches Some((found, e)) && found@ == i && e == end && at < end
                <= buf@.len(),
            None => r is None,
        },
{
    let (opcode, named) = match mnemonic(buf, at) {
        Some(found) => found,
        None => {
            return None;
        },
    };
    let start = space(buf, named);
    let mut register: Option<GpRegister> = None;
    let mut condition: Option<Condition> = None;
    let mut second: Option<InterRepValue> = None;
    let first: Option<InterRepValue>;
    let end: usize;
    match opcode.shape() {
        Shape::RegValue => {
            let (r, p) = match gp_reg(buf, start) {
                Some(found) => found,
                None => {
                    return None;
                },
            };
            let (v, q) = match value(buf, space(buf, p)) {
                Some(found) => found,
                None => {
                    return None;
                },
            };
            register = Some(r);
            first = Some(v);
            end = q;
        },
        Shape::Reg => {
            let (r, p) = match gp_reg(buf, start) {
                Some(found) => found,
                None => {
                    return None;
                },
            };
            register = Some(r);
            first = None;
            end = p;
        },
        Shape::ValueValue => {
            let (v, p) = match value(buf, start) {
                Some(found) => found,
                None => {
                    return None;
                },
            };
            let (w, q) = match value(buf, space(buf, p)) {
                Some(found) => found,
                None => {
                    return None;
                },
            };
            first = Some(v);
            second = Some(w);
            end = q;
        },
        Shape::Value => {
            let (v, p) = match value(buf, start) {
                Some(found) => found,
                None => {
                    return None;
                },
            };
            first = Some(v);
            end = p;
        },
        Shape::RegCondValue => {
            let (r, p) = match gp_reg(buf, start) {
                Some(found) => found,
                None => {
                    return None;
                },
            };
            let (c, q) = match cond(buf, space(buf, p)) {
                Some(found) => found,
                None => {
                    return None;
                },
            };
            let (v, e) = match value(buf, space(buf, q)) {
                Some(found) => found,
                None => {
                    return None;
                },
            };
            register = Some(r);
            condition = Some(c);
            first = Some(v);
            end = e;
        },
    }
    match IrInstruction::build(opcode, register, condition, first, second) {
        Some(i) => Some((i, end)),
        None => None,
    }
}

/// The statement written at `at`, and where it ends.
pub fn statement(buf: &[u8], at: usize) -> (r: Option<(InterRep, usize)>)
    requires
        at <= buf@.len(),
    ensures
        match statement_at(buf@, at as int) {
            Some((st, end)) => r matches Some((found, e)) && found@ == st && e == end && at
                < end <= buf@.len(),
            None => r is None,
        },
{
    proof {
        lemma_statement_extent(buf@, at as int);
    }
    if let Some((i, end)) = instruction(buf, at) {
        return Some((InterRep::Instruction(i), end));
    }
    match label(buf, at) {
        Some((name, end)) => if end < buf.len() && buf[end] == ':' as u8 {
            Some((InterRep::Label(name), end + 1))
        } else {
            None
        },
        None => None,
    }
}

/// The views of the elements of a program.
pub open spec fn views(program: Seq<InterRep>) -> Seq<InterRepView> {
    program.map_values(|e: InterRep| e@)
}

/// Reads a whole text as a program.
pub fn program(buf: &[u8]) -> (r: Result<Vec<InterRep>, ParseError>)
    ensures
        match parsed(buf@) {
            Ok(statements) => r matches Ok(v) && views(v@) == statements,
            Err(stop) => r matches Err(e) && e.position == stop && 0 <= stop < buf@.len(),
        },
{
    let mut out: Vec<InterRep> = Vec::new();
    let start = space(buf, 0);
    let mut at = start;
    loop
        invariant
            at <= buf@.len(),
            start == after_space(buf@, 0),
            statements_from(buf@, start as int) == (
                views(out@) + statements_from(buf@, at as int).0,
                statements_from(buf@, at as int).1,
            ),
        decreases buf@.len() - at,
    {
        match statement(buf, at) {
            Some((st, end)) => {
                let ghost before = views(out@);
                out.push(st);
                at = space(buf, end);
                proof {
                    assert(views(out@) =~= before + seq![st@]);
                    let rest = statements_from(buf@, at as int).0;
                    assert(before + (seq![st@] + rest) =~= (before + seq![st@]) + rest);
                }
            },
            None => {
                assert(views(out@) + Seq::<InterRepView>::empty() =~= views(out@));
                return if at == buf.len() {
                    Ok(out)
                } else {
                    Err(ParseError { position: at })
                };
            },
        }
    }
}

/// Reads a text of the surface language as a program in intermediate
/// form. Where the text is no program, says at which byte the statements
/// stop.
pub fn parse(input: &str) -> (r: Result<Vec<InterRep>, ParseError>)
    ensures
        match parsed(input.spec_bytes()) {
            Ok(statements) => r matches Ok(v) && views(v@) == statements,
            Err(stop) => r matches Err(e) && e.position == stop && 0 <= stop
                < input.spec_bytes().len(),
        },
{
    program(input.as_bytes())
}

} // verus!
