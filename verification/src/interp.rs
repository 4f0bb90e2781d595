//! The instruction table, and what one instruction does to one frame.
//!
//! An instruction is decoded from the method's code at the frame's program
//! counter, and then executed on the frame. What it asks of the machine (to
//! go on, to invoke a method, to return) comes back as an [`Action`].

use vstd::prelude::*;

use crate::error::VmError;
use crate::frame::{
    spec_load_local, spec_pop, spec_push, spec_store_local, Frame, FrameView, Value, VariableType,
};

verus! {

/// A comparison of two numbers, as conditional branches make it.
#[derive(Clone, Copy, Debug, PartialEq, Eq, Structural)]
pub enum Condition {
    Equal,
    NotEqual,
    Less,
    GreaterOrEqual,
    Greater,
    LessOrEqual,
}

impl Condition {
    /// True when the comparison holds of `a` and `b`.
    pub open spec fn holds(self, a: int, b: int) -> bool {
        match self {
            Condition::Equal => a == b,
            Condition::NotEqual => a != b,
            Condition::Less => a < b,
            Condition::GreaterOrEqual => a >= b,
            Condition::Greater => a > b,
            Condition::LessOrEqual => a <= b,
        }
    }

    /// Tests the comparison on `a` and `b`.
    pub fn test(&self, a: i32, b: i32) -> (r: bool)
        ensures
            r == self.holds(a as int, b as int),
    {
        match self {
            Condition::Equal => a == b,
            Condition::NotEqual => a != b,
            Condition::Less => a < b,
            Condition::GreaterOrEqual => a >= b,
            Condition::Greater => a > b,
            Condition::LessOrEqual => a <= b,
        }
    }
}

/// One decoded instruction. Branch targets are positions in the code.
#[derive(Clone, Copy, Debug, PartialEq, Eq, Structural)]
pub enum Instruction {
    /// `nop`
    Nop,
    /// `aconst_null`, `iconst_<n>`, `lconst_<n>`, `bipush`, `sipush`
    Const(Value),
    /// `iload`, `lload`, `aload` and their short forms
    Load(VariableType, u8),
    /// `istore`, `lstore`, `astore` and their short forms
    Store(VariableType, u8),
    /// `pop`
    Pop,
    /// `pop2`
    Pop2,
    /// `dup`
    Dup,
    /// `iadd`
    IntAdd,
    /// `isub`
    IntSub,
    /// `ladd`
    LongAdd,
    /// `lsub`
    LongSub,
    /// `iinc`
    Increment { index: u8, delta: i32 },
    /// `goto`
    Goto(usize),
    /// `ifeq`, `ifne`, `iflt`, `ifge`, `ifgt`, `ifle`: the top of the stack
    /// against 0
    IfZero(Condition, usize),
    /// The six branches that compare the two numbers on top of the stack
    IfInts(Condition, usize),
    /// `ireturn`, `lreturn`, `areturn`
    Return(VariableType),
    /// `return`
    ReturnVoid,
    /// `invokevirtual`, `invokespecial` (with a receiver), `invokestatic`
    /// (without)
    Invoke { method_ref: u16, receiver: bool },
}

/// The number of operand bytes that follow the opcode `op`, or `None` where
/// `op` is not in the instruction table.
pub open spec fn spec_operand_count(op: u8) -> Option<nat> {
    if op <= 0x0a || 0x1a <= op <= 0x21 || 0x2a <= op <= 0x2d || 0x3b <= op <= 0x42 || 0x4b <= op
        <= 0x4e || 0x57 <= op <= 0x59 || op == 0x60 || op == 0x61 || op == 0x64 || op == 0x65
        || op == 0xac || op == 0xad || op == 0xb0 || op == 0xb1 {
        Some(0)
    } else if op == 0x10 || op == 0x15 || op == 0x16 || op == 0x19 || op == 0x36 || op == 0x37
        || op == 0x3a {
        Some(1)
    } else if op == 0x11 || op == 0x84 || 0x99 <= op <= 0xa4 || op == 0xa7 || 0xb6 <= op <= 0xb8 {
        Some(2)
    } else {
        None
    }
}

/// The byte `b` read as a signed number.
pub open spec fn signed8(b: u8) -> int {
    if b < 0x80 {
        b as int
    } else {
        b - 0x100
    }
}

/// The bytes `a` and `b` read as one signed big-endian number.
pub open spec fn signed16(a: u8, b: u8) -> int {
    if a < 0x80 {
        a * 0x100 + b
    } else {
        a * 0x100 + b - 0x1_0000
    }
}

/// The comparison of the `n`-th of six consecutive branch opcodes.
pub open spec fn spec_condition(n: int) -> Condition {
    if n == 0 {
        Condition::Equal
    } else if n == 1 {
        Condition::NotEqual
    } else if n == 2 {
        Condition::Less
    } else if n == 3 {
        Condition::GreaterOrEqual
    } else if n == 4 {
        Condition::Greater
    } else {
        Condition::LessOrEqual
    }
}

/// The target of a branch at `pc` with the operand bytes `a` and `b`, which
/// give the distance: it has to lie in the code, or at its end.
pub open spec fn spec_target(a: u8, b: u8, pc: int, len: int) -> Option<usize> {
    let target = pc + signed16(a, b);
    if 0 <= target <= len && target <= usize::MAX {
        Some(target as usize)
    } else {
        None
    }
}

/// The instruction with the opcode `op`, which is in the table, and the
/// operand bytes `a` and `b` (as far as it has them), at `pc` in a code of
/// `len` bytes. Fails with `CodeOutOfBounds` where it is a branch out of the
/// code.
pub open spec fn spec_instruction(op: u8, a: u8, b: u8, pc: int, len: int) -> Result<
    Instruction,
    VmError,
> {
    if op == 0x00 {
        Ok(Instruction::Nop)
    } else if op == 0x01 {
        Ok(Instruction::Const(Value::Reference(0)))
    } else if op <= 0x08 {
        Ok(Instruction::Const(Value::Int((op - 3) as i32)))
    } else if op <= 0x0a {
        Ok(Instruction::Const(Value::Long((op - 9) as i64)))
    } else if op == 0x10 {
        Ok(Instruction::Const(Value::Int(signed8(a) as i32)))
    } else if op == 0x11 {
        Ok(Instruction::Const(Value::Int(signed16(a, b) as i32)))
    } else if op == 0x15 {
        Ok(Instruction::Load(VariableType::Int, a))
    } else if op == 0x16 {
        Ok(Instruction::Load(VariableType::Long, a))
    } else if op == 0x19 {
        Ok(Instruction::Load(VariableType::Reference, a))
    } else if 0x1a <= op <= 0x1d {
        Ok(Instruction::Load(VariableType::Int, (op - 0x1a) as u8))
    } else if 0x1e <= op <= 0x21 {
        Ok(Instruction::Load(VariableType::Long, (op - 0x1e) as u8))
    } else if 0x2a <= op <= 0x2d {
        Ok(Instruction::Load(VariableType::Reference, (op - 0x2a) as u8))
    } else if op == 0x36 {
        Ok(Instruction::Store(VariableType::Int, a))
    } else if op == 0x37 {
        Ok(Instruction::Store(VariableType::Long, a))
    } else if op == 0x3a {
        Ok(Instruction::Store(VariableType::Reference, a))
    } else if 0x3b <= op <= 0x3e {
        Ok(Instruction::Store(VariableType::Int, (op - 0x3b) as u8))
    } else if 0x3f <= op <= 0x42 {
        Ok(Instruction::Store(VariableType::Long, (op - 0x3f) as u8))
    } else if 0x4b <= op <= 0x4e {
        Ok(Instruction::Store(VariableType::Reference, (op - 0x4b) as u8))
    } else if op == 0x57 {
        Ok(Instruction::Pop)
    } else if op == 0x58 {
        Ok(Instruction::Pop2)
    } else if op == 0x59 {
        Ok(Instruction::Dup)
    } else if op == 0x60 {
        Ok(Instruction::IntAdd)
    } else if op == 0x61 {
        Ok(Instruction::LongAdd)
    } else if op == 0x64 {
        Ok(Instruction::IntSub)
    } else if op == 0x65 {
        Ok(Instruction::LongSub)
    } else if op == 0x84 {
        Ok(Instruction::Increment { index: a, delta: signed8(b) as i32 })
    } else if op == 0xac {
        Ok(Instruction::Return(VariableType::Int))
    } else if op == 0xad {
        Ok(Instruction::Return(VariableType::Long))
    } else if op == 0xb0 {
        Ok(Instruction::Return(VariableType::Reference))
    } else if op == 0xb1 {
        Ok(Instruction::ReturnVoid)
    } else if op == 0xb6 || op == 0xb7 {
        Ok(Instruction::Invoke { method_ref: (a * 0x100 + b) as u16, receiver: true })
    } else if op == 0xb8 {
        Ok(Instruction::Invoke { method_ref: (a * 0x100 + b) as u16, receiver: false })
    } else {
        match spec_target(a, b, pc, len) {
            None => Err(VmError::CodeOutOfBounds),
            Some(target) => if op == 0xa7 {
                Ok(Instruction::Goto(target))
            } else if op <= 0x9e {
                Ok(Instruction::IfZero(spec_condition(op - 0x99), target))
            } else {
                Ok(Instruction::IfInts(spec_condition(op - 0x9f), target))
            },
        }
    }
}

/// The instruction at `pc` and the position after it. Fails with
/// `UnsupportedOpcode` where the byte at `pc` is not in the table, and with
/// `CodeOutOfBounds` where `pc`, an operand or a branch target lies outside
/// the code.
pub open spec fn spec_decode(code: Seq<u8>, pc: int) -> Result<(Instruction, int), VmError> {
    if !(0 <= pc < code.len()) {
        Err(VmError::CodeOutOfBounds)
    } else {
        match spec_operand_count(code[pc]) {
            None => Err(VmError::UnsupportedOpcode(code[pc])),
            Some(n) => if pc + 1 + n > code.len() {
                Err(VmError::CodeOutOfBounds)
            } else {
                match spec_instruction(
                    code[pc],
                    if n >= 1 {
                        code[pc + 1]
                    } else {
                        0
                    },
                    if n >= 2 {
                        code[pc + 2]
                    } else {
                        0
                    },
                    pc,
                    code.len() as int,
                ) {
                    Err(e) => Err(e),
                    Ok(instruction) => Ok((instruction, pc + 1 + n)),
                }
            },
        }
    }
}

/// A byte that is not in the instruction table decodes to nothing:
/// `UnsupportedOpcode` names it.
pub proof fn lemma_unsupported_opcode(code: Seq<u8>, pc: int)
    requires
        0 <= pc < code.len(),
        spec_operand_count(code[pc]) is None,
    ensures
        spec_decode(code, pc) == Err::<(Instruction, int), VmError>(
            VmError::UnsupportedOpcode(code[pc]),
        ),
{
}

/// An instruction that decodes ends after the position it starts at, and
/// within the code.
pub proof fn lemma_decode_advances(code: Seq<u8>, pc: int)
    ensures
        spec_decode(code, pc) matches Ok((_, next)) ==> 0 <= pc < next <= code.len() && next <= pc
            + 3,
{
}

/// What an instruction leaves the machine to do.
pub enum Step {
    /// Go on with the frame as it now is.
    Continue(FrameView),
    /// Invoke the method that the pool entry `method_ref` names, and come
    /// back to the frame as it now is.
    Invoke { frame: FrameView, method_ref: u16, receiver: bool },
    /// Leave the frame, with the value if there is one.
    Return(Option<Value>),
    /// Stop: the frame is no longer of use.
    Fault(VmError),
}

/// What an executed instruction asks of the machine.
#[derive(Clone, Copy, Debug, PartialEq, Eq)]
pub enum Action {
    Continue,
    Invoke { method_ref: u16, receiver: bool },
    Return(Option<Value>),
}

/// The step that an action, or a fault, stands for, given the frame after it.
pub open spec fn step_of(r: Result<Action, VmError>, after: FrameView) -> Step {
    match r {
        Ok(Action::Continue) => Step::Continue(after),
        Ok(Action::Invoke { method_ref, receiver }) => Step::Invoke {
            frame: after,
            method_ref,
            receiver,
        },
        Ok(Action::Return(value)) => Step::Return(value),
        Err(e) => Step::Fault(e),
    }
}

/// The number that an `Int` holds (0 for a value of another type).
pub open spec fn int_of(v: Value) -> i32 {
    match v {
        Value::Int(i) => i,
        _ => 0,
    }
}

/// The number that a `Long` holds (0 for a value of another type).
pub open spec fn long_of(v: Value) -> i64 {
    match v {
        Value::Long(l) => l,
        _ => 0,
    }
}

/// Going on at `next` with the frame `r`, if there is one.
pub open spec fn go_on(r: Result<FrameView, VmError>, next: nat) -> Step {
    match r {
        Ok(f) => Step::Continue(f.with_pc(next)),
        Err(e) => Step::Fault(e),
    }
}

/// Two values of type `kind` are popped, the second operand first, and
/// `result` is pushed.
pub open spec fn spec_binary(
    f: FrameView,
    kind: VariableType,
    result: spec_fn(Value, Value) -> Value,
    next: nat,
) -> Step {
    match spec_pop(f, kind) {
        Err(e) => Step::Fault(e),
        Ok((b, g)) => match spec_pop(g, kind) {
            Err(e) => Step::Fault(e),
            Ok((a, h)) => go_on(spec_push(h, result(a, b)), next),
        },
    }
}

/// A conditional branch: where the condition holds the frame goes on at
/// `target`, else at `next`.
pub open spec fn spec_branch(f: FrameView, taken: bool, target: usize, next: nat) -> Step {
    Step::Continue(
        f.with_pc(
            if taken {
                target as nat
            } else {
                next
            },
        ),
    )
}

/// What `instruction` does to the frame `f`, where `next` is the position of
/// the instruction after it.
pub open spec fn spec_execute(f: FrameView, instruction: Instruction, next: nat) -> Step {
    match instruction {
        Instruction::Nop => Step::Continue(f.with_pc(next)),
        Instruction::Const(value) => go_on(spec_push(f, value), next),
        Instruction::Load(kind, index) => match spec_load_local(f, kind, index as int) {
            Err(e) => Step::Fault(e),
            Ok(value) => go_on(spec_push(f, value), next),
        },
        Instruction::Store(kind, index) => match spec_pop(f, kind) {
            Err(e) => Step::Fault(e),
            Ok((value, g)) => go_on(spec_store_local(g, index as int, value), next),
        },
        Instruction::Pop => match spec_pop(f, VariableType::Reference) {
            Err(e) => Step::Fault(e),
            Ok((_, g)) => Step::Continue(g.with_pc(next)),
        },
        Instruction::Pop2 => match spec_pop(f, VariableType::Reference) {
            Err(e) => Step::Fault(e),
            Ok((_, g)) => match spec_pop(g, VariableType::Reference) {
                Err(e) => Step::Fault(e),
                Ok((_, h)) => Step::Continue(h.with_pc(next)),
            },
        },
        Instruction::Dup => match spec_pop(f, VariableType::Reference) {
            Err(e) => Step::Fault(e),
            Ok((top, g)) => match spec_push(g, top) {
                Err(e) => Step::Fault(e),
                Ok(h) => go_on(spec_push(h, top), next),
            },
        },
        Instruction::IntAdd => spec_binary(
            f,
            VariableType::Int,
            |a: Value, b: Value| Value::Int(int_of(a).wrapping_add(int_of(b))),
            next,
        ),
        Instruction::IntSub => spec_binary(
            f,
            VariableType::Int,
            |a: Value, b: Value| Value::Int(int_of(a).wrapping_sub(int_of(b))),
            next,
        ),
        Instruction::LongAdd => spec_binary(
            f,
            VariableType::Long,
            |a: Value, b: Value| Value::Long(long_of(a).wrapping_add(long_of(b))),
            next,
        ),
        Instruction::LongSub => spec_binary(
            f,
            VariableType::Long,
            |a: Value, b: Value| Value::Long(long_of(a).wrapping_sub(long_of(b))),
            next,
        ),
        Instruction::Increment { index, delta } => match spec_load_local(
            f,
            VariableType::Int,
            index as int,
        ) {
            Err(e) => Step::Fault(e),
            Ok(value) => go_on(
                spec_store_local(f, index as int, Value::Int(int_of(value).wrapping_add(delta))),
                next,
            ),
        },
        Instruction::Goto(target) => Step::Continue(f.with_pc(target as nat)),
        Instruction::IfZero(condition, target) => match spec_pop(f, VariableType::Int) {
            Err(e) => Step::Fault(e),
            Ok((a, g)) => spec_branch(g, condition.holds(int_of(a) as int, 0), target, next),
        },
        Instruction::IfInts(condition, target) => match spec_pop(f, VariableType::Int) {
            Err(e) => Step::Fault(e),
            Ok((b, g)) => match spec_pop(g, VariableType::Int) {
                Err(e) => Step::Fault(e),
                Ok((a, h)) => spec_branch(
                    h,
                    condition.holds(int_of(a) as int, int_of(b) as int),
                    target,
                    next,
                ),
            },
        },
        Instruction::Return(kind) => match spec_pop(f, kind) {
            Err(e) => Step::Fault(e),
            Ok((value, _)) => Step::Return(Some(value)),
        },
        Instruction::ReturnVoid => Step::Return(None),
        Instruction::Invoke { method_ref, receiver } => Step::Invoke {
            frame: f.with_pc(next),
            method_ref,
            receiver,
        },
    }
}

/// True when `g` is the frame `f` of the same method, with its operand stack
/// within its limit, and as many local variables as before.
pub open spec fn same_frame_within_limits(f: FrameView, g: FrameView) -> bool {
    &&& g.op_stack.len() <= g.max_stack
    &&& g.max_stack == f.max_stack
    &&& g.local_vars.len() == f.local_vars.len()
    &&& g.class_index == f.class_index
    &&& g.method_index == f.method_index
}

/// A push, a pop and a store keep a frame within its limits.
proof fn lemma_frame_steps_within_limits(
    f: FrameView,
    value: Value,
    kind: VariableType,
    index: int,
)
    requires
        f.op_stack.len() <= f.max_stack,
    ensures
        spec_push(f, value) matches Ok(g) ==> same_frame_within_limits(f, g),
        spec_pop(f, kind) matches Ok((_, g)) ==> same_frame_within_limits(f, g),
        spec_store_local(f, index, value) matches Ok(g) ==> same_frame_within_limits(f, g),
{
}

/// Two pops and a push keep a frame within its limits.
proof fn lemma_binary_within_limits(
    f: FrameView,
    kind: VariableType,
    result: spec_fn(Value, Value) -> Value,
    next: nat,
)
    requires
        f.op_stack.len() <= f.max_stack,
    ensures
        spec_binary(f, kind, result, next) matches Step::Continue(g) ==> same_frame_within_limits(
            f,
            g,
        ),
        !(spec_binary(f, kind, result, next) is Invoke),
{
    if let Ok((b, g)) = spec_pop(f, kind) {
        lemma_frame_steps_within_limits(f, b, kind, 0);
        if let Ok((a, h)) = spec_pop(g, kind) {
            lemma_frame_steps_within_limits(g, a, kind, 0);
            lemma_frame_steps_within_limits(h, result(a, b), kind, 0);
        }
    }
}

/// No instruction takes the operand stack of a frame past its limit, changes
/// the limit or the number of local variables, or moves the frame to
/// another method.
pub proof fn lemma_execute_within_limits(f: FrameView, instruction: Instruction, next: nat)
    requires
        f.op_stack.len() <= f.max_stack,
    ensures
        match spec_execute(f, instruction, next) {
            Step::Continue(g) => same_frame_within_limits(f, g),
            Step::Invoke { frame, .. } => same_frame_within_limits(f, frame),
            _ => true,
        },
{
    let reference = VariableType::Reference;
    let number = VariableType::Int;
    match instruction {
        Instruction::Const(value) => {
            lemma_frame_steps_within_limits(f, value, reference, 0);
        },
        Instruction::Load(kind, index) => {
            if let Ok(value) = spec_load_local(f, kind, index as int) {
                lemma_frame_steps_within_limits(f, value, reference, 0);
            }
        },
        Instruction::Store(kind, index) => {
            if let Ok((value, g)) = spec_pop(f, kind) {
                lemma_frame_steps_within_limits(f, value, kind, 0);
                lemma_frame_steps_within_limits(g, value, kind, index as int);
            }
        },
        Instruction::Pop => {
            lemma_frame_steps_within_limits(f, Value::Int(0), reference, 0);
        },
        Instruction::Pop2 => {
            if let Ok((_, g)) = spec_pop(f, reference) {
                lemma_frame_steps_within_limits(f, Value::Int(0), reference, 0);
                lemma_frame_steps_within_limits(g, Value::Int(0), reference, 0);
            }
        },
        Instruction::Dup => {
            if let Ok((top, g)) = spec_pop(f, reference) {
                lemma_frame_steps_within_limits(f, top, reference, 0);
                lemma_frame_steps_within_limits(g, top, reference, 0);
                if let Ok(h) = spec_push(g, top) {
                    lemma_frame_steps_within_limits(h, top, reference, 0);
                }
            }
        },
        Instruction::IntAdd => {
            lemma_binary_within_limits(
                f,
                number,
                |a: Value, b: Value| Value::Int(int_of(a).wrapping_add(int_of(b))),
                next,
            );
        },
        Instruction::IntSub => {
            lemma_binary_within_limits(
                f,
                number,
                |a: Value, b: Value| Value::Int(int_of(a).wrapping_sub(int_of(b))),
                next,
            );
        },
        Instruction::LongAdd => {
            lemma_binary_within_limits(
                f,
                VariableType::Long,
                |a: Value, b: Value| Value::Long(long_of(a).wrapping_add(long_of(b))),
                next,
            );
        },
        Instruction::LongSub => {
            lemma_binary_within_limits(
                f,
                VariableType::Long,
                |a: Value, b: Value| Value::Long(long_of(a).wrapping_sub(long_of(b))),
                next,
            );
        },
        Instruction::Increment { index, delta } => {
            if let Ok(value) = spec_load_local(f, number, index as int) {
                lemma_frame_steps_within_limits(
                    f,
                    Value::Int(int_of(value).wrapping_add(delta)),
                    number,
                    index as int,
                );
            }
        },
        Instruction::IfZero(condition, target) => {
            lemma_frame_steps_within_limits(f, Value::Int(0), number, 0);
        },
        Instruction::IfInts(condition, target) => {
            if let Ok((_, g)) = spec_pop(f, number) {
                lemma_frame_steps_within_limits(f, Value::Int(0), number, 0);
                lemma_frame_steps_within_limits(g, Value::Int(0), number, 0);
            }
        },
        _ => {},
    }
}

/// The number of operand bytes after the opcode `op`.
pub fn operand_count(op: u8) -> (r: Option<usize>)
    ensures
        match r {
            Some(n) => spec_operand_count(op) == Some(n as nat),
            None => spec_operand_count(op) is None,
        },
{
    match op {
        0x00..=0x0a
        | 0x1a..=0x21
        | 0x2a..=0x2d
        | 0x3b..=0x42
        | 0x4b..=0x4e
        | 0x57..=0x59
        | 0x60
        | 0x61
        | 0x64
        | 0x65
        | 0xac
        | 0xad
        | 0xb0
        | 0xb1 => Some(0),
        0x10 | 0x15 | 0x16 | 0x19 | 0x36 | 0x37 | 0x3a => Some(1),
        0x11 | 0x84 | 0x99..=0xa4 | 0xa7 | 0xb6..=0xb8 => Some(2),
        _ => None,
    }
}

/// The comparison of the `n`-th of six consecutive branch opcodes.
fn condition(n: u8) -> (r: Condition)
    ensures
        r == spec_condition(n as int),
{
    match n {
        0 => Condition::Equal,
        1 => Condition::NotEqual,
        2 => Condition::Less,
        3 => Condition::GreaterOrEqual,
        4 => Condition::Greater,
        _ => Condition::LessOrEqual,
    }
}

/// The byte `b` as a signed number.
fn byte_value(b: u8) -> (r: i32)
    ensures
        r == signed8(b),
{
    if b < 0x80 {
        b as i32
    } else {
        b as i32 - 0x100
    }
}

/// The bytes `a` and `b` as one signed number.
fn short_value(a: u8, b: u8) -> (r: i32)
    ensures
        r == signed16(a, b),
{
    if a < 0x80 {
        a as i32 * 0x100 + b as i32
    } else {
        a as i32 * 0x100 + b as i32 - 0x1_0000
    }
}

/// The target of a branch at `pc`.
fn target(a: u8, b: u8, pc: usize, len: usize) -> (r: Option<usize>)
    requires
        pc < len,
    ensures
        r == spec_target(a, b, pc as int, len as int),
{
    let distance = short_value(a, b);
    if distance >= 0 {
        if len - pc >= distance as usize {
            Some(pc + distance as usize)
        } else {
            None
        }
    } else {
        let back: usize = (0 - distance) as usize;
        if back <= pc {
            Some(pc - back)
        } else {
            None
        }
    }
}

/// The instruction with the opcode `op` and the operand bytes `a` and `b`.
fn instruction(op: u8, a: u8, b: u8, pc: usize, len: usize) -> (r: Result<Instruction, VmError>)
    requires
        pc < len,
        spec_operand_count(op) is Some,
    ensures
        r == spec_instruction(op, a, b, pc as int, len as int),
{
    match op {
        0x00 => Ok(Instruction::Nop),
        0x01 => Ok(Instruction::Const(Value::Reference(0))),
        0x02..=0x08 => Ok(Instruction::Const(Value::Int(op as i32 - 3))),
        0x09..=0x0a => Ok(Instruction::Const(Value::Long(op as i64 - 9))),
        0x10 => Ok(Instruction::Const(Value::Int(byte_value(a)))),
        0x11 => Ok(Instruction::Const(Value::Int(short_value(a, b)))),
        0x15 => Ok(Instruction::Load(VariableType::Int, a)),
        0x16 => Ok(Instruction::Load(VariableType::Long, a)),
        0x19 => Ok(Instruction::Load(VariableType::Reference, a)),
        0x1a..=0x1d => Ok(Instruction::Load(VariableType::Int, op - 0x1a)),
        0x1e..=0x21 => Ok(Instruction::Load(VariableType::Long, op - 0x1e)),
        0x2a..=0x2d => Ok(Instruction::Load(VariableType::Reference, op - 0x2a)),
        0x36 => Ok(Instruction::Store(VariableType::Int, a)),
        0x37 => Ok(Instruction::Store(VariableType::Long, a)),
        0x3a => Ok(Instruction::Store(VariableType::Reference, a)),
        0x3b..=0x3e => Ok(Instruction::Store(VariableType::Int, op - 0x3b)),
        0x3f..=0x42 => Ok(Instruction::Store(VariableType::Long, op - 0x3f)),
        0x4b..=0x4e => Ok(Instruction::Store(VariableType::Reference, op - 0x4b)),
        0x57 => Ok(Instruction::Pop),
        0x58 => Ok(Instruction::Pop2),
        0x59 => Ok(Instruction::Dup),
        0x60 => Ok(Instruction::IntAdd),
        0x61 => Ok(Instruction::LongAdd),
        0x64 => Ok(Instruction::IntSub),
        0x65 => Ok(Instruction::LongSub),
        0x84 => Ok(Instruction::Increment { index: a, delta: byte_value(b) }),
        0xac => Ok(Instruction::Return(VariableType::Int)),
        0xad => Ok(Instruction::Return(VariableType::Long)),
        0xb0 => Ok(Instruction::Return(VariableType::Reference)),
        0xb1 => Ok(Instruction::ReturnVoid),
        0xb6 | 0xb7 => Ok(
            Instruction::Invoke { method_ref: a as u16 * 0x100 + b as u16, receiver: true },
        ),
        0xb8 => Ok(
            Instruction::Invoke { method_ref: a as u16 * 0x100 + b as u16, receiver: false },
        ),
        _ => match target(a, b, pc, len) {
            None => Err(VmError::CodeOutOfBounds),
            Some(target) => if op == 0xa7 {
                Ok(Instruction::Goto(target))
            } else if op <= 0x9e {
                Ok(Instruction::IfZero(condition(op - 0x99), target))
            } else {
                Ok(Instruction::IfInts(condition(op - 0x9f), target))
            },
        },
    }
}

/// Decodes the instruction at `pc`. Returns it with the position of the
/// instruction after it.
pub fn decode(code: &Vec<u8>, pc: usize) -> (r: Result<(Instruction, usize), VmError>)
    ensures
        match r {
            Ok((instruction, next)) => spec_decode(code@, pc as int) == Ok::<
                (Instruction, int),
                VmError,
            >((instruction, next as int)),
            Err(e) => spec_decode(code@, pc as int) == Err::<(Instruction, int), VmError>(e),
        },
{
    let len = code.len();
    if pc >= len {
        return Err(VmError::CodeOutOfBounds);
    }
    let op = code[pc];
    let n = match operand_count(op) {
        None => {
            return Err(VmError::UnsupportedOpcode(op));
        },
        Some(n) => n,
    };
    if len - pc - 1 < n {
        return Err(VmError::CodeOutOfBounds);
    }
    let a: u8 = if n >= 1 {
        code[pc + 1]
    } else {
        0
    };
    let b: u8 = if n >= 2 {
        code[pc + 2]
    } else {
        0
    };
    let decoded = instruction(op, a, b, pc, len)?;
    Ok((decoded, pc + 1 + n))
}

/// Pops an `Int`.
fn pop_int(frame: &mut Frame) -> (r: Result<i32, VmError>)
    ensures
        match r {
            Ok(i) => spec_pop(old(frame)@, VariableType::Int) matches Ok((v, g)) && i == int_of(v)
                && g == final(frame)@,
            Err(e) => spec_pop(old(frame)@, VariableType::Int) == Err::<(Value, FrameView), VmError>(
                e,
            ) && *final(frame) == *old(frame),
        },
{
    match frame.pop(VariableType::Int)? {
        Value::Int(i) => Ok(i),
        _ => Ok(0),
    }
}

/// Pops a `Long`.
fn pop_long(frame: &mut Frame) -> (r: Result<i64, VmError>)
    ensures
        match r {
            Ok(l) => spec_pop(old(frame)@, VariableType::Long) matches Ok((v, g)) && l == long_of(v)
                && g == final(frame)@,
            Err(e) => spec_pop(old(frame)@, VariableType::Long) == Err::<
                (Value, FrameView),
                VmError,
            >(e) && *final(frame) == *old(frame),
        },
{
    match frame.pop(VariableType::Long)? {
        Value::Long(l) => Ok(l),
        _ => Ok(0),
    }
}

/// Executes `instruction` on `frame`, where `next` is the position of the
/// instruction after it. The frame then is as [`spec_execute`] says; after a
/// fault it is of no further use.
pub fn execute(frame: &mut Frame, instruction: Instruction, next: usize) -> (r: Result<
    Action,
    VmError,
>)
    ensures
        spec_execute(old(frame)@, instruction, next as nat) == step_of(r, final(frame)@),
{
    match instruction {
        Instruction::Nop => {},
        Instruction::Const(value) => {
            frame.push(value)?;
        },
        Instruction::Load(kind, index) => {
            let value = frame.load_local(kind, index as usize)?;
            frame.push(value)?;
        },
        Instruction::Store(kind, index) => {
            let value = frame.pop(kind)?;
            frame.store_local(index as usize, value)?;
        },
        Instruction::Pop => {
            frame.pop(VariableType::Reference)?;
        },
        Instruction::Pop2 => {
            frame.pop(VariableType::Reference)?;
            frame.pop(VariableType::Reference)?;
        },
        Instruction::Dup => {
            let top = frame.pop(VariableType::Reference)?;
            frame.push(top)?;
            frame.push(top)?;
        },
        Instruction::IntAdd => {
            let b = pop_int(frame)?;
            let a = pop_int(frame)?;
            frame.push(Value::Int(a.wrapping_add(b)))?;
        },
        Instruction::IntSub => {
            let b = pop_int(frame)?;
            let a = pop_int(frame)?;
            frame.push(Value::Int(a.wrapping_sub(b)))?;
        },
        Instruction::LongAdd => {
            let b = pop_long(frame)?;
            let a = pop_long(frame)?;
            frame.push(Value::Long(a.wrapping_add(b)))?;
        },
        Instruction::LongSub => {
            let b = pop_long(frame)?;
            let a = pop_long(frame)?;
            frame.push(Value::Long(a.wrapping_sub(b)))?;
        },
        Instruction::Increment { index, delta } => {
            let value = match frame.load_local(VariableType::Int, index as usize)? {
                Value::Int(i) => i,
                _ => 0,
            };
            frame.store_local(index as usize, Value::Int(value.wrapping_add(delta)))?;
        },
        Instruction::Goto(target) => {
            frame.pc = target;
            return Ok(Action::Continue);
        },
        Instruction::IfZero(condition, target) => {
            let a = pop_int(frame)?;
            frame.pc = if condition.test(a, 0) {
                target
            } else {
                next
            };
            return Ok(Action::Continue);
        },
        Instruction::IfInts(condition, target) => {
            let b = pop_int(frame)?;
            let a = pop_int(frame)?;
            frame.pc = if condition.test(a, b) {
                target
            } else {
                next
            };
            return Ok(Action::Continue);
        },
        Instruction::Return(kind) => {
            let value = frame.pop(kind)?;
            return Ok(Action::Return(Some(value)));
        },
        Instruction::ReturnVoid => {
            return Ok(Action::Return(None));
        },
        Instruction::Invoke { method_ref, receiver } => {
            frame.pc = next;
            return Ok(Action::Invoke { method_ref, receiver });
        },
    }
    frame.pc = next;
    Ok(Action::Continue)
}

} // verus!
