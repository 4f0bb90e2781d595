//! The activation record of one method invocation: local variable slots, an
//! operand stack of bounded depth, and a program counter.
//!
//! Slots are 32 bits wide and carry no type. How many slots a value takes is
//! decided by whoever pushes or pops it: one for an `Int` or a `Reference`,
//! two for a `Long`, whose high half comes first.

use vstd::prelude::*;

use crate::error::VmError;

verus! {

/// The static type of a value, which fixes how many slots it takes.
#[derive(Clone, Copy, Debug, PartialEq, Eq, Structural)]
pub enum VariableType {
    Reference,
    Int,
    Long,
}

/// A value as instructions see it.
#[derive(Clone, Copy, Debug, PartialEq, Eq, Structural)]
pub enum Value {
    Int(i32),
    Long(i64),
    Reference(u32),
}

/// The slot that holds `v`: its two's complement.
pub open spec fn int_slot(v: i32) -> u32 {
    if v >= 0 {
        v as u32
    } else {
        (v + 0x1_0000_0000) as u32
    }
}

/// The number that the slot `s` holds.
pub open spec fn slot_int(s: u32) -> i32 {
    if s < 0x8000_0000 {
        s as i32
    } else {
        (s - 0x1_0000_0000) as i32
    }
}

/// The 64 bits of `v`: its two's complement.
pub open spec fn long_bits(v: i64) -> u64 {
    if v >= 0 {
        v as u64
    } else {
        (v + 0x1_0000_0000_0000_0000) as u64
    }
}

/// The number that the 64 bits `u` hold.
pub open spec fn bits_long(u: u64) -> i64 {
    if u < 0x8000_0000_0000_0000 {
        u as i64
    } else {
        (u - 0x1_0000_0000_0000_0000) as i64
    }
}

/// The slots that hold `v`, in the order in which they are pushed.
pub open spec fn value_slots(v: Value) -> Seq<u32> {
    match v {
        Value::Int(i) => seq![int_slot(i)],
        Value::Reference(r) => seq![r],
        Value::Long(l) => seq![
            (long_bits(l) / 0x1_0000_0000) as u32,
            (long_bits(l) % 0x1_0000_0000) as u32,
        ],
    }
}

/// The value of type `kind` that the slots `s` hold.
pub open spec fn slots_value(kind: VariableType, s: Seq<u32>) -> Value {
    match kind {
        VariableType::Int => Value::Int(slot_int(s[0])),
        VariableType::Reference => Value::Reference(s[0]),
        VariableType::Long => Value::Long(bits_long((s[0] * 0x1_0000_0000 + s[1]) as u64)),
    }
}

impl VariableType {
    /// The number of slots that a value of this type takes.
    pub open spec fn slots(self) -> nat {
        match self {
            VariableType::Long => 2,
            _ => 1,
        }
    }

    /// The number of slots that a value of this type takes: 1 or 2.
    pub fn width(&self) -> (w: usize)
        ensures
            w == self.slots(),
    {
        match self {
            VariableType::Long => 2,
            _ => 1,
        }
    }

    /// Reads a value of this type from the slot `first` and, for a wide type,
    /// the slot `second` after it.
    pub fn from_slots(&self, first: u32, second: u32) -> (v: Value)
        ensures
            v == slots_value(*self, seq![first, second]),
            self.slots() == 1 ==> v == slots_value(*self, seq![first]),
    {
        match self {
            VariableType::Int => {
                if first < 0x8000_0000 {
                    Value::Int(first as i32)
                } else {
                    Value::Int((first as i64 - 0x1_0000_0000) as i32)
                }
            },
            VariableType::Reference => Value::Reference(first),
            VariableType::Long => {
                let bits: u64 = (first as u64) * 0x1_0000_0000 + (second as u64);
                if bits < 0x8000_0000_0000_0000 {
                    Value::Long(bits as i64)
                } else {
                    Value::Long((bits as i128 - 0x1_0000_0000_0000_0000) as i64)
                }
            },
        }
    }
}

impl Value {
    /// The static type of the value.
    pub open spec fn spec_kind(&self) -> VariableType {
        match *self {
            Value::Int(_) => VariableType::Int,
            Value::Long(_) => VariableType::Long,
            Value::Reference(_) => VariableType::Reference,
        }
    }

    /// The static type of the value.
    #[verifier::when_used_as_spec(spec_kind)]
    pub fn kind(&self) -> (k: VariableType)
        ensures
            k == self.spec_kind(),
    {
        match self {
            Value::Int(_) => VariableType::Int,
            Value::Long(_) => VariableType::Long,
            Value::Reference(_) => VariableType::Reference,
        }
    }

    /// The first slot of the value and, for a wide value, the second (else 0).
    pub fn to_slots(&self) -> (s: (u32, u32))
        ensures
            s.0 == value_slots(*self)[0],
            self.kind().slots() == 2 ==> s.1 == value_slots(*self)[1],
            self.kind().slots() == 1 ==> s.1 == 0,
            value_slots(*self).len() == self.kind().slots(),
    {
        match *self {
            Value::Int(i) => {
                if i >= 0 {
                    (i as u32, 0)
                } else {
                    ((i as i64 + 0x1_0000_0000) as u32, 0)
                }
            },
            Value::Reference(r) => (r, 0),
            Value::Long(l) => {
                let bits: u64 = if l >= 0 {
                    l as u64
                } else {
                    (l as i128 + 0x1_0000_0000_0000_0000) as u64
                };
                ((bits / 0x1_0000_0000) as u32, (bits % 0x1_0000_0000) as u32)
            },
        }
    }
}

/// A value that was written into slots is read back from them unchanged.
pub proof fn lemma_slots_round_trip(v: Value)
    ensures
        value_slots(v).len() == v.kind().slots(),
        slots_value(v.kind(), value_slots(v)) == v,
{
}

#[derive(Debug)]
pub struct Frame {
    /// The local variables. Their number is fixed when the frame is made. A
    /// wide value is referred to by its first index and takes the next one too.
    pub local_vars: Vec<u32>,
    /// The operand stack, last in, first out. Values and constants from local
    /// variables come here, and the arguments and results of methods.
    pub op_stack: Vec<u32>,
    /// The number of slots that the operand stack may hold.
    pub max_stack: usize,
    /// The position in the method's code of the next instruction.
    pub pc: usize,
    /// The class of the method that runs in this frame, as an index into the
    /// machine's classes.
    pub class_index: usize,
    /// The method, as an index into the methods of that class.
    pub method_index: usize,
}

/// What a [`Frame`] stands for.
pub struct FrameView {
    pub local_vars: Seq<u32>,
    pub op_stack: Seq<u32>,
    pub max_stack: nat,
    pub pc: nat,
    pub class_index: nat,
    pub method_index: nat,
}

impl View for Frame {
    type V = FrameView;

    open spec fn view(&self) -> FrameView {
        FrameView {
            local_vars: self.local_vars@,
            op_stack: self.op_stack@,
            max_stack: self.max_stack as nat,
            pc: self.pc as nat,
            class_index: self.class_index as nat,
            method_index: self.method_index as nat,
        }
    }
}

impl FrameView {
    /// The frame with another operand stack.
    pub open spec fn with_stack(self, op_stack: Seq<u32>) -> FrameView {
        FrameView { op_stack, ..self }
    }

    /// The frame with other local variables.
    pub open spec fn with_locals(self, local_vars: Seq<u32>) -> FrameView {
        FrameView { local_vars, ..self }
    }

    /// The frame with another program counter.
    pub open spec fn with_pc(self, pc: nat) -> FrameView {
        FrameView { pc, ..self }
    }
}

/// The frame that a method starts in: so many local variables, the first of
/// them holding `arguments`, the others 0; an empty operand stack; the program
/// counter at 0. There is none where the arguments take more slots than the
/// method has local variables.
pub open spec fn spec_entry_frame(
    class_index: nat,
    method_index: nat,
    max_stack: u16,
    max_locals: u16,
    arguments: Seq<u32>,
) -> Result<FrameView, VmError> {
    if arguments.len() > max_locals {
        Err(VmError::LocalVariableOutOfBounds)
    } else {
        Ok(
            FrameView {
                local_vars: Seq::new(
                    max_locals as nat,
                    |i: int|
                        if i < arguments.len() {
                            arguments[i]
                        } else {
                            0u32
                        },
                ),
                op_stack: Seq::empty(),
                max_stack: max_stack as nat,
                pc: 0,
                class_index,
                method_index,
            },
        )
    }
}

/// The frame after `value` was pushed. Fails with `OperandStackOverflow` where
/// the stack would then hold more than `max_stack` slots.
pub open spec fn spec_push(f: FrameView, value: Value) -> Result<FrameView, VmError> {
    if f.op_stack.len() + value.kind().slots() > f.max_stack {
        Err(VmError::OperandStackOverflow)
    } else {
        Ok(f.with_stack(f.op_stack + value_slots(value)))
    }
}

/// The value of type `kind` on top of the stack, and the frame without it.
/// Fails with `OperandStackUnderflow` where the stack holds fewer slots than
/// the type takes.
pub open spec fn spec_pop(f: FrameView, kind: VariableType) -> Result<(Value, FrameView), VmError> {
    let n = f.op_stack.len() as int;
    let w = kind.slots() as int;
    if n < w {
        Err(VmError::OperandStackUnderflow)
    } else {
        Ok((slots_value(kind, f.op_stack.subrange(n - w, n)), f.with_stack(f.op_stack.take(n - w))))
    }
}

/// The value of type `kind` in the local variable `index`. Fails with
/// `LocalVariableOutOfBounds` where a slot of it lies outside the frame.
pub open spec fn spec_load_local(f: FrameView, kind: VariableType, index: int) -> Result<
    Value,
    VmError,
> {
    let w = kind.slots() as int;
    if index < 0 || index + w > f.local_vars.len() {
        Err(VmError::LocalVariableOutOfBounds)
    } else {
        Ok(slots_value(kind, f.local_vars.subrange(index, index + w)))
    }
}

/// The local variables `locals` with `slots` written from `index` on.
pub open spec fn write_slots(locals: Seq<u32>, index: int, slots: Seq<u32>) -> Seq<u32> {
    Seq::new(
        locals.len(),
        |i: int|
            if index <= i < index + slots.len() {
                slots[i - index]
            } else {
                locals[i]
            },
    )
}

/// The frame after `value` was written to the local variable `index`. Fails
/// with `LocalVariableOutOfBounds` where a slot of it lies outside the frame.
pub open spec fn spec_store_local(f: FrameView, index: int, value: Value) -> Result<
    FrameView,
    VmError,
> {
    let w = value.kind().slots() as int;
    if index < 0 || index + w > f.local_vars.len() {
        Err(VmError::LocalVariableOutOfBounds)
    } else {
        Ok(f.with_locals(write_slots(f.local_vars, index, value_slots(value))))
    }
}

/// A push that would take the operand stack past `max_stack` fails with
/// `OperandStackOverflow`, and no other push fails.
pub proof fn lemma_push_overflow(f: FrameView, value: Value)
    ensures
        f.op_stack.len() + value.kind().slots() > f.max_stack <==> spec_push(f, value) == Err::<
            FrameView,
            VmError,
        >(VmError::OperandStackOverflow),
        f.op_stack.len() + value.kind().slots() <= f.max_stack <==> spec_push(f, value) is Ok,
{
}

/// A pop from an empty operand stack fails with `OperandStackUnderflow`, as
/// does every pop of more slots than the stack holds, and no other pop.
pub proof fn lemma_pop_underflow(f: FrameView, kind: VariableType)
    ensures
        f.op_stack.len() == 0 ==> spec_pop(f, kind) == Err::<(Value, FrameView), VmError>(
            VmError::OperandStackUnderflow,
        ),
        f.op_stack.len() < kind.slots() <==> spec_pop(f, kind) == Err::<
            (Value, FrameView),
            VmError,
        >(VmError::OperandStackUnderflow),
        f.op_stack.len() >= kind.slots() <==> spec_pop(f, kind) is Ok,
{
}

/// What was pushed is what a pop of the same type gives back, and the frame
/// is then as it was before the push.
pub proof fn lemma_push_then_pop(f: FrameView, value: Value)
    requires
        spec_push(f, value) is Ok,
    ensures
        spec_pop(spec_push(f, value)->Ok_0, value.kind()) == Ok::<(Value, FrameView), VmError>(
            (value, f),
        ),
{
    let g = spec_push(f, value)->Ok_0;
    let n = g.op_stack.len() as int;
    let w = value.kind().slots() as int;
    assert(g.op_stack.subrange(n - w, n) =~= value_slots(value));
    assert(g.op_stack.take(n - w) =~= f.op_stack);
    lemma_slots_round_trip(value);
}

impl Frame {
    /// Makes the frame that a method starts in.
    pub fn new(
        class_index: usize,
        method_index: usize,
        max_stack: u16,
        max_locals: u16,
        arguments: &Vec<u32>,
    ) -> (r: Result<Frame, VmError>)
        ensures
            match r {
                Ok(frame) => spec_entry_frame(
                    class_index as nat,
                    method_index as nat,
                    max_stack,
                    max_locals,
                    arguments@,
                ) == Ok::<FrameView, VmError>(frame@),
                Err(e) => spec_entry_frame(
                    class_index as nat,
                    method_index as nat,
                    max_stack,
                    max_locals,
                    arguments@,
                ) == Err::<FrameView, VmError>(e),
            },
    {
        if arguments.len() > max_locals as usize {
            return Err(VmError::LocalVariableOutOfBounds);
        }
        let mut local_vars: Vec<u32> = Vec::new();
        let mut i: usize = 0;
        while i < max_locals as usize
            invariant
                i <= max_locals,
                arguments.len() <= max_locals,
                local_vars@.len() == i,
                forall|k: int|
                    0 <= k < i ==> local_vars@[k] == if k < arguments@.len() {
                        arguments@[k]
                    } else {
                        0u32
                    },
            decreases max_locals - i,
        {
            if i < arguments.len() {
                local_vars.push(arguments[i]);
            } else {
                local_vars.push(0);
            }
            i += 1;
        }
        let frame = Frame {
            local_vars,
            op_stack: Vec::new(),
            max_stack: max_stack as usize,
            pc: 0,
            class_index,
            method_index,
        };
        assert(frame@.local_vars =~= spec_entry_frame(
            class_index as nat,
            method_index as nat,
            max_stack,
            max_locals,
            arguments@,
        )->Ok_0.local_vars);
        assert(frame@.op_stack =~= Seq::<u32>::empty());
        Ok(frame)
    }

    /// Pushes `value`, on as many slots as its type takes. Where that would
    /// take the stack past `max_stack`, nothing is pushed.
    pub fn push(&mut self, value: Value) -> (r: Result<(), VmError>)
        ensures
            match r {
                Ok(()) => spec_push(old(self)@, value) == Ok::<FrameView, VmError>(final(self)@),
                Err(e) => spec_push(old(self)@, value) == Err::<FrameView, VmError>(e)
                    && *final(self) == *old(self),
            },
    {
        let width = value.kind().width();
        if self.op_stack.len() > self.max_stack || self.max_stack - self.op_stack.len() < width {
            return Err(VmError::OperandStackOverflow);
        }
        let (first, second) = value.to_slots();
        self.op_stack.push(first);
        if width == 2 {
            self.op_stack.push(second);
        }
        assert(self.op_stack@ =~= old(self).op_stack@ + value_slots(value));
        Ok(())
    }

    /// Pops a value of type `kind`. Where the stack holds fewer slots than
    /// the type takes, nothing is popped.
    pub fn pop(&mut self, kind: VariableType) -> (r: Result<Value, VmError>)
        ensures
            match r {
                Ok(value) => spec_pop(old(self)@, kind) == Ok::<(Value, FrameView), VmError>(
                    (value, final(self)@),
                ),
                Err(e) => spec_pop(old(self)@, kind) == Err::<(Value, FrameView), VmError>(e)
                    && *final(self) == *old(self),
            },
    {
        let width = kind.width();
        let n = self.op_stack.len();
        if n < width {
            return Err(VmError::OperandStackUnderflow);
        }
        let value = if width == 2 {
            kind.from_slots(self.op_stack[n - 2], self.op_stack[n - 1])
        } else {
            kind.from_slots(self.op_stack[n - 1], 0)
        };
        proof {
            let top = old(self).op_stack@.subrange(n - width, n as int);
            if width == 2 {
                assert(top =~= seq![old(self).op_stack@[n - 2], old(self).op_stack@[n - 1]]);
            } else {
                assert(top =~= seq![old(self).op_stack@[n - 1]]);
            }
        }
        self.op_stack.truncate(n - width);
        assert(self.op_stack@ =~= old(self).op_stack@.take(n - width));
        Ok(value)
    }

    /// Reads a value of type `kind` from the local variable `index`.
    pub fn load_local(&self, kind: VariableType, index: usize) -> (r: Result<Value, VmError>)
        ensures
            r == spec_load_local(self@, kind, index as int),
    {
        let width = kind.width();
        let n = self.local_vars.len();
        if index >= n || n - index < width {
            return Err(VmError::LocalVariableOutOfBounds);
        }
        let value = if width == 2 {
            kind.from_slots(self.local_vars[index], self.local_vars[index + 1])
        } else {
            kind.from_slots(self.local_vars[index], 0)
        };
        proof {
            let held = self.local_vars@.subrange(index as int, index + width);
            if width == 2 {
                assert(held =~= seq![self.local_vars@[index as int], self.local_vars@[index + 1]]);
            } else {
                assert(held =~= seq![self.local_vars@[index as int]]);
            }
        }
        Ok(value)
    }

    /// Writes `value` to the local variable `index` and, if it is wide, to the
    /// one after it. Where one of them lies outside the frame, nothing is
    /// written.
    pub fn store_local(&mut self, index: usize, value: Value) -> (r: Result<(), VmError>)
        ensures
            match r {
                Ok(()) => spec_store_local(old(self)@, index as int, value) == Ok::<
                    FrameView,
                    VmError,
                >(final(self)@),
                Err(e) => spec_store_local(old(self)@, index as int, value) == Err::<
                    FrameView,
                    VmError,
                >(e) && *final(self) == *old(self),
            },
    {
        let width = value.kind().width();
        let n = self.local_vars.len();
        if index >= n || n - index < width {
            return Err(VmError::LocalVariableOutOfBounds);
        }
        let (first, second) = value.to_slots();
        self.local_vars.set(index, first);
        if width == 2 {
            self.local_vars.set(index + 1, second);
        }
        assert(self.local_vars@ =~= write_slots(
            old(self).local_vars@,
            index as int,
            value_slots(value),
        ));
        Ok(())
    }
}

} // verus!
