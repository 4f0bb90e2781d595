//! The two error types of the library.

use vstd::prelude::*;

verus! {

/// The constant-pool variants that a resolution can ask for.
#[derive(Clone, Copy, Debug, PartialEq, Eq, Structural)]
pub enum ConstantKind {
    Utf8,
    Class,
    NameAndType,
    MethodRef,
}

/// Why a byte buffer is not a class file. Every one of these ends the load:
/// no partial class is ever produced.
#[derive(Clone, Copy, Debug, PartialEq, Eq, Structural)]
pub enum ClassFormatError {
    /// The first four bytes are not `0xCAFEBABE`.
    InvalidMagic,
    /// A constant-pool entry starts with a tag outside the known table.
    UnsupportedConstantTag(u8),
    /// The bytes of a `Utf8` constant are not well-formed UTF-8.
    InvalidUtf8,
    /// The entry at `index` is not of the `expected` variant (or `index` names
    /// no usable entry at all).
    ConstantPoolTypeMismatch { expected: ConstantKind, index: u16 },
    /// A known attribute's decoder did not consume exactly the declared length.
    AttributeLengthMismatch,
    /// A read asked for more bytes than the buffer has left.
    UnexpectedEof,
    /// `this_class` or a nonzero `super_class` is not the index of a `Class` entry.
    InvalidThisOrSuperClass,
}

/// Why an invocation stopped without a result. A fault ends the whole chain of
/// nested invocations; the virtual machine itself stays usable.
#[derive(Clone, Copy, Debug, PartialEq, Eq, Structural)]
pub enum VmError {
    /// No method of that name and descriptor in the class or its ancestors.
    MethodNotFound,
    /// The byte is no opcode of the instruction table.
    UnsupportedOpcode(u8),
    /// A push would take the operand stack past the method's `max_stack`.
    OperandStackOverflow,
    /// A pop asked for more slots than the operand stack holds.
    OperandStackUnderflow,
    /// A local variable, or the second slot of a wide one, lies past the
    /// method's `max_locals`.
    LocalVariableOutOfBounds,
    /// The operands of an instruction, or the target of a branch, lie outside
    /// the method's code.
    CodeOutOfBounds,
    /// The method has no `Code` attribute, so there is nothing to run.
    MissingCode,
    /// The method reference of an invocation does not resolve in the pool.
    UnresolvedReference(ClassFormatError),
    /// The descriptor of an invoked method does not say how many arguments
    /// it takes.
    InvalidDescriptor,
    /// The chain of nested invocations is deeper than the machine allows.
    FrameStackOverflow,
    /// The invocation took more steps than the machine allows.
    StepLimitExceeded,
}

} // verus!
