//! A loader for JVM class files and a small stack-based virtual machine that
//! runs their bytecode.
//!
//! The loader ([`class::loading`]) turns an untrusted byte buffer into a
//! [`class::ClassFile`], or says why the bytes are none. Its contracts are
//! stated against the functions of [`class::format`], which describe the
//! binary format over a sequence of bytes; [`class::prefix`] proves what
//! these make of a class file that was cut off.
//!
//! A loaded class becomes a [`model::Class`], with its names resolved through
//! the constant pool ([`constant_pool`]). The virtual machine ([`vm`]) runs the
//! methods of such classes on frames ([`frame`]), one instruction at a time
//! ([`interp`]). Its contracts are stated against the functions of
//! [`machine`], which say what a step and a run of the machine are.
//!
//! No function of the library panics on any input; what is malformed comes
//! back as a [`error::ClassFormatError`] or a [`error::VmError`].

pub mod attr;
pub mod class;
pub mod constant_pool;
pub mod descriptor;
pub mod error;
pub mod field;
pub mod frame;
pub mod interp;
pub mod machine;
pub mod method;
pub mod model;
pub mod util;
pub mod vm;
