//! ABI-lowering layer for a small compiler back end.
//!
//! This crate decides how a source language's abstract values — integers,
//! named aggregates, tagged unions and closures — are mapped onto the
//! primitive scalar/pointer vocabulary of a low-level code generator:
//! when an aggregate travels in registers versus behind a pointer, how a
//! tagged union's payload is encoded so all variants share one size, and
//! how closure captures are type-erased behind a data pointer.
//!
//! The layout and calling-convention decisions are proved against a
//! mathematical model of the type table; the instruction-emission backend
//! is driven through a small trusted boundary.

pub mod aligned;
pub mod backend;
pub mod closure;
pub mod lower;
pub mod sig;
pub mod types;
pub mod union;
pub mod value;
