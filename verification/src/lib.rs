//! A safety and marshalling layer for hook programs that run inside a
//! deterministic, resource-bounded ledger sandbox.
//!
//! The sandbox exposes its capabilities through a flat, positional calling
//! convention: every host routine takes plain integers (scalars, or
//! pointer/length pairs naming byte buffers) and answers with one signed
//! 64-bit return code.  This crate holds the verified part of the layer:
//! the shared error taxonomy and the classification of raw return codes,
//! the loop-guard protocol that makes bounded iteration checkable, the
//! fixed-width buffer helpers, the native-amount codec, the keylet request
//! builder, and the packed decimal float type with its wire codec.  The
//! thin unverified shim that actually crosses into the sandbox performs
//! the calls these modules decide and interpret.

pub mod abi;
pub mod error;
pub mod result;
pub mod guard;
pub mod helpers;
pub mod keylet;
pub mod float;
