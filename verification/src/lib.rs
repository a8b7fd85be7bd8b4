//! Generates typed TypeScript wrapper classes for smart-contract ABIs.
//!
//! The crate has three layers: `parser` holds the intermediate
//! representation of a decoded ABI, `ts` is a staged text builder that
//! assembles syntactically valid TypeScript fragments, and `code_emitter`
//! walks a contract's ABI and drives the builder to produce one wrapper
//! class per contract plus a shared capability interface.

pub mod code_emitter;
pub mod parser;
pub mod text;
pub mod ts;
