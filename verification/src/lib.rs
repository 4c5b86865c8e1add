//! Decoder for the 8086 `mov` instruction family.
//!
//! A byte buffer of machine code is read through a [`Cursor`], one
//! [`Instruction`] at a time, and every instruction is rendered as one line
//! of assembly text. [`disassemble`] does the whole run; [`encode`] goes
//! back from an instruction to its bytes.
//!
//! Each function states what it computes over plain sequences of bytes and
//! characters, and the modules `encoding` and `reading` prove what ties
//! the bytes, the instructions and the lines together.
pub mod address;
pub mod cursor;
pub mod decimal;
pub mod decoder;
pub mod encoding;
pub mod error;
pub mod fields;
pub mod instruction;
pub mod listing;
pub mod reading;
pub mod register;
pub mod render;

pub use address::resolve_address;
pub use cursor::Cursor;
pub use decoder::decode_instruction;
pub use encoding::encode;
pub use error::DecodeError;
pub use fields::ModRm;
pub use instruction::{Base, Displacement, EffectiveAddress, Instruction, Mnemonic, Operand};
pub use listing::disassemble;
pub use register::{register_for, Register, Width};
pub use render::render;
