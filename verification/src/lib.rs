//! A verified toolchain for a small register-based virtual machine:
//! a textual assembly language is tokenized, syntax-checked, assembled
//! into a flat little-endian bytecode image, and executed by an
//! interpreter that performs console I/O through a dedicated register.

pub mod assembler;
pub mod encoding;
pub mod lang;
pub mod numerals;
pub mod syntax;
pub mod tokenizer;
pub mod vm;
