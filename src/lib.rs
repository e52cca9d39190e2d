//! A verified model of the multi-table STARK proving pipeline of a
//! zero-knowledge virtual machine, together with the bytecode encoding of the
//! programs whose execution it proves.

pub mod field;
pub mod util;
pub mod stark;
pub mod constraint;
pub mod table;
pub mod grand_product;
pub mod quotient;
pub mod transcript;
pub mod bundle;
pub mod cfft;
pub mod vm;
pub mod hex;
pub mod binary_program;
pub mod lookup;
pub mod prover;
pub mod challenger;
pub mod session;
