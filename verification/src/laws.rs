//! Laws: what holds of the library for all inputs, proved from the
//! definitions that the contracts of its functions use.

pub mod expander;
pub mod instances;
pub mod numbers;
pub mod references;
pub mod templates;
pub mod tokenizer;
