//! Translation of optimized PEG rules into the Yggdrasil grammar IR, and a
//! plain-text rendering of the same rules in Yggdrasil's concrete syntax.

pub mod source;
pub mod ir;
pub mod from_pest;
pub mod from_bnf;
