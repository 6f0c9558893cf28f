//! The intermediate representation that the parser produces and the
//! backends consume.

pub mod ast;
