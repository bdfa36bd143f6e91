//! From Avro IDL to an Avro protocol document.
//!
//! A text is read by the grammar into a raw tree ([`grammar`], [`reader`]);
//! the lexer works the imported files in ([`lexer`]); linking turns every
//! reference into a reference to a declared record or enum ([`linker`]); and
//! the linked tree is rendered as a document ([`serializer`], [`json`]).
//! [`shape`] and [`forms`] state what holds of every tree that the grammar
//! gives and what it reads from the written forms of a field.
//!
//! Nothing here reads or writes a file: texts come in as values and the
//! document goes out as a value.

pub mod ast;
pub mod error;
pub mod forms;
pub mod grammar;
pub mod json;
pub mod lexer;
pub mod linker;
pub mod reader;
pub mod runner;
pub mod scan;
pub mod serializer;
pub mod shape;
