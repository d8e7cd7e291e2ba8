//! An embeddable expression evaluator for a small, spreadsheet-flavoured
//! language.
//!
//! Text is parsed into a syntax tree (`parser`), function names are bound
//! to built-ins (`syntax`), and the tree is evaluated against a map of
//! identifier values (`functions`). The built-ins rest on kernels with
//! exact contracts: text slicing and case (`text`), `LIKE` patterns
//! (`like`, `matching`), dates (`dates`, `zones`, `dotnet`) and integer
//! text (`numbers`, `numtext`).
//!
//! Numbers are a type parameter of evaluation (`value::Number`): the
//! library decides when and with what numbers are computed, and the host
//! supplies the arithmetic itself.

pub mod strings;
pub mod numtext;
pub mod numbers;
pub mod text;
pub mod like;
pub mod matching;
pub mod dotnet;
pub mod zones;
pub mod dates;
pub mod syntax;
pub mod render;
pub mod roundtrip;
pub mod parser;
pub mod value;
pub mod arity;
pub mod functions;
pub mod semantics;
