//! A language server for Mojom, the interface-definition language: the
//! grammar and the declaration tree, the queries over a document and the
//! files it imports, and the decisions of the JSON-RPC server around them.
//!
//! The library reads and writes no files and no streams. A program around
//! it hands it the text of documents and the members of messages, and
//! carries out what it decides.
pub mod definition;
pub mod diagnostic;
pub mod error;
pub mod grammar;
pub mod identifier;
pub mod imported_files;
pub mod initialization;
pub mod lexer;
pub mod lsp;
pub mod mojomast;
pub mod parser;
pub mod protocol;
pub mod semantic;
pub mod server;
pub mod syntax;
pub mod text;
pub mod traverse;
pub mod typespec;

pub use crate::error::{line_col, Error, LineCol};
pub use crate::parser::parse;
pub use crate::syntax::{
    Const, Enum, EnumValue, Import, Interface, InterfaceMember, Method, Module, MojomFile,
    Parameter, Range, Response, Statement, Struct, StructBody, StructField, Union, UnionField,
};
pub use crate::traverse::{preorder, Preorder, Traversal};
pub use crate::typespec::{typespec, TypeName, TypeSpec};
