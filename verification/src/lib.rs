//! Conversion of TypeScript declarations into Artel API definitions.

pub mod text;
pub mod artel_str;
pub mod ast_type;
pub mod identifier;
pub mod enum_declaration;
pub mod lexical_declaration;
pub mod type_alias_declaration;
pub mod interface_declaration;
pub mod class_declaration;
pub mod statement;
pub mod syntax;
pub mod parse_type;
pub mod convert_tree_walk;
pub mod source_tree;

pub use convert_tree_walk::{parse_statement, walk_tree};
pub use source_tree::convert_ts;
pub use statement::create_artel_code;
