//! Typed CSS property declarations: a closed registry of longhand and
//! shorthand properties, the resolution of one raw declaration against it,
//! and the assembly of a declaration list into a block that is split by
//! importance and keeps, for each property, its last declaration.

pub mod bitfield;
pub mod block;
pub mod declaration;
pub mod errors;
pub mod lazy;
pub mod list;
pub mod names;
pub mod registry;
pub mod syntax;
pub mod values;

pub use block::{dummy, PropertyDeclarationBlock};
pub use declaration::{
    parse_property_declaration, PropertyDeclaration, PropertyDeclarationParseResult,
};
pub use list::parse_property_declaration_list;
pub use names::expand_ident_to_css_name;
pub use values::DeclaredValue;
