//! Sub-struct generation: from a struct with named fields and a directive that
//! names a target and a set of fields to remove or to retain, a second struct
//! that holds the chosen fields in their declared order.
//!
//! [`sub_struct`] expands a directive on tokens. [`expand`] does the same on
//! syntax trees and says what was wrong where it fails. [`parse_args`] and
//! [`select_fields`] hold the rules themselves, on plain values.

pub mod directive;
pub mod error;
pub mod generate;
pub mod laws;
pub mod selection;
pub mod syntax;

pub use directive::{parse_args, Arg, ArgValue, Strategy, SubStructAttributes};
pub use error::{Anchor, ListKind, SubStructError};
pub use generate::{expand, parse_sub_struct_args, sub_struct, synthesize, synthesize_with_ident};
pub use selection::select_fields;
