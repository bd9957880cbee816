//! A command-line argument tokenizer with a caller-declared schema.
//!
//! A caller first declares which option names exist and what type of value
//! each takes ([`ArgTypes`]), then hands [`parse_arguments`] the raw tokens.
//! The result is the list of typed arguments in the order in which they were
//! met, or the first error.
//!
//! Every executable function carries a contract over a mathematical model:
//! a token is a sequence of characters, the schema is a map from names to
//! types, and [`parser::parse_spec`] says what a sequence of tokens means.
//! The module [`laws`] proves what follows from that model for all inputs.

pub mod error;
pub mod laws;
pub mod parser;
pub mod schema;
pub mod text;
pub mod token;
pub mod value;

pub use error::ArgError;
pub use parser::{
    parse_arguments, parse_embedded_arg, parse_isolated_arg, parse_single_argument, Argument,
};
pub use schema::{
    construct_arg_name, construct_arg_tuple, construct_arg_type, get_arg_type,
    initialize_arg_types_hashmap, insert_argument_type, ArgName, ArgTypes,
};
pub use token::{is_embedded_arg, remove_leading_dashes};
pub use value::{construct_arg_val, ArgType, ArgVal};
