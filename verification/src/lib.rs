//! Parser for command-line arguments.
//!
//! A token stream such as `foo --no-bar --baz 42 --baz 69 --qux hello` is
//! turned into an [`Arguments`] value: the program name `foo`, a table of
//! named options (`bar` is `false`, `baz` is `42` then `69`, `qux` is
//! `hello`), and the list of tokens that were neither a flag nor a flag's
//! value. The typed accessors [`Arguments::get`] and [`Arguments::get_all`]
//! then convert the stored text on demand.

use vstd::prelude::*;

pub mod arguments;
pub mod convert;
pub mod laws;
pub mod model;
pub mod parser;
pub mod store;

verus! {

pub use crate::arguments::Arguments;
pub use crate::convert::FromText;
pub use crate::model::Error;
pub use crate::parser::Parser;
pub use options::Options;

/// Parse command-line arguments.
pub fn parse(tokens: Vec<String>) -> (r: Result<Arguments, Error>)
    ensures
        match r {
            Ok(arguments) => crate::model::parse_tokens(tokens.deep_view())
                == Ok::<crate::model::ArgsModel, Error>(arguments@),
            Err(e) => crate::model::parse_tokens(tokens.deep_view())
                == Err::<crate::model::ArgsModel, Error>(e),
        },
{
    Arguments::parse(tokens)
}

} // verus!
