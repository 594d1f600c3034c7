//! A reusable front for the parsing algorithm.

use vstd::prelude::*;

use crate::arguments::Arguments;
use crate::model::ArgsModel;
use crate::model::Error;
use crate::model::parse_tokens;

verus! {

/// A parser for command-line arguments.
pub struct Parser {
    private: (),
}

impl Parser {
    /// Create a new parser.
    pub fn new() -> Parser {
        Parser { private: () }
    }

    /// Parse command-line arguments.
    pub fn parse(&self, tokens: Vec<String>) -> (r: Result<Arguments, Error>)
        ensures
            match r {
                Ok(arguments) => parse_tokens(tokens.deep_view()) == Ok::<ArgsModel, Error>(
                    arguments@,
                ),
                Err(e) => parse_tokens(tokens.deep_view()) == Err::<ArgsModel, Error>(e),
            },
    {
        Arguments::parse(tokens)
    }
}

} // verus!
