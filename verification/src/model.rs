//! The mathematical account of the token grammar: what a finished parse
//! holds, and how each token moves the parser forward.

use vstd::prelude::*;

verus! {

/// The ways in which parsing a token stream can fail.
#[derive(Debug, Clone, Copy, PartialEq, Eq)]
pub enum Error {
    /// The stream is empty, or its first token looks like a flag.
    MissingProgram,
    /// A token is exactly `--`, leaving a flag without a name.
    EmptyFlagName,
    /// A flag is exactly `--no-`, leaving a negated flag without a name.
    EmptyNegatedFlagName,
}

impl Error {
    /// The text that describes this failure.
    pub open spec fn message_spec(self) -> Seq<char> {
        match self {
            Error::MissingProgram => "expected a name as the first argument"@,
            Error::EmptyFlagName => "expected a name right after \"--\""@,
            Error::EmptyNegatedFlagName => "expected a name right after \"--no-\""@,
        }
    }

    /// A human-readable description of the failure.
    pub fn message(&self) -> (r: &'static str)
        ensures
            r@ == self.message_spec(),
    {
        match self {
            Error::MissingProgram => "expected a name as the first argument",
            Error::EmptyFlagName => "expected a name right after \"--\"",
            Error::EmptyNegatedFlagName => "expected a name right after \"--no-\"",
        }
    }
}

/// The table of named options: each name maps to the values it received, in
/// the order they were received.
pub type OptionTable = Map<Seq<char>, Seq<Seq<char>>>;

/// The mathematical content of a parsed command line.
#[verifier::ext_equal]
pub ghost struct ArgsModel {
    /// The name of the executable: the first token.
    pub program: Seq<char>,
    /// The named options and their values.
    pub options: OptionTable,
    /// The tokens consumed neither as a flag name nor as a flag's value.
    pub orphans: Seq<Seq<char>>,
}

/// Whether a token begins with the flag prefix `--`.
pub open spec fn is_flag(t: Seq<char>) -> bool {
    t.len() >= 2 && t[0] == '-' && t[1] == '-'
}

/// Whether a flag name begins with the negation prefix `no-`.
pub open spec fn is_negated(name: Seq<char>) -> bool {
    name.len() >= 3 && name.take(3) == "no-"@
}

/// Append `value` under `name`, creating the entry if it is absent.
pub open spec fn append_value(table: OptionTable, name: Seq<char>, value: Seq<char>) -> OptionTable {
    if table.contains_key(name) {
        table.insert(name, table[name].push(value))
    } else {
        table.insert(name, seq![value])
    }
}

/// Record a pending flag that received no value: `--no-x` stores `"false"`
/// under `x`, while any other `--x` stores `"true"` under `x`. A bare
/// negation prefix has no name left and is an error.
pub open spec fn finalize(table: OptionTable, name: Seq<char>) -> Result<OptionTable, Error> {
    if is_negated(name) {
        if name.len() == 3 {
            Err(Error::EmptyNegatedFlagName)
        } else {
            Ok(append_value(table, name.skip(3), "false"@))
        }
    } else {
        Ok(append_value(table, name, "true"@))
    }
}

/// Record a pending flag on the whole model.
pub open spec fn finalize_model(m: ArgsModel, name: Seq<char>) -> Result<ArgsModel, Error> {
    match finalize(m.options, name) {
        Ok(table) => Ok(ArgsModel { options: table, ..m }),
        Err(e) => Err(e),
    }
}

/// Run the parser over the tokens of `rest`, starting from the state `m`
/// with the flag name `pending` still waiting for a value.
pub open spec fn parse_from(
    m: ArgsModel,
    pending: Option<Seq<char>>,
    rest: Seq<Seq<char>>,
) -> Result<ArgsModel, Error>
    decreases rest.len(),
{
    if rest.len() == 0 {
        match pending {
            Some(name) => finalize_model(m, name),
            None => Ok(m),
        }
    } else {
        let t = rest[0];
        if is_flag(t) {
            let settled = match pending {
                Some(name) => finalize_model(m, name),
                None => Ok(m),
            };
            match settled {
                Ok(m1) => if t.len() == 2 {
                    Err(Error::EmptyFlagName)
                } else {
                    parse_from(m1, Some(t.skip(2)), rest.skip(1))
                },
                Err(e) => Err(e),
            }
        } else {
            match pending {
                Some(name) => parse_from(
                    ArgsModel { options: append_value(m.options, name, t), ..m },
                    None,
                    rest.skip(1),
                ),
                None => parse_from(
                    ArgsModel { orphans: m.orphans.push(t), ..m },
                    None,
                    rest.skip(1),
                ),
            }
        }
    }
}

/// What parsing an entire token stream yields: the first token names the
/// program, and the remaining tokens are folded through `parse_from`.
pub open spec fn parse_tokens(tokens: Seq<Seq<char>>) -> Result<ArgsModel, Error> {
    if tokens.len() == 0 || is_flag(tokens[0]) {
        Err(Error::MissingProgram)
    } else {
        parse_from(
            ArgsModel { program: tokens[0], options: Map::empty(), orphans: Seq::empty() },
            None,
            tokens.skip(1),
        )
    }
}

} // verus!
