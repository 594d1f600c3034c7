//! The parsed command line and its typed accessors.

use vstd::prelude::*;
use vstd::string::StrSliceExecFns;
use vstd::string::StringExecFns;

use crate::convert::FromText;
use crate::model::ArgsModel;
use crate::model::Error;
use crate::model::finalize;
use crate::model::is_flag;
use crate::model::is_negated;
use crate::model::parse_tokens;
use crate::model::parse_from;
use crate::store::empty_store;
use crate::store::store_append;
use crate::store::store_get;
use crate::store::stored_options;

verus! {

/// Command-line arguments.
#[derive(Debug)]
pub struct Arguments {
    /// The name of the executable.
    pub program: String,
    /// Raw options (all strings).
    pub options: options::Options,
    /// Unclassified arguments.
    pub orphans: Vec<String>,
}

impl View for Arguments {
    type V = ArgsModel;

    open spec fn view(&self) -> ArgsModel {
        ArgsModel {
            program: self.program@,
            options: stored_options(self.options),
            orphans: self.orphans.deep_view(),
        }
    }
}

/// Whether `t` begins with the flag prefix `--`.
fn has_flag_prefix(t: &str) -> (r: bool)
    ensures
        r == is_flag(t@),
{
    let n = t.unicode_len();
    n >= 2 && t.get_char(0) == '-' && t.get_char(1) == '-'
}

/// Record a pending flag that received no value: `--no-x` stores `"false"`
/// under `x`, any other `--x` stores `"true"` under `x`.
fn finalize_pending(o: &mut options::Options, name: &str) -> (r: Result<(), Error>)
    ensures
        match (r, finalize(stored_options(*old(o)), name@)) {
            (Ok(()), Ok(table)) => stored_options(*final(o)) == table,
            (Err(actual), Err(expected)) => actual == expected && stored_options(*final(o))
                == stored_options(*old(o)),
            _ => false,
        },
{
    let n = name.unicode_len();
    let negated = n >= 3 && name.get_char(0) == 'n' && name.get_char(1) == 'o' && name.get_char(2)
        == '-';
    proof {
        reveal_strlit("no-");
        if negated {
            assert(name@.take(3) =~= "no-"@);
        }
        if is_negated(name@) {
            assert(name@[0] == name@.take(3)[0]);
            assert(name@[1] == name@.take(3)[1]);
            assert(name@[2] == name@.take(3)[2]);
        }
        assert(negated == is_negated(name@));
    }
    if negated {
        if n == 3 {
            return Err(Error::EmptyNegatedFlagName);
        }
        let rest = name.substring_char(3, n);
        proof {
            assert(rest@ =~= name@.skip(3));
        }
        store_append(o, rest, String::from_str("false"));
        Ok(())
    } else {
        store_append(o, name, String::from_str("true"));
        Ok(())
    }
}

/// The flag name still waiting for a value, as the model sees it.
spec fn pending_view(pending: Option<String>) -> Option<Seq<char>> {
    match pending {
        Some(name) => Some(name@),
        None => None,
    }
}

impl Arguments {
    /// Parse command-line arguments.
    pub fn parse(tokens: Vec<String>) -> (r: Result<Arguments, Error>)
        ensures
            match r {
                Ok(arguments) => parse_tokens(tokens.deep_view()) == Ok::<ArgsModel, Error>(
                    arguments@,
                ),
                Err(e) => parse_tokens(tokens.deep_view()) == Err::<ArgsModel, Error>(e),
            },
    {
        let ghost toks = tokens.deep_view();
        if tokens.len() == 0 {
            return Err(Error::MissingProgram);
        }
        let first = &tokens[0];
        if has_flag_prefix(first.as_str()) {
            return Err(Error::MissingProgram);
        }
        let program = first.clone();
        let mut options = empty_store();
        let mut orphans: Vec<String> = Vec::new();
        let mut pending: Option<String> = None;
        let mut i: usize = 1;
        proof {
            assert(stored_options(options) =~= Map::<Seq<char>, Seq<Seq<char>>>::empty());
            assert(orphans.deep_view() =~= Seq::<Seq<char>>::empty());
            assert(ArgsModel {
                program: program@,
                options: stored_options(options),
                orphans: orphans.deep_view(),
            } =~= ArgsModel { program: toks[0], options: Map::empty(), orphans: Seq::empty() });
        }
        while i < tokens.len()
            invariant
                1 <= i <= tokens.len(),
                toks == tokens.deep_view(),
                toks.len() == tokens@.len(),
                parse_tokens(toks) == parse_from(
                    ArgsModel {
                        program: program@,
                        options: stored_options(options),
                        orphans: orphans.deep_view(),
                    },
                    pending_view(pending),
                    toks.skip(i as int),
                ),
            decreases tokens.len() - i,
        {
            let ghost rest = toks.skip(i as int);
            let chunk = &tokens[i];
            proof {
                assert(rest[0] == toks[i as int]);
                assert(toks[i as int] == chunk.deep_view());
                assert(rest.skip(1) =~= toks.skip(i as int + 1));
            }
            if has_flag_prefix(chunk.as_str()) {
                match pending {
                    Some(name) => {
                        match finalize_pending(&mut options, name.as_str()) {
                            Ok(()) => {}
                            Err(e) => {
                                return Err(e);
                            }
                        }
                    }
                    None => {}
                }
                let n = chunk.unicode_len();
                if n == 2 {
                    return Err(Error::EmptyFlagName);
                }
                let flag = chunk.substring_char(2, n);
                proof {
                    assert(flag@ =~= chunk@.skip(2));
                }
                pending = Some(String::from_str(flag));
            } else {
                match pending {
                    Some(name) => {
                        store_append(&mut options, name.as_str(), chunk.clone());
                        pending = None;
                    }
                    None => {
                        let ghost before = orphans.deep_view();
                        orphans.push(chunk.clone());
                        proof {
                            assert(orphans.deep_view() =~= before.push(chunk.deep_view()));
                        }
                        pending = None;
                    }
                }
            }
            i += 1;
        }
        match pending {
            Some(name) => {
                match finalize_pending(&mut options, name.as_str()) {
                    Ok(()) => {}
                    Err(e) => {
                        return Err(e);
                    }
                }
            }
            None => {}
        }
        let arguments = Arguments { program, options, orphans };
        Ok(arguments)
    }
}

impl Arguments {
    /// Get the last value of an option (if present) converted to a specific
    /// type (if possible).
    pub fn get<T: FromText>(&self, name: &str) -> (r: Option<T>)
        ensures
            r is Some <==> (self@.options.contains_key(name@) && self@.options[name@].len() > 0
                && T::text_parses(self@.options[name@].last())),
            r matches Some(v) ==> T::text_holds(self@.options[name@].last(), v),
    {
        match store_get(&self.options, name) {
            None => None,
            Some(values) => {
                if values.len() == 0 {
                    None
                } else {
                    let last = &values[values.len() - 1];
                    proof {
                        assert(values.deep_view()[values@.len() - 1] == last.deep_view());
                    }
                    T::from_text(last.as_str())
                }
            },
        }
    }

    /// Get all values of an option (if present) converted to a specific
    /// type (if possible).
    pub fn get_all<T: FromText>(&self, name: &str) -> (r: Option<Vec<T>>)
        ensures
            r is Some <==> (self@.options.contains_key(name@) && (forall|j: int|
                0 <= j < self@.options[name@].len() ==> T::text_parses(self@.options[name@][j]))),
            r matches Some(v) ==> (v@.len() == self@.options[name@].len() && (forall|j: int|
                0 <= j < v@.len() ==> T::text_holds(self@.options[name@][j], v@[j]))),
    {
        let values = match store_get(&self.options, name) {
            None => {
                return None;
            },
            Some(values) => values,
        };
        let ghost stored = self@.options[name@];
        let mut parsed: Vec<T> = Vec::new();
        let mut i: usize = 0;
        while i < values.len()
            invariant
                i <= values.len(),
                self@.options.contains_key(name@),
                values.deep_view() == stored,
                stored == self@.options[name@],
                stored.len() == values@.len(),
                parsed@.len() == i,
                forall|j: int| 0 <= j < i ==> T::text_parses(stored[j]),
                forall|j: int| 0 <= j < i ==> T::text_holds(stored[j], parsed@[j]),
            decreases values.len() - i,
        {
            proof {
                assert(values.deep_view()[i as int] == values@[i as int].deep_view());
            }
            match T::from_text(values[i].as_str()) {
                Some(v) => {
                    parsed.push(v);
                },
                None => {
                    return None;
                },
            }
            i += 1;
        }
        Some(parsed)
    }
}

} // verus!
