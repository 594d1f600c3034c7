//! Properties of the token grammar that hold of every input: how the
//! program name, the error cases, trailing flags and the orphan order
//! behave.

use vstd::prelude::*;

use crate::model::ArgsModel;
use crate::model::Error;
use crate::model::append_value;
use crate::model::finalize_model;
use crate::model::is_flag;
use crate::model::is_negated;
use crate::model::parse_from;
use crate::model::parse_tokens;

verus! {

proof fn lemma_parse_from_program(m: ArgsModel, pending: Option<Seq<char>>, rest: Seq<Seq<char>>)
    requires
        parse_from(m, pending, rest) is Ok,
    ensures
        parse_from(m, pending, rest)->Ok_0.program == m.program,
    decreases rest.len(),
{
    if rest.len() == 0 {
    } else {
        let t = rest[0];
        if is_flag(t) {
            let settled = match pending {
                Some(name) => finalize_model(m, name),
                None => Ok(m),
            };
            if settled is Ok && t.len() != 2 {
                lemma_parse_from_program(settled->Ok_0, Some(t.skip(2)), rest.skip(1));
            }
        } else {
            match pending {
                Some(name) => {
                    lemma_parse_from_program(
                        ArgsModel { options: append_value(m.options, name, t), ..m },
                        None,
                        rest.skip(1),
                    );
                },
                None => {
                    lemma_parse_from_program(
                        ArgsModel { orphans: m.orphans.push(t), ..m },
                        None,
                        rest.skip(1),
                    );
                },
            }
        }
    }
}

/// The program name is the first token: a stream parses successfully only
/// if it is non-empty and its first token is no flag, and the `program` of
/// the result is then exactly that first token.
pub proof fn lemma_program_is_first_token(tokens: Seq<Seq<char>>)
    requires
        parse_tokens(tokens) is Ok,
    ensures
        tokens.len() > 0,
        !is_flag(tokens[0]),
        parse_tokens(tokens)->Ok_0.program == tokens[0],
{
    lemma_parse_from_program(
        ArgsModel { program: tokens[0], options: Map::empty(), orphans: Seq::empty() },
        None,
        tokens.skip(1),
    );
}

proof fn lemma_parse_from_not_missing(
    m: ArgsModel,
    pending: Option<Seq<char>>,
    rest: Seq<Seq<char>>,
)
    ensures
        parse_from(m, pending, rest) != Err::<ArgsModel, Error>(Error::MissingProgram),
    decreases rest.len(),
{
    if rest.len() == 0 {
    } else {
        let t = rest[0];
        if is_flag(t) {
            let settled = match pending {
                Some(name) => finalize_model(m, name),
                None => Ok(m),
            };
            if settled is Ok && t.len() != 2 {
                lemma_parse_from_not_missing(settled->Ok_0, Some(t.skip(2)), rest.skip(1));
            }
        } else {
            match pending {
                Some(name) => {
                    lemma_parse_from_not_missing(
                        ArgsModel { options: append_value(m.options, name, t), ..m },
                        None,
                        rest.skip(1),
                    );
                },
                None => {
                    lemma_parse_from_not_missing(
                        ArgsModel { orphans: m.orphans.push(t), ..m },
                        None,
                        rest.skip(1),
                    );
                },
            }
        }
    }
}

/// `MissingProgram` appears exactly on an empty stream, or on one whose
/// first token looks like a flag; no later token ever causes it.
pub proof fn lemma_missing_program(tokens: Seq<Seq<char>>)
    ensures
        parse_tokens(tokens) == Err::<ArgsModel, Error>(Error::MissingProgram) <==> (tokens.len()
            == 0 || is_flag(tokens[0])),
{
    if !(tokens.len() == 0 || is_flag(tokens[0])) {
        lemma_parse_from_not_missing(
            ArgsModel { program: tokens[0], options: Map::empty(), orphans: Seq::empty() },
            None,
            tokens.skip(1),
        );
    }
}

proof fn lemma_parse_from_push_flag(
    m: ArgsModel,
    pending: Option<Seq<char>>,
    rest: Seq<Seq<char>>,
    t: Seq<char>,
)
    requires
        is_flag(t),
    ensures
        parse_from(m, pending, rest.push(t)) == (match parse_from(m, pending, rest) {
            Ok(m1) => if t.len() == 2 {
                Err::<ArgsModel, Error>(Error::EmptyFlagName)
            } else {
                finalize_model(m1, t.skip(2))
            },
            Err(e) => Err(e),
        }),
    decreases rest.len(),
{
    reveal_with_fuel(parse_from, 3);
    if rest.len() == 0 {
        assert(rest.push(t)[0] == t);
        assert(rest.push(t).skip(1).len() == 0);
    } else {
        assert(rest.push(t)[0] == rest[0]);
        assert(rest.push(t).skip(1) =~= rest.skip(1).push(t));
        let head = rest[0];
        if is_flag(head) {
            let settled = match pending {
                Some(name) => finalize_model(m, name),
                None => Ok(m),
            };
            if settled is Ok && head.len() != 2 {
                lemma_parse_from_push_flag(
                    settled->Ok_0,
                    Some(head.skip(2)),
                    rest.skip(1),
                    t,
                );
            }
        } else {
            match pending {
                Some(name) => {
                    lemma_parse_from_push_flag(
                        ArgsModel { options: append_value(m.options, name, head), ..m },
                        None,
                        rest.skip(1),
                        t,
                    );
                },
                None => {
                    lemma_parse_from_push_flag(
                        ArgsModel { orphans: m.orphans.push(head), ..m },
                        None,
                        rest.skip(1),
                        t,
                    );
                },
            }
        }
    }
}

/// A bare `--` is rejected with `EmptyFlagName`: appending the token `--`
/// to a stream that parses successfully fails the whole parse.
pub proof fn lemma_bare_double_dash_rejected(tokens: Seq<Seq<char>>)
    requires
        parse_tokens(tokens) is Ok,
    ensures
        parse_tokens(tokens.push("--"@)) == Err::<ArgsModel, Error>(Error::EmptyFlagName),
{
    reveal_strlit("--");
    let t = "--"@;
    assert(is_flag(t));
    assert(tokens.push(t)[0] == tokens[0]);
    assert(tokens.push(t).skip(1) =~= tokens.skip(1).push(t));
    lemma_parse_from_push_flag(
        ArgsModel { program: tokens[0], options: Map::empty(), orphans: Seq::empty() },
        None,
        tokens.skip(1),
        t,
    );
}

/// A trailing flag with no value reads as `true`: appending `--name` to a
/// stream that parses successfully appends the value `"true"` under
/// `name`, for every non-empty `name` without the negation prefix.
pub proof fn lemma_trailing_flag_true(tokens: Seq<Seq<char>>, name: Seq<char>)
    requires
        parse_tokens(tokens) is Ok,
        name.len() > 0,
        !is_negated(name),
    ensures
        parse_tokens(tokens.push("--"@ + name)) == Ok::<ArgsModel, Error>(ArgsModel {
            options: append_value(parse_tokens(tokens)->Ok_0.options, name, "true"@),
            ..parse_tokens(tokens)->Ok_0
        }),
{
    reveal_strlit("--");
    let t = "--"@ + name;
    assert(t[0] == '-' && t[1] == '-');
    assert(is_flag(t));
    assert(t.len() == 2 + name.len());
    assert(t.skip(2) =~= name);
    assert(tokens.push(t)[0] == tokens[0]);
    assert(tokens.push(t).skip(1) =~= tokens.skip(1).push(t));
    lemma_parse_from_push_flag(
        ArgsModel { program: tokens[0], options: Map::empty(), orphans: Seq::empty() },
        None,
        tokens.skip(1),
        t,
    );
}

/// A trailing negated flag reads as `false`: appending `--no-name` to a
/// stream that parses successfully appends the value `"false"` under
/// `name`, for every non-empty `name`.
pub proof fn lemma_trailing_negated_flag_false(tokens: Seq<Seq<char>>, name: Seq<char>)
    requires
        parse_tokens(tokens) is Ok,
        name.len() > 0,
    ensures
        parse_tokens(tokens.push("--no-"@ + name)) == Ok::<ArgsModel, Error>(ArgsModel {
            options: append_value(parse_tokens(tokens)->Ok_0.options, name, "false"@),
            ..parse_tokens(tokens)->Ok_0
        }),
{
    reveal_strlit("--no-");
    reveal_strlit("no-");
    let t = "--no-"@ + name;
    assert(t[0] == '-' && t[1] == '-');
    assert(is_flag(t));
    assert(t.len() == 5 + name.len());
    let stripped = t.skip(2);
    assert(stripped.take(3) =~= "no-"@);
    assert(is_negated(stripped));
    assert(stripped.len() > 3);
    assert(stripped.skip(3) =~= name);
    assert(tokens.push(t)[0] == tokens[0]);
    assert(tokens.push(t).skip(1) =~= tokens.skip(1).push(t));
    lemma_parse_from_push_flag(
        ArgsModel { program: tokens[0], options: Map::empty(), orphans: Seq::empty() },
        None,
        tokens.skip(1),
        t,
    );
}

/// A pending flag is settled the moment another flag token arrives, in
/// exactly the way it would be settled at the end of the stream.
pub proof fn lemma_flag_settles_pending(m: ArgsModel, name: Seq<char>, rest: Seq<Seq<char>>)
    requires
        rest.len() > 0,
        is_flag(rest[0]),
    ensures
        parse_from(m, Some(name), rest) == (match finalize_model(m, name) {
            Ok(m1) => parse_from(m1, None, rest),
            Err(e) => Err(e),
        }),
{
    reveal_with_fuel(parse_from, 2);
}

proof fn lemma_parse_from_push_flag_value(
    m: ArgsModel,
    pending: Option<Seq<char>>,
    rest: Seq<Seq<char>>,
    t: Seq<char>,
    v: Seq<char>,
)
    requires
        is_flag(t),
        t.len() > 2,
        !is_flag(v),
    ensures
        parse_from(m, pending, rest.push(t).push(v)) == (match parse_from(m, pending, rest) {
            Ok(m1) => Ok::<ArgsModel, Error>(ArgsModel {
                options: append_value(m1.options, t.skip(2), v),
                ..m1
            }),
            Err(e) => Err(e),
        }),
    decreases rest.len(),
{
    reveal_with_fuel(parse_from, 4);
    let two = rest.push(t).push(v);
    if rest.len() == 0 {
        assert(two[0] == t);
        assert(two.skip(1) =~= seq![v]);
        assert(two.skip(1)[0] == v);
        assert(two.skip(1).skip(1).len() == 0);
    } else {
        assert(two[0] == rest[0]);
        assert(two.skip(1) =~= rest.skip(1).push(t).push(v));
        let head = rest[0];
        if is_flag(head) {
            let settled = match pending {
                Some(name) => finalize_model(m, name),
                None => Ok(m),
            };
            if settled is Ok && head.len() != 2 {
                lemma_parse_from_push_flag_value(
                    settled->Ok_0,
                    Some(head.skip(2)),
                    rest.skip(1),
                    t,
                    v,
                );
            }
        } else {
            match pending {
                Some(name) => {
                    lemma_parse_from_push_flag_value(
                        ArgsModel { options: append_value(m.options, name, head), ..m },
                        None,
                        rest.skip(1),
                        t,
                        v,
                    );
                },
                None => {
                    lemma_parse_from_push_flag_value(
                        ArgsModel { orphans: m.orphans.push(head), ..m },
                        None,
                        rest.skip(1),
                        t,
                        v,
                    );
                },
            }
        }
    }
}

/// A flag followed by a value stores exactly that value under the flag's
/// literal name, appended after the values the name already has; a value
/// that follows always takes precedence over the negation shorthand, and a
/// repeated flag accumulates its values instead of overwriting them.
pub proof fn lemma_trailing_flag_with_value(
    tokens: Seq<Seq<char>>,
    name: Seq<char>,
    value: Seq<char>,
)
    requires
        parse_tokens(tokens) is Ok,
        name.len() > 0,
        !is_flag(value),
    ensures
        parse_tokens(tokens.push("--"@ + name).push(value)) == Ok::<ArgsModel, Error>(ArgsModel {
            options: append_value(parse_tokens(tokens)->Ok_0.options, name, value),
            ..parse_tokens(tokens)->Ok_0
        }),
{
    reveal_strlit("--");
    let t = "--"@ + name;
    assert(t[0] == '-' && t[1] == '-');
    assert(is_flag(t));
    assert(t.len() == 2 + name.len());
    assert(t.skip(2) =~= name);
    let two = tokens.push(t).push(value);
    assert(two[0] == tokens[0]);
    assert(two.skip(1) =~= tokens.skip(1).push(t).push(value));
    lemma_parse_from_push_flag_value(
        ArgsModel { program: tokens[0], options: Map::empty(), orphans: Seq::empty() },
        None,
        tokens.skip(1),
        t,
        value,
    );
}

/// Whether every option name of `table` is non-empty.
pub open spec fn option_names_nonempty(table: Map<Seq<char>, Seq<Seq<char>>>) -> bool {
    forall|name: Seq<char>| table.contains_key(name) ==> name.len() > 0
}

proof fn lemma_parse_from_keys(m: ArgsModel, pending: Option<Seq<char>>, rest: Seq<Seq<char>>)
    requires
        parse_from(m, pending, rest) is Ok,
        option_names_nonempty(m.options),
        match pending {
            Some(name) => name.len() > 0,
            None => true,
        },
    ensures
        option_names_nonempty(parse_from(m, pending, rest)->Ok_0.options),
    decreases rest.len(),
{
    if rest.len() == 0 {
    } else {
        let t = rest[0];
        if is_flag(t) {
            let settled = match pending {
                Some(name) => finalize_model(m, name),
                None => Ok(m),
            };
            if settled is Ok && t.len() != 2 {
                lemma_parse_from_keys(settled->Ok_0, Some(t.skip(2)), rest.skip(1));
            }
        } else {
            match pending {
                Some(name) => {
                    lemma_parse_from_keys(
                        ArgsModel { options: append_value(m.options, name, t), ..m },
                        None,
                        rest.skip(1),
                    );
                },
                None => {
                    lemma_parse_from_keys(
                        ArgsModel { orphans: m.orphans.push(t), ..m },
                        None,
                        rest.skip(1),
                    );
                },
            }
        }
    }
}

/// Every option name of a successful parse is non-empty.
pub proof fn lemma_option_names_nonempty(tokens: Seq<Seq<char>>)
    requires
        parse_tokens(tokens) is Ok,
    ensures
        option_names_nonempty(parse_tokens(tokens)->Ok_0.options),
{
    lemma_parse_from_keys(
        ArgsModel { program: tokens[0], options: Map::empty(), orphans: Seq::empty() },
        None,
        tokens.skip(1),
    );
}

/// Whether the tokens of `xs` appear among the tokens of `ys`, in order.
pub open spec fn is_subsequence(xs: Seq<Seq<char>>, ys: Seq<Seq<char>>) -> bool
    decreases ys.len(),
{
    if xs.len() == 0 {
        true
    } else if ys.len() == 0 {
        false
    } else if xs[0] == ys[0] {
        is_subsequence(xs.skip(1), ys.skip(1))
    } else {
        is_subsequence(xs, ys.skip(1))
    }
}

proof fn lemma_subsequence_skip_front(xs: Seq<Seq<char>>, ys: Seq<Seq<char>>)
    requires
        is_subsequence(xs, ys),
        xs.len() > 0,
    ensures
        is_subsequence(xs.skip(1), ys),
    decreases ys.len(),
{
    let xs1 = xs.skip(1);
    if xs1.len() == 0 {
    } else {
        if xs[0] == ys[0] {
            if xs1[0] == ys[0] {
                lemma_subsequence_skip_front(xs1, ys.skip(1));
            }
        } else {
            lemma_subsequence_skip_front(xs, ys.skip(1));
            if xs1[0] == ys[0] {
                lemma_subsequence_skip_front(xs1, ys.skip(1));
            }
        }
    }
}

proof fn lemma_subsequence_cover(xs: Seq<Seq<char>>, ys: Seq<Seq<char>>)
    requires
        ys.len() > 0,
        is_subsequence(xs, ys.skip(1)),
    ensures
        is_subsequence(xs, ys),
{
    if xs.len() > 0 && xs[0] == ys[0] {
        lemma_subsequence_skip_front(xs, ys.skip(1));
    }
}

proof fn lemma_parse_from_orphans(
    m: ArgsModel,
    pending: Option<Seq<char>>,
    rest: Seq<Seq<char>>,
) -> (extra: Seq<Seq<char>>)
    requires
        parse_from(m, pending, rest) is Ok,
    ensures
        parse_from(m, pending, rest)->Ok_0.orphans == m.orphans + extra,
        is_subsequence(extra, rest),
    decreases rest.len(),
{
    if rest.len() == 0 {
        let extra = Seq::<Seq<char>>::empty();
        assert(m.orphans + extra =~= m.orphans);
        extra
    } else {
        let t = rest[0];
        if is_flag(t) {
            let settled = match pending {
                Some(name) => finalize_model(m, name),
                None => Ok(m),
            };
            let m1 = settled->Ok_0;
            let extra = lemma_parse_from_orphans(m1, Some(t.skip(2)), rest.skip(1));
            lemma_subsequence_cover(extra, rest);
            extra
        } else {
            match pending {
                Some(name) => {
                    let m1 = ArgsModel { options: append_value(m.options, name, t), ..m };
                    let extra = lemma_parse_from_orphans(m1, None, rest.skip(1));
                    lemma_subsequence_cover(extra, rest);
                    extra
                },
                None => {
                    let m1 = ArgsModel { orphans: m.orphans.push(t), ..m };
                    let extra = lemma_parse_from_orphans(m1, None, rest.skip(1));
                    let whole = seq![t] + extra;
                    assert(m.orphans.push(t) + extra =~= m.orphans + whole);
                    assert(whole.skip(1) =~= extra);
                    assert(whole[0] == rest[0]);
                    whole
                },
            }
        }
    }
}

/// Orphans keep their relative order: the orphans of a successful parse
/// appear among the input tokens after the program name, in their original
/// order.
pub proof fn lemma_orphans_in_order(tokens: Seq<Seq<char>>)
    requires
        parse_tokens(tokens) is Ok,
    ensures
        is_subsequence(parse_tokens(tokens)->Ok_0.orphans, tokens.skip(1)),
{
    let init = ArgsModel { program: tokens[0], options: Map::empty(), orphans: Seq::empty() };
    let extra = lemma_parse_from_orphans(init, None, tokens.skip(1));
    assert(init.orphans + extra =~= extra);
}

} // verus!
