//! The option store. An `options::Options` value holds each option's
//! values; the wrappers here state what the store's operations do to its
//! contents, and build the append-or-create step on top of them.

use vstd::prelude::*;

use crate::model::append_value;

verus! {

#[verifier::external_type_specification]
#[verifier::external_body]
pub struct ExOptions(options::Options);

/// The contents of a store: each option name, mapped to the values stored
/// under it.
pub uninterp spec fn stored_options(o: options::Options) -> Map<Seq<char>, Seq<Seq<char>>>;

/// Relies on `options::Options::default`: a fresh store holds nothing.
#[verifier::external_body]
pub(crate) fn empty_store() -> (o: options::Options)
    ensures
        forall|name: Seq<char>| !stored_options(o).contains_key(name),
{
    options::Options::default()
}

/// Relies on `options::Options::get`: the values stored under `name`,
/// cloned out of the store, or `None` where the name is absent.
#[verifier::external_body]
pub(crate) fn store_get(o: &options::Options, name: &str) -> (r: Option<Vec<String>>)
    ensures
        r is Some <==> stored_options(*o).contains_key(name@),
        r matches Some(values) ==> values.deep_view() == stored_options(*o)[name@],
{
    o.get::<Vec<String>>(name)
}

/// Relies on `options::Options::set`: afterwards the store maps `name` to
/// `values` and is otherwise unchanged.
#[verifier::external_body]
pub(crate) fn store_set(o: &mut options::Options, name: &str, values: Vec<String>)
    ensures
        stored_options(*final(o)) == stored_options(*old(o)).insert(name@, values.deep_view()),
{
    o.set(name, values);
}

/// Append `value` under `name`, creating the entry if it is absent.
pub(crate) fn store_append(o: &mut options::Options, name: &str, value: String)
    ensures
        stored_options(*final(o)) == append_value(stored_options(*old(o)), name@, value@),
{
    match store_get(o, name) {
        Some(mut values) => {
            let ghost before = values.deep_view();
            values.push(value);
            proof {
                assert(values.deep_view() =~= before.push(value@));
            }
            store_set(o, name, values);
        }
        None => {
            let mut values: Vec<String> = Vec::new();
            values.push(value);
            proof {
                assert(values.deep_view() =~= seq![value@]);
            }
            store_set(o, name, values);
        }
    }
}

} // verus!
