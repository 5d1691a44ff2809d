//! Route parameters: the values captured from a path by one pattern.
//!
//! The parameters of one match are kept in a `route_recognizer::Params`.
//! Verus does not look inside that type; what it holds is named by
//! [`params_map`], and the three functions below are the only way in which
//! the library reads or fills one. Their contracts are taken on trust from
//! the source of `route_recognizer`, where `Params` wraps an ordered map from
//! names to values.

use route_recognizer::Params;
use vstd::prelude::*;

verus! {

#[verifier::external_type_specification]
#[verifier::external_body]
pub struct ExParams(route_recognizer::Params);

/// The captured values that a `Params` holds, by name.
pub uninterp spec fn params_map(p: Params) -> Map<Seq<char>, Seq<char>>;

/// The parameters of a match that captured nothing.
pub open spec fn no_params() -> Map<Seq<char>, Seq<char>> {
    Map::empty()
}

/// The views of a list of parameter sets, outermost match first.
pub open spec fn params_views(list: Seq<Params>) -> Seq<Map<Seq<char>, Seq<char>>> {
    list.map_values(|p: Params| params_map(p))
}

/// `Params::new`: trusted to return a set of parameters that holds nothing.
#[verifier::external_body]
pub(crate) fn params_new() -> (fresh: Params)
    ensures
        params_map(fresh) == no_params(),
{
    Params::new()
}

/// `Params::insert`: trusted to bind `key` to `value`, replacing an earlier
/// value of the same key and leaving every other key as it was.
#[verifier::external_body]
pub(crate) fn params_insert(p: &mut Params, key: String, value: String)
    ensures
        params_map(*final(p)) == params_map(*old(p)).insert(key@, value@),
{
    p.insert(key, value)
}

/// `Params::find`: trusted to return the value bound to `key`, and `None`
/// exactly when no value is bound to it.
#[verifier::external_body]
pub(crate) fn params_find<'a>(p: &'a Params, key: &str) -> (value: Option<&'a str>)
    ensures
        value is Some <==> params_map(*p).contains_key(key@),
        value is Some ==> value->0@ == params_map(*p)[key@],
{
    p.find(key)
}

} // verus!
