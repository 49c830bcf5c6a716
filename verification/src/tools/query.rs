//! The parameters of a request's query.

use crate::http::{Request, UNPROCESSABLE};
use crate::resp::Res;
use vstd::prelude::*;

verus! {

/// The pairs of names and values that a query string decodes to, in the
/// order in which it holds them, or the words in which the decoder says why
/// it does not decode.
pub uninterp spec fn form_pairs(query: Seq<char>) -> Result<
    Seq<(Seq<char>, Seq<char>)>,
    Seq<char>,
>;

/// The character sequences of a list of pairs.
pub open spec fn pairs_view(pairs: Seq<(String, String)>) -> Seq<(Seq<char>, Seq<char>)> {
    pairs.map_values(|p: (String, String)| (p.0@, p.1@))
}

/// `serde_urlencoded::from_str` into a list of pairs of strings: the names
/// and values of a query string, percent-decoded. An error comes back as
/// the text that its `Display` gives. The outcome depends on the query
/// alone.
#[verifier::external_body]
fn decode_form(query: &str) -> (res: Result<Vec<(String, String)>, String>)
    ensures
        match res {
            Ok(pairs) => form_pairs(query@) == Ok::<Seq<(Seq<char>, Seq<char>)>, Seq<char>>(
                pairs_view(pairs@),
            ),
            Err(words) => form_pairs(query@) == Err::<Seq<(Seq<char>, Seq<char>)>, Seq<char>>(
                words@,
            ),
        },
{
    serde_urlencoded::from_str::<Vec<(String, String)>>(query).map_err(|e| e.to_string())
}

/// The query of a request. A request without one has the empty query.
pub open spec fn query_of(req: Request) -> Seq<char> {
    match req.query {
        Some(q) => q@,
        None => Seq::empty(),
    }
}

/// The names and values of the parameters in a request's query, in their
/// order. A query that does not decode is answered as unprocessable, with
/// the decoder's words.
pub fn parse_query(req: &Request) -> (res: Result<Vec<(String, String)>, Res<()>>)
    ensures
        match form_pairs(query_of(*req)) {
            Ok(pairs) => res is Ok && pairs_view(res->Ok_0@) == pairs,
            Err(words) => res is Err && res->Err_0.says(UNPROCESSABLE, words),
        },
{
    let parsed = match &req.query {
        Some(q) => decode_form(q.as_str()),
        None => decode_form(""),
    };
    proof {
        reveal_strlit("");
        assert(""@ =~= Seq::<char>::empty());
    }
    match parsed {
        Ok(pairs) => Ok(pairs),
        Err(words) => Err(Res::msg(UNPROCESSABLE, words.as_str())),
    }
}

} // verus!
