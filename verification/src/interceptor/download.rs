//! Marks a response as a download where the query asks for one.

use crate::http::{opt_text, Request, Response};
use crate::interceptor::{Intercept, Interceptor};
use crate::resp::Res;
use crate::text::same_text;
use crate::tools::query::{form_pairs, pairs_view, parse_query, query_of};
use vstd::prelude::*;
use vstd::string::StringExecFns;

verus! {

/// The name of the parameter that is looked at.
pub open spec fn kind_param() -> Seq<char> {
    "type"@
}

/// The value that asks for a download.
pub open spec fn download_value() -> Seq<char> {
    "download"@
}

/// The parameter `type` occurs once among `pairs`, with the value
/// `download`.
pub open spec fn asks_download(pairs: Seq<(Seq<char>, Seq<char>)>) -> bool {
    exists|i: int|
        {
            &&& 0 <= i < pairs.len()
            &&& (#[trigger] pairs[i]).0 == kind_param()
            &&& pairs[i].1 == download_value()
            &&& forall|j: int| 0 <= j < pairs.len() && j != i ==> (#[trigger] pairs[j]).0 != kind_param()
        }
}

/// Whether a query asks for a download. A query that does not decode asks
/// for none.
pub open spec fn query_asks_download(query: Seq<char>) -> bool {
    match form_pairs(query) {
        Ok(pairs) => asks_download(pairs),
        Err(_) => false,
    }
}

/// The media type that makes a client store the body.
pub open spec fn octet_stream() -> Seq<char> {
    "application/octet-stream"@
}

/// The disposition that makes a client store the body.
pub open spec fn attachment() -> Seq<char> {
    "attachment"@
}

/// Whether the parameter `type` occurs once among `pairs`, with the value
/// `download`.
pub fn wants_download(pairs: &Vec<(String, String)>) -> (flag: bool)
    ensures
        flag == asks_download(pairs_view(pairs@)),
{
    let ghost view = pairs_view(pairs@);
    let mut first: Option<usize> = None;
    let mut i: usize = 0;
    while i < pairs.len()
        invariant
            i <= pairs.len(),
            view == pairs_view(pairs@),
            match first {
                None => forall|k: int| 0 <= k < i ==> (#[trigger] view[k]).0 != kind_param(),
                Some(f) => {
                    &&& f < i
                    &&& view[f as int].0 == kind_param()
                    &&& forall|k: int| 0 <= k < i && k != f ==> (#[trigger] view[k]).0 != kind_param()
                },
            },
        decreases pairs.len() - i,
    {
        if same_text(pairs[i].0.as_str(), "type") {
            if first.is_some() {
                assert(!asks_download(view)) by {
                    let f = first->0 as int;
                    assert(view[f].0 == kind_param());
                    assert(view[i as int].0 == kind_param());
                }
                return false;
            }
            first = Some(i);
        }
        i += 1;
    }
    match first {
        None => false,
        Some(f) => {
            let flag = same_text(pairs[f].1.as_str(), "download");
            assert(view[f as int].1 == pairs@[f as int].1@);
            flag
        },
    }
}

/// Sets the headers that make a client store a response, where the query
/// holds `type=download`.
#[derive(Debug, Clone)]
pub struct Download {}

impl Download {
    pub fn interceptor() -> (layer: Interceptor<Self>)
        ensures
            layer.interceptor == (Download {  }),
    {
        Interceptor::new(Self {  })
    }
}

impl Intercept for Download {
    type Context = bool;

    open spec fn ready(&self) -> bool {
        true
    }

    /// The request is never changed and never rejected. The context says
    /// whether the query asks for a download; a request without a query
    /// counts as one with an empty query.
    open spec fn before_spec(&self, req: Request, left: Request, out: Result<bool, Res<()>>) -> bool {
        &&& left == req
        &&& out == Ok::<bool, Res<()>>(query_asks_download(query_of(req)))
    }

    /// With the flag set, the content type and the disposition are put in
    /// place and all else is kept. Without it nothing changes.
    open spec fn after_spec(&self, ctx: bool, res: Response, left: Response) -> bool {
        if ctx {
            &&& opt_text(left.content_type) == Some(octet_stream())
            &&& opt_text(left.content_disposition) == Some(attachment())
            &&& left.status == res.status
            &&& left.content_length == res.content_length
            &&& left.location == res.location
            &&& left.body == res.body
        } else {
            left == res
        }
    }

    fn before(&self, req: &mut Request) -> (out: Result<bool, Res<()>>) {
        match parse_query(req) {
            Ok(pairs) => Ok(wants_download(&pairs)),
            Err(_) => Ok(false),
        }
    }

    fn after(&self, ctx: bool, res: &mut Response) {
        if ctx {
            res.content_type = Some(String::from_str("application/octet-stream"));
            res.content_disposition = Some(String::from_str("attachment"));
        }
    }
}

} // verus!
