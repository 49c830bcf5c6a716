//! The record a request is turned away with.

use crate::http::{opt_bytes, opt_text, Response};
use crate::text::{decimal, push_decimal};
use vstd::prelude::*;
use vstd::string::{StrSliceExecFns, StringExecFns};
use vstd::utf8::encode_utf8;

verus! {

#[verifier::external_type_specification]
#[verifier::external_body]
pub struct ExJsonError(serde_json::Error);

/// The JSON string literal that stands for a text, quotes included; `None`
/// where the text cannot be written as one.
pub uninterp spec fn json_string(text: Seq<char>) -> Option<Seq<char>>;

/// `serde_json::to_string` on a string slice: the text as a JSON string
/// literal. The literal depends on the text alone.
#[verifier::external_body]
fn quote(text: &str) -> (res: Result<String, serde_json::Error>)
    ensures
        match res {
            Ok(literal) => json_string(text@) == Some(literal@),
            Err(_) => json_string(text@) is None,
        },
{
    serde_json::to_string(text)
}

/// A status code with a message and, on success, data.
#[derive(Debug, Clone, PartialEq, Eq)]
pub struct Res<T = ()> {
    pub code: u16,
    pub info: String,
    pub data: T,
}

/// What a handler returns: a record either way.
pub type Resp<T> = Result<Res<T>, Res<()>>;

/// The media type of a rejection's body.
pub open spec fn json_type() -> Seq<char> {
    "application/json"@
}

/// The JSON document of a rejection with the given code, whose message has
/// the JSON string literal `info`.
pub open spec fn rejection_text(code: u16, info: Seq<char>) -> Seq<char> {
    "{\"code\":"@ + decimal(code as nat) + ",\"info\":"@ + info + ",\"data\":null}"@
}

impl<T> Res<T> {
    pub fn new(code: u16, msg: &str, data: T) -> (res: Self)
        ensures
            res.code == code,
            res.info@ == msg@,
            res.data == data,
    {
        Res { code, info: msg.to_owned(), data }
    }

    /// This record has the given code and message.
    pub open spec fn says(self, code: u16, info: Seq<char>) -> bool {
        self.code == code && self.info@ == info
    }
}

impl Res<()> {
    /// A rejection with a message.
    pub fn msg(code: u16, msg: &str) -> (res: Self)
        ensures
            res.says(code, msg@),
    {
        Res { code, info: msg.to_owned(), data: () }
    }

    /// The body of the response this rejection is delivered as, where the
    /// message can be written in JSON.
    pub open spec fn body(self) -> Option<Seq<u8>> {
        match json_string(self.info@) {
            Some(info) => Some(encode_utf8(rejection_text(self.code, info))),
            None => None,
        }
    }

    /// `out` is the response this rejection is delivered as.
    pub open spec fn delivers(self, out: Response) -> bool {
        &&& out.status == self.code
        &&& opt_text(out.content_type) == Some(json_type())
        &&& opt_bytes(out.body) == self.body()
        &&& out.content_length is None
        &&& out.content_disposition is None
        &&& out.location is None
    }

    /// The response a rejection is delivered as: its code as the status and
    /// the record as a JSON document. No body is set where the message has
    /// no JSON form.
    pub fn into_response(self) -> (out: Response)
        ensures
            self.delivers(out),
    {
        let body = match quote(self.info.as_str()) {
            Ok(info) => {
                let mut text = String::from_str("{\"code\":");
                push_decimal(&mut text, self.code as u64);
                text.append(",\"info\":");
                text.append(info.as_str());
                text.append(",\"data\":null}");
                assert(text@ =~= rejection_text(self.code, info@));
                Some(text.as_str().as_bytes_vec())
            },
            Err(_) => None,
        };
        Response {
            status: self.code,
            content_type: Some(String::from_str("application/json")),
            content_length: None,
            content_disposition: None,
            location: None,
            body,
        }
    }
}

} // verus!
