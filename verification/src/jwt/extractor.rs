//! The accessor a handler gets a request's claims through.

use crate::http::{opt_text, Request};
use crate::jwt::{auth_token, authorizes, Secret};
use crate::resp::Res;
use vstd::prelude::*;

verus! {

/// The payload of a request's token.
#[derive(Debug, Clone)]
pub struct Jwt<T>(pub T);

/// `left` is `req` with nothing attached.
pub open spec fn detached(req: Request, left: Request) -> bool {
    &&& left.method == req.method
    &&& left.path == req.path
    &&& left.query == req.query
    &&& left.authorization == req.authorization
    &&& left.peer == req.peer
    &&& left.claims is None
}

impl Jwt<String> {
    /// Takes the payload that the guard attached to the request. Where none
    /// is attached, because no guard stands before the handler, the payload
    /// is read from the authorization header as the guard would read it.
    pub fn from_request_parts(secret: &Secret, req: &mut Request, now: u64) -> (res: Result<
        Self,
        Res<()>,
    >)
        ensures
            detached(*old(req), *final(req)),
            match old(req).claims {
                Some(data) => res is Ok && res->Ok_0.0 == data,
                None => authorizes(
                    match res {
                        Ok(jwt) => Ok(jwt.0),
                        Err(e) => Err(e),
                    },
                    secret@,
                    opt_text(old(req).authorization),
                    now,
                ),
            },
    {
        match req.claims.take() {
            Some(data) => Ok(Jwt(data)),
            None => {
                let found = match &req.authorization {
                    Some(value) => auth_token(secret, Some(value.as_str()), now),
                    None => auth_token(secret, None, now),
                };
                match found {
                    Ok(data) => Ok(Jwt(data)),
                    Err(e) => Err(e),
                }
            },
        }
    }
}

} // verus!
