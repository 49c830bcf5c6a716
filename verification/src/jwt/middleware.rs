//! The guard that lets a request pass with a valid token only.
//!
//! A request whose path the guard's rule matches passes as it is, whatever
//! it carries. Any other request must carry a bearer token that decodes. Its
//! payload is then attached to the request, and the request passes. A
//! request without such a token is answered as unauthorized.

use crate::compare::{CompareStr, Nothing};
use crate::http::{opt_text, Request, Response};
use crate::interceptor::Step;
use crate::jwt::{auth_token, authorized, authorizes, Secret};
use crate::resp::Res;
use vstd::prelude::*;

verus! {

/// The guard, ready to be laid around a handler.
#[derive(Clone)]
pub struct JwtAuth<A> {
    allow: A,
}

/// The guard around the handler `inner`.
#[derive(Clone)]
pub struct JwtAuthService<S, A> {
    inner: S,
    allow: A,
}

/// How a request got past the guard.
#[derive(Debug, Clone, Copy, PartialEq, Eq)]
pub enum Passage {
    /// The rule matched the path. Nothing was checked and nothing attached.
    Bypassed,
    /// The token was good. Its payload is attached to the request.
    Verified,
}

/// `left` is `req` with the payload `data` attached.
pub open spec fn attached(req: Request, data: Seq<char>, left: Request) -> bool {
    &&& left.method == req.method
    &&& left.path == req.path
    &&& left.query == req.query
    &&& left.authorization == req.authorization
    &&& left.peer == req.peer
    &&& opt_text(left.claims) == Some(data)
}

/// Whether the guard, whose rule has answered `hit` for the path, may leave
/// the request `req` as `left` and go on with `step`.
pub open spec fn passes(
    hit: bool,
    secret: Seq<char>,
    req: Request,
    now: u64,
    left: Request,
    step: Step<Passage>,
) -> bool {
    if hit {
        left == req && step == Step::Forward(Passage::Bypassed)
    } else {
        match authorized(secret, opt_text(req.authorization), now) {
            Ok(data) => attached(req, data, left) && step == Step::Forward(Passage::Verified),
            Err(_) => left == req && step is Reply && exists|e: Res<()>|
                #![trigger e.delivers(step->Reply_0)]
                authorizes(Err(e), secret, opt_text(req.authorization), now) && e.delivers(
                    step->Reply_0,
                ),
        }
    }
}

/// Decides on a request, given the rule's answer for its path.
pub fn guard(hit: bool, secret: &Secret, req: &mut Request, now: u64) -> (step: Step<Passage>)
    ensures
        passes(hit, secret@, *old(req), now, *final(req), step),
{
    if hit {
        return Step::Forward(Passage::Bypassed);
    }
    let found = match &req.authorization {
        Some(value) => auth_token(secret, Some(value.as_str()), now),
        None => auth_token(secret, None, now),
    };
    match found {
        Ok(data) => {
            req.claims = Some(data);
            Step::Forward(Passage::Verified)
        },
        Err(e) => {
            let out = e.into_response();
            assert(e.delivers(out));
            Step::Reply(out)
        },
    }
}

impl<A: CompareStr> JwtAuth<A> {
    /// The guard that lets the paths pass which `allow` matches.
    pub fn new(allow: A) -> (layer: Self)
        ensures
            layer.rule() == allow,
    {
        Self { allow }
    }

    /// The rule that says which paths need no token.
    pub closed spec fn rule(self) -> A {
        self.allow
    }

    /// Lays a copy of the guard around `inner`.
    pub fn layer<S>(&self, inner: S) -> (service: JwtAuthService<S, A>)
        ensures
            service.handler() == inner,
            cloned(self.rule(), service.rule()),
    {
        JwtAuthService { inner, allow: self.allow.clone() }
    }

    /// Lays the guard itself around `inner`.
    pub fn into_service<S>(self, inner: S) -> (service: JwtAuthService<S, A>)
        ensures
            service.handler() == inner,
            service.rule() == self.rule(),
    {
        JwtAuthService { inner, allow: self.allow }
    }
}

impl Default for JwtAuth<Nothing> {
    /// The guard that asks every request for its token.
    fn default() -> (layer: Self)
        ensures
            layer.rule() == Nothing,
    {
        Self::new(Nothing)
    }
}

impl<S, A: CompareStr> JwtAuthService<S, A> {
    /// The rule that says which paths need no token.
    pub closed spec fn rule(self) -> A {
        self.allow
    }

    /// The handler behind the guard.
    pub closed spec fn handler(self) -> S {
        self.inner
    }

    /// Whether `out` is what the guard may return for `req`: what the
    /// handler returned for the request as the guard left it, be it a
    /// response or an error, or the rejection.
    pub open spec fn call_spec<E>(
        self,
        secret: Seq<char>,
        req: Request,
        now: u64,
        out: Result<Response, E>,
    ) -> bool where S: Fn(Request) -> Result<Response, E> {
        exists|hit: bool, left: Request, step: Step<Passage>|
            #![trigger self.rule().verdict(req.path@, hit), passes(hit, secret, req, now, left, step)]
            {
                &&& self.rule().verdict(req.path@, hit)
                &&& passes(hit, secret, req, now, left, step)
                &&& match step {
                    Step::Forward(_) => call_ensures(self.handler(), (left,), out),
                    Step::Reply(early) => out == Ok::<Response, E>(early),
                }
            }
    }

    /// The first half of a call: asks the rule, checks the token where one
    /// is needed, and says how to go on.
    pub fn enter(&self, secret: &Secret, req: &mut Request, now: u64) -> (step: Step<Passage>)
        requires
            self.rule().ready(),
        ensures
            exists|hit: bool| #[trigger]
                self.rule().verdict(old(req).path@, hit) && passes(
                    hit,
                    secret@,
                    *old(req),
                    now,
                    *final(req),
                    step,
                ),
    {
        let hit = self.allow.compare(req.path.as_str());
        guard(hit, secret, req, now)
    }

    /// One whole call, around a handler that answers at once. What the
    /// handler returns is handed on as it is.
    pub fn call<E>(&self, secret: &Secret, req: Request, now: u64) -> (out: Result<Response, E>) where
        S: Fn(Request) -> Result<Response, E>,

        requires
            self.rule().ready(),
            forall|r: Request| call_requires(self.handler(), (r,)),
        ensures
            self.call_spec(secret@, req, now, out),
    {
        let mut req = req;
        let ghost before = req;
        let step = self.enter(secret, &mut req, now);
        let ghost hit = choose|hit: bool| #[trigger]
            self.rule().verdict(before.path@, hit) && passes(hit, secret@, before, now, req, step);
        let ghost left = req;
        match step {
            Step::Forward(p) => {
                assert(call_requires(self.handler(), (req,)));
                let out = (self.inner)(req);
                assert(passes(hit, secret@, before, now, left, Step::Forward(p)));
                out
            },
            Step::Reply(early) => {
                assert(passes(hit, secret@, before, now, left, Step::Reply(early)));
                Ok(early)
            },
        }
    }
}

/// A request whose path the rule matches reaches the handler as it came,
/// with nothing attached, whatever its authorization header holds.
pub proof fn lemma_match_bypasses(
    secret: Seq<char>,
    req: Request,
    now: u64,
    left: Request,
    step: Step<Passage>,
)
    requires
        passes(true, secret, req, now, left, step),
    ensures
        step == Step::Forward(Passage::Bypassed),
        left == req,
{
}

} // verus!
