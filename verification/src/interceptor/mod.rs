//! Interceptors: a hook before and a hook after a downstream handler, and
//! the adapter that runs the two around it.
//!
//! `before` may turn the request away. The adapter then delivers the
//! rejection and calls neither the handler nor `after`. Otherwise it hands
//! the request on and gives `after` the context that `before` returned,
//! together with the handler's response.

pub mod blacklist;
pub mod download;
pub mod html_404;

use crate::http::{Request, Response};
use crate::resp::Res;
use vstd::prelude::*;

verus! {

/// The two hooks of an interceptor.
pub trait Intercept: Clone {
    /// What `before` hands to `after`. It lives for one request.
    type Context;

    /// Whether the hooks can be called at all. An interceptor is ready
    /// unless it says otherwise.
    open spec fn ready(&self) -> bool {
        true
    }

    /// Whether `before` may leave the request `req` as `left` and return
    /// `out`. An interceptor that says nothing of it may do anything.
    open spec fn before_spec(
        &self,
        req: Request,
        left: Request,
        out: Result<Self::Context, Res<()>>,
    ) -> bool {
        true
    }

    /// Whether `after` may leave the response `res` as `left`. An
    /// interceptor that says nothing of it may do anything.
    open spec fn after_spec(&self, ctx: Self::Context, res: Response, left: Response) -> bool {
        true
    }

    /// Runs ahead of the handler. An `Err` ends the request there.
    fn before(&self, req: &mut Request) -> (out: Result<Self::Context, Res<()>>)
        requires
            self.ready(),
        ensures
            self.before_spec(*old(req), *final(req), out),
    ;

    /// Runs on the handler's response. It is not called where `before`
    /// returned an `Err`.
    fn after(&self, ctx: Self::Context, res: &mut Response)
        requires
            self.ready(),
        ensures
            self.after_spec(ctx, *old(res), *final(res)),
    ;
}

/// An interceptor, ready to be laid around a handler.
#[derive(Clone)]
pub struct Interceptor<T> {
    pub interceptor: T,
}

/// An interceptor around the handler `inner`.
#[derive(Clone)]
pub struct InterceptorService<S, T> {
    pub inner: S,
    pub interceptor: T,
}

/// What the adapter does once `before` has run.
pub enum Step<C> {
    /// Hand the request to the handler, and keep the context for `after`.
    Forward(C),
    /// Deliver this response. The handler and `after` are not called.
    Reply(Response),
}

impl<T: Clone> Interceptor<T> {
    pub fn new(interceptor: T) -> (layer: Self)
        ensures
            layer.interceptor == interceptor,
    {
        Self { interceptor }
    }

    /// Lays a copy of the interceptor around `inner`.
    pub fn layer<S>(&self, inner: S) -> (service: InterceptorService<S, T>)
        ensures
            service.inner == inner,
            cloned(self.interceptor, service.interceptor),
    {
        InterceptorService { inner, interceptor: self.interceptor.clone() }
    }

    /// Lays the interceptor itself around `inner`.
    pub fn into_service<S>(self, inner: S) -> (service: InterceptorService<S, T>)
        ensures
            service.inner == inner,
            service.interceptor == self.interceptor,
    {
        InterceptorService { inner, interceptor: self.interceptor }
    }
}

impl<S, T: Intercept> InterceptorService<S, T> {
    /// Whether `out` is what the adapter may return for `req`. Where
    /// `before` turned the request away it is the rejection, delivered.
    /// Where the handler failed on the request as `before` left it, it is
    /// the handler's error, and `after` has no part in it. Otherwise it is
    /// what `after` made of the handler's response.
    pub open spec fn call_spec<E>(self, req: Request, out: Result<Response, E>) -> bool where
        S: Fn(Request) -> Result<Response, E>,
     {
        ||| exists|left: Request, e: Res<()>| #[trigger]
            self.interceptor.before_spec(req, left, Err(e)) && out is Ok && e.delivers(out->Ok_0)
        ||| exists|left: Request, ctx: T::Context| #[trigger]
            self.interceptor.before_spec(req, left, Ok(ctx)) && out is Err && call_ensures(
                self.inner,
                (left,),
                out,
            )
        ||| exists|left: Request, ctx: T::Context, raw: Response|
            #![trigger self.interceptor.before_spec(req, left, Ok(ctx)), self.interceptor.after_spec(ctx, raw, out->Ok_0)]
            {
                &&& out is Ok
                &&& self.interceptor.before_spec(req, left, Ok(ctx))
                &&& call_ensures(self.inner, (left,), Ok::<Response, E>(raw))
                &&& self.interceptor.after_spec(ctx, raw, out->Ok_0)
            }
    }

    /// The first half of a call: runs `before` and says how to go on.
    pub fn enter(&self, req: &mut Request) -> (step: Step<T::Context>)
        requires
            self.interceptor.ready(),
        ensures
            match step {
                Step::Forward(ctx) => self.interceptor.before_spec(
                    *old(req),
                    *final(req),
                    Ok(ctx),
                ),
                Step::Reply(out) => exists|e: Res<()>| #[trigger]
                    self.interceptor.before_spec(*old(req), *final(req), Err(e)) && e.delivers(
                        out,
                    ),
            },
    {
        match self.interceptor.before(req) {
            Ok(ctx) => Step::Forward(ctx),
            Err(e) => Step::Reply(e.into_response()),
        }
    }

    /// The second half of a call: runs `after` on the handler's response.
    pub fn leave(&self, ctx: T::Context, res: &mut Response)
        requires
            self.interceptor.ready(),
        ensures
            self.interceptor.after_spec(ctx, *old(res), *final(res)),
    {
        self.interceptor.after(ctx, res)
    }

    /// One whole call, around a handler that answers at once. A handler
    /// that fails has its error handed on as it is, and `after` is not run.
    pub fn call<E>(&self, req: Request) -> (out: Result<Response, E>) where
        S: Fn(Request) -> Result<Response, E>,

        requires
            self.interceptor.ready(),
            forall|r: Request| call_requires(self.inner, (r,)),
        ensures
            self.call_spec(req, out),
    {
        let mut req = req;
        let ghost before = req;
        match self.enter(&mut req) {
            Step::Forward(ctx) => {
                let ghost left = req;
                assert(self.interceptor.before_spec(before, left, Ok(ctx)));
                let answer = (self.inner)(req);
                assert(call_ensures(self.inner, (left,), answer));
                match answer {
                    Ok(raw) => {
                        let mut res = raw;
                        self.leave(ctx, &mut res);
                        assert(self.interceptor.after_spec(ctx, raw, res));
                        let out = Ok::<Response, E>(res);
                        assert(self.interceptor.after_spec(ctx, raw, out->Ok_0));
                        out
                    },
                    Err(e) => {
                        let out = Err::<Response, E>(e);
                        assert(call_ensures(self.inner, (left,), out));
                        out
                    },
                }
            },
            Step::Reply(early) => {
                let out = Ok::<Response, E>(early);
                assert(exists|e: Res<()>| #[trigger]
                    self.interceptor.before_spec(before, req, Err(e)) && e.delivers(out->Ok_0));
                out
            },
        }
    }
}

/// Where every answer of `before` to a request is a rejection, what the
/// adapter returns for it is the delivered rejection, whatever the handler
/// is.
pub proof fn lemma_rejection_ends_call<E, S: Fn(Request) -> Result<Response, E>, T: Intercept>(
    service: InterceptorService<S, T>,
    req: Request,
    out: Result<Response, E>,
)
    requires
        service.call_spec(req, out),
        forall|left: Request, r: Result<T::Context, Res<()>>| #[trigger]
            service.interceptor.before_spec(req, left, r) ==> r is Err,
    ensures
        out is Ok,
        exists|left: Request, e: Res<()>| #[trigger]
            service.interceptor.before_spec(req, left, Err(e)) && e.delivers(out->Ok_0),
{
}

/// Where the handler fails on every request, what the adapter returns is
/// never a response that `after` had a hand in: it is the rejection, or an
/// error of the handler.
pub proof fn lemma_failure_skips_after<E, S: Fn(Request) -> Result<Response, E>, T: Intercept>(
    service: InterceptorService<S, T>,
    req: Request,
    out: Result<Response, E>,
)
    requires
        service.call_spec(req, out),
        forall|left: Request, r: Result<Response, E>| #[trigger]
            call_ensures(service.inner, (left,), r) ==> r is Err,
    ensures
        match out {
            Ok(res) => exists|left: Request, e: Res<()>| #[trigger]
                service.interceptor.before_spec(req, left, Err(e)) && e.delivers(res),
            Err(_) => exists|left: Request, ctx: T::Context| #[trigger]
                service.interceptor.before_spec(req, left, Ok(ctx)) && call_ensures(
                    service.inner,
                    (left,),
                    out,
                ),
        },
{
}

} // verus!
