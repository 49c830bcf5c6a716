//! Turns callers away by their network address.

use crate::compare::CompareStr;
use crate::http::{Request, Response, BAD_REQUEST, FORBIDDEN};
use crate::interceptor::{Intercept, Interceptor};
use crate::resp::Res;
use vstd::prelude::*;

verus! {

/// The message for a request whose caller is unknown.
pub open spec fn no_peer() -> Seq<char> {
    "获取连接 ip 失败"@
}

/// The message for a caller on the list.
pub open spec fn listed() -> Seq<char> {
    "黑名单 ip 禁止访问"@
}

/// Rejects the callers whose address the rule matches.
#[derive(Debug, Clone)]
pub struct BlackIp<T> {
    handler: T,
}

impl<T: CompareStr> BlackIp<T> {
    pub fn interceptor(handler: T) -> (layer: Interceptor<Self>)
        ensures
            layer.interceptor.rule() == handler,
    {
        Interceptor::new(Self { handler })
    }

    /// The rule that addresses are held against.
    pub closed spec fn rule(self) -> T {
        self.handler
    }
}

impl<T: CompareStr> Intercept for BlackIp<T> {
    type Context = ();

    open spec fn ready(&self) -> bool {
        self.rule().ready()
    }

    /// The request is never changed. Without a caller's address it is
    /// rejected as a bad request, with an address that the rule matches as
    /// forbidden, and otherwise it passes.
    open spec fn before_spec(&self, req: Request, left: Request, out: Result<(), Res<()>>) -> bool {
        &&& left == req
        &&& match req.peer {
            None => out is Err && out->Err_0.says(BAD_REQUEST, no_peer()),
            Some(ip) => exists|hit: bool| #[trigger]
                self.rule().verdict(ip@, hit) && if hit {
                    out is Err && out->Err_0.says(FORBIDDEN, listed())
                } else {
                    out is Ok
                },
        }
    }

    open spec fn after_spec(&self, ctx: (), res: Response, left: Response) -> bool {
        left == res
    }

    fn before(&self, req: &mut Request) -> (out: Result<(), Res<()>>) {
        match &req.peer {
            None => Err(Res::msg(BAD_REQUEST, "获取连接 ip 失败")),
            Some(ip) => {
                if self.handler.compare(ip.as_str()) {
                    Err(Res::msg(FORBIDDEN, "黑名单 ip 禁止访问"))
                } else {
                    Ok(())
                }
            },
        }
    }

    fn after(&self, ctx: (), res: &mut Response) {
    }
}

} // verus!
