use vstd::prelude::*;

use crate::environ_ops::Environment;

verus! {

/// What the sign-in gate does with a request.
#[derive(Debug, PartialEq, Eq, Structural, Clone, Copy)]
pub enum GateDecision {
    /// Let the request through to the guarded routes.
    Proceed,
    /// Send the caller to the sign-in page instead.
    RedirectToLogin,
}

/// The rule guarding signed-in routes: in a development build requests
/// pass only while debugging is allowed; in production they pass only
/// with a session token that validates and whose claims can be read.
pub open spec fn gate_rule(
    env: Environment,
    allow_debug: bool,
    jwt_valid: bool,
    claims_ok: bool,
) -> GateDecision {
    match env {
        Environment::Dev => if allow_debug {
            GateDecision::Proceed
        } else {
            GateDecision::RedirectToLogin
        },
        Environment::Prod => if jwt_valid && claims_ok {
            GateDecision::Proceed
        } else {
            GateDecision::RedirectToLogin
        },
    }
}

/// Factory for the middleware that guards signed-in routes.
pub struct LoginInterceptor {}

/// The middleware itself, wrapped around the inner service it guards.
/// The host's web framework drives it; every decision it takes comes
/// from `decide_gate`.
pub struct AuthMiddlewareService<S> {
    pub service: S,
}

impl LoginInterceptor {
    /// Wraps the inner service.
    pub fn new_transform<S>(&self, service: S) -> (r: AuthMiddlewareService<S>)
        ensures
            r.service == service,
    {
        AuthMiddlewareService { service }
    }
}

impl<S> AuthMiddlewareService<S> {
    /// Decides whether a request passes the sign-in gate.
    /// `jwt_valid` reports whether a session token was present and
    /// validated; `claims_ok` whether its claims could be read.
    pub fn decide_gate(
        &self,
        env: Environment,
        allow_debug: bool,
        jwt_valid: bool,
        claims_ok: bool,
    ) -> (r: GateDecision)
        ensures
            r == gate_rule(env, allow_debug, jwt_valid, claims_ok),
    {
        match env {
            Environment::Dev => {
                if allow_debug {
                    GateDecision::Proceed
                } else {
                    GateDecision::RedirectToLogin
                }
            },
            Environment::Prod => {
                if jwt_valid && claims_ok {
                    GateDecision::Proceed
                } else {
                    GateDecision::RedirectToLogin
                }
            },
        }
    }
}

} // verus!
