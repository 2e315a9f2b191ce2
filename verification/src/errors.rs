//! The errors that the server functions answer with.
use vstd::prelude::*;

verus! {

/// An error answered to the browser, by the kind of server-function error it is sent as.
#[derive(Clone, Debug)]
pub enum AppError {
    /// A failure inside the server.
    ServerError(String),
    /// A request refused before it reached its work.
    MiddlewareError(String),
    /// A failed registration step.
    Registration(String),
}

/// A refusal that also sends the browser to another page.
#[derive(Clone, Debug)]
pub struct Redirected {
    /// Where the browser is sent.
    pub to: String,
    /// The error answered.
    pub error: AppError,
}

/// `e` is a server error with this message.
pub open spec fn is_server_error(e: AppError, msg: Seq<char>) -> bool {
    e matches AppError::ServerError(m) && m@ == msg
}

/// `e` is a middleware error with this message.
pub open spec fn is_middleware_error(e: AppError, msg: Seq<char>) -> bool {
    e matches AppError::MiddlewareError(m) && m@ == msg
}

/// `e` is a registration error with this message.
pub open spec fn is_registration_error(e: AppError, msg: Seq<char>) -> bool {
    e matches AppError::Registration(m) && m@ == msg
}

/// Each error predicate holds of exactly one kind of error, carrying exactly that message.
pub proof fn lemma_error_predicates(e: AppError, msg: Seq<char>)
    ensures
        is_server_error(e, msg) <==> (e is ServerError && e->ServerError_0@ == msg),
        is_middleware_error(e, msg) <==> (e is MiddlewareError && e->MiddlewareError_0@ == msg),
        is_registration_error(e, msg) <==> (e is Registration && e->Registration_0@ == msg),
        !(is_server_error(e, msg) && is_middleware_error(e, msg)),
        !(is_server_error(e, msg) && is_registration_error(e, msg)),
        !(is_middleware_error(e, msg) && is_registration_error(e, msg)),
{
}

/// The text of a literal, as an owned string.
pub(crate) fn text(s: &str) -> (r: String)
    ensures
        r@ == s@,
{
    s.to_owned()
}

/// The concatenation of two texts.
pub(crate) fn join(a: &str, b: &str) -> (r: String)
    ensures
        r@ == a@ + b@,
{
    let mut r = a.to_owned();
    r.append(b);
    r
}

} // verus!
