//! Policies for requests that do not name the configured virtual path.
//!
//! A strategy is stateless: which response it produces is fixed by the
//! strategy value alone, never by the request that triggered it. The set of
//! strategies is open — any type that implements [`NotFoundStrategy`] can be
//! configured without touching the handler.

use crate::response::{Response, ResponseModel};
use vstd::prelude::*;

verus! {

/// A policy that produces the response for any request whose path does not
/// match the configured virtual path.
pub trait NotFoundStrategy: Sized {
    /// The one response this strategy produces.
    spec fn response_model(&self) -> ResponseModel;

    /// Produce the not-found response.
    fn handle_not_found(&self) -> (r: Response)
        ensures
            r@ == self.response_model(),
    ;
}

/// The response of [`RedirectToRootStrategy`]: a permanent redirect to the
/// site root.
pub open spec fn redirect_to_root_model() -> ResponseModel {
    ResponseModel {
        status: 308,
        headers: seq![("location"@, "/"@)],
        body: Seq::<char>::empty(),
    }
}

/// Answers every unmatched request with status 308 and `Location: /`.
pub struct RedirectToRootStrategy;

impl NotFoundStrategy for RedirectToRootStrategy {
    open spec fn response_model(&self) -> ResponseModel {
        redirect_to_root_model()
    }

    fn handle_not_found(&self) -> (r: Response) {
        let mut headers: Vec<(String, String)> = Vec::new();
        headers.push((String::from_str("location"), String::from_str("/")));
        let r = Response { status: 308, headers, body: String::new() };
        proof {
            assert(r@.headers =~= redirect_to_root_model().headers);
            assert(r@.body =~= redirect_to_root_model().body);
            assert(r@ =~~= redirect_to_root_model());
        }
        r
    }
}

/// The response of [`ShowErrorMessageStrategy`]: a plain-text 404 page.
pub open spec fn not_found_message_model() -> ResponseModel {
    ResponseModel {
        status: 404,
        headers: seq![("content-type"@, "text/plain"@)],
        body: "404 Not Found"@,
    }
}

/// Answers every unmatched request with status 404 and the body
/// `404 Not Found`.
pub struct ShowErrorMessageStrategy;

impl NotFoundStrategy for ShowErrorMessageStrategy {
    open spec fn response_model(&self) -> ResponseModel {
        not_found_message_model()
    }

    fn handle_not_found(&self) -> (r: Response) {
        let mut headers: Vec<(String, String)> = Vec::new();
        headers.push((String::from_str("content-type"), String::from_str("text/plain")));
        let r = Response {
            status: 404,
            headers,
            body: String::from_str("404 Not Found"),
        };
        proof {
            assert(r@.headers =~= not_found_message_model().headers);
            assert(r@ =~~= not_found_message_model());
        }
        r
    }
}

} // verus!
