use vstd::prelude::*;

use crate::error::Error;

verus! {

broadcast use vstd::string::group_string_axioms;

/// The HTTP status of an internal error.
pub const INTERNAL_SERVER_ERROR: u16 = 500;

/// The title of the page shown for an internal error.
pub const INTERNAL_ERROR_TITLE: &'static str = "Something went wrong";

/// The message of the page shown for an internal error.
pub const INTERNAL_ERROR_MESSAGE: &'static str = "An internal error occurred.";

/// What the error page shows.
pub struct ErrorTemplate {
    pub title: String,
    pub message: String,
}

/// A router error, rendered as an HTML error page.
pub struct RouterError {
    status: u16,
    title: String,
    message: String,
}

impl View for RouterError {
    /// The HTTP status, the page's title and the page's message.
    type V = (u16, Seq<char>, Seq<char>);

    closed spec fn view(&self) -> (u16, Seq<char>, Seq<char>) {
        (self.status, self.title@, self.message@)
    }
}

/// Status, title and message of an internal error.
pub open spec fn internal_error_view() -> (u16, Seq<char>, Seq<char>) {
    (INTERNAL_SERVER_ERROR, INTERNAL_ERROR_TITLE@, INTERNAL_ERROR_MESSAGE@)
}

impl RouterError {
    /// The error shown for a failure inside the service; what went wrong is
    /// not shown to the user.
    pub fn internal<E>(_error: E) -> (r: Self)
        ensures
            r@ == internal_error_view(),
    {
        RouterError {
            status: INTERNAL_SERVER_ERROR,
            title: INTERNAL_ERROR_TITLE.to_string(),
            message: INTERNAL_ERROR_MESSAGE.to_string(),
        }
    }

    /// The HTTP status of the response.
    pub fn status(&self) -> (r: u16)
        ensures
            r == self@.0,
    {
        self.status
    }

    /// The page that shows the error.
    pub fn into_template(self) -> (r: ErrorTemplate)
        ensures
            r.title@ == self@.1,
            r.message@ == self@.2,
    {
        ErrorTemplate { title: self.title, message: self.message }
    }
}

impl From<Error> for RouterError {
    fn from(error: Error) -> (r: Self)
        ensures
            r@ == internal_error_view(),
    {
        Self::internal(error)
    }
}

impl vstd::std_specs::convert::FromSpecImpl<Error> for RouterError {
    open spec fn obeys_from_spec() -> bool {
        false
    }

    open spec fn from_spec(v: Error) -> RouterError {
        arbitrary()
    }
}

} // verus!
