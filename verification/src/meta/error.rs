//! The errors of the metadata service, and how they are answered.
use vstd::prelude::*;
use crate::text::owned_str;

verus! {

/// Why a request of the metadata service failed.
pub enum ApiError {
    /// 500: the database refused or failed.
    Db(String),
    /// 400: the request itself is wrong.
    BadRequest(String),
}

pub enum ApiErrorView {
    Db(Seq<char>),
    BadRequest(Seq<char>),
}

impl View for ApiError {
    type V = ApiErrorView;

    open spec fn view(&self) -> ApiErrorView {
        match self {
            ApiError::Db(m) => ApiErrorView::Db(m@),
            ApiError::BadRequest(m) => ApiErrorView::BadRequest(m@),
        }
    }
}

/// The HTTP status that answers an error.
pub open spec fn status_of(e: ApiErrorView) -> u16 {
    match e {
        ApiErrorView::BadRequest(_) => 400,
        ApiErrorView::Db(_) => 500,
    }
}

/// The text of an error, as the error body's `error` field holds it.
pub open spec fn message_of(e: ApiErrorView) -> Seq<char> {
    match e {
        ApiErrorView::Db(m) => "Database error: "@ + m,
        ApiErrorView::BadRequest(m) => "Bad request: "@ + m,
    }
}

/// The view of a result that carries a text.
pub open spec fn text_result(r: Result<String, ApiError>) -> Result<Seq<char>, ApiErrorView> {
    match r {
        Ok(s) => Ok(s@),
        Err(e) => Err(e@),
    }
}

impl ApiError {
    /// The HTTP status code of the error response.
    pub fn status_code(&self) -> (r: u16)
        ensures
            r == status_of(self@),
    {
        match self {
            ApiError::BadRequest(_) => 400,
            ApiError::Db(_) => 500,
        }
    }

    /// The message of the error response.
    pub fn message(&self) -> (r: String)
        ensures
            r@ == message_of(self@),
    {
        let (mut r, m) = match self {
            ApiError::Db(m) => (owned_str("Database error: "), m),
            ApiError::BadRequest(m) => (owned_str("Bad request: "), m),
        };
        r.append(m.as_str());
        r
    }
}

} // verus!
