//! The errors of the REST service, and how they are answered.
use vstd::prelude::*;
use crate::text::owned_str;

verus! {

/// Why a request of the REST service failed.
pub enum ApiError {
    /// 400: the request itself is wrong.
    BadRequest(String),
    /// 404: the table does not exist.
    NotFound(String),
    /// 500: the database refused or failed.
    Db(String),
}

pub enum ApiErrorView {
    BadRequest(Seq<char>),
    NotFound(Seq<char>),
    Db(Seq<char>),
}

impl View for ApiError {
    type V = ApiErrorView;

    open spec fn view(&self) -> ApiErrorView {
        match self {
            ApiError::BadRequest(m) => ApiErrorView::BadRequest(m@),
            ApiError::NotFound(m) => ApiErrorView::NotFound(m@),
            ApiError::Db(m) => ApiErrorView::Db(m@),
        }
    }
}

/// The HTTP status that answers an error.
pub open spec fn status_of(e: ApiErrorView) -> u16 {
    match e {
        ApiErrorView::BadRequest(_) => 400,
        ApiErrorView::NotFound(_) => 404,
        ApiErrorView::Db(_) => 500,
    }
}

/// The text of an error, as the error body's `error` field holds it.
pub open spec fn message_of(e: ApiErrorView) -> Seq<char> {
    match e {
        ApiErrorView::BadRequest(m) => "bad request: "@ + m,
        ApiErrorView::NotFound(m) => "not found: "@ + m,
        ApiErrorView::Db(m) => "database error: "@ + m,
    }
}

/// The view of a result that carries a text.
pub open spec fn text_result(r: Result<String, ApiError>) -> Result<Seq<char>, ApiErrorView> {
    match r {
        Ok(s) => Ok(s@),
        Err(e) => Err(e@),
    }
}

impl ApiError {
    /// The HTTP status code of the error response.
    pub fn status_code(&self) -> (r: u16)
        ensures
            r == status_of(self@),
    {
        match self {
            ApiError::BadRequest(_) => 400,
            ApiError::NotFound(_) => 404,
            ApiError::Db(_) => 500,
        }
    }

    /// The message of the error response.
    pub fn message(&self) -> (r: String)
        ensures
            r@ == message_of(self@),
    {
        let (mut r, m) = match self {
            ApiError::BadRequest(m) => (owned_str("bad request: "), m),
            ApiError::NotFound(m) => (owned_str("not found: "), m),
            ApiError::Db(m) => (owned_str("database error: "), m),
        };
        r.append(m.as_str());
        r
    }
}

} // verus!
