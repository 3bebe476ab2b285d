//! The application-wide error: every layer's failure is mapped to one of
//! these, each carrying the message shown to the client.

use vstd::prelude::*;

verus! {

/// Failures that the domain rules produce, each with its message.
#[derive(Debug, PartialEq, Eq)]
pub enum AppError {
    BadRequest(String),
    NotFound(String),
    Conflict(String),
}

/// Model of an [`AppError`]: its kind and the characters of its message.
pub ghost enum AppErrorView {
    BadRequest(Seq<char>),
    NotFound(Seq<char>),
    Conflict(Seq<char>),
}

impl View for AppError {
    type V = AppErrorView;

    open spec fn view(&self) -> AppErrorView {
        match self {
            AppError::BadRequest(m) => AppErrorView::BadRequest(m@),
            AppError::NotFound(m) => AppErrorView::NotFound(m@),
            AppError::Conflict(m) => AppErrorView::Conflict(m@),
        }
    }
}

impl AppError {
    /// The HTTP status this error is answered with.
    pub fn status(&self) -> (s: u16)
        ensures
            s == match self@ {
                AppErrorView::BadRequest(_) => 400u16,
                AppErrorView::NotFound(_) => 404u16,
                AppErrorView::Conflict(_) => 409u16,
            },
    {
        match self {
            AppError::BadRequest(_) => 400,
            AppError::NotFound(_) => 404,
            AppError::Conflict(_) => 409,
        }
    }

    /// The message shown to the client.
    pub fn message(&self) -> (m: &String)
        ensures
            m@ == match self@ {
                AppErrorView::BadRequest(s) => s,
                AppErrorView::NotFound(s) => s,
                AppErrorView::Conflict(s) => s,
            },
    {
        match self {
            AppError::BadRequest(m) => m,
            AppError::NotFound(m) => m,
            AppError::Conflict(m) => m,
        }
    }
}

} // verus!
