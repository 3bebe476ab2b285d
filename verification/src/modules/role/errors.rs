//! Failures of the role rules.

use vstd::prelude::*;

use crate::errors::{AppError, AppErrorView};

verus! {

#[derive(Debug, PartialEq, Eq)]
pub enum RoleDomainError {
    InvalidName,
    NotFound,
    RoleTaken,
}

impl RoleDomainError {
    pub open spec fn text(self) -> Seq<char> {
        match self {
            RoleDomainError::InvalidName => "invalid name"@,
            RoleDomainError::NotFound => "role not found"@,
            RoleDomainError::RoleTaken => "role is already registered"@,
        }
    }

    pub open spec fn app_view(self) -> AppErrorView {
        match self {
            RoleDomainError::InvalidName => AppErrorView::BadRequest(self.text()),
            RoleDomainError::NotFound => AppErrorView::NotFound(self.text()),
            RoleDomainError::RoleTaken => AppErrorView::Conflict(self.text()),
        }
    }

    /// The failure's message (`to_string`).
    pub fn message(&self) -> (m: String)
        ensures
            m@ == self.text(),
    {
        match self {
            RoleDomainError::InvalidName => String::from_str("invalid name"),
            RoleDomainError::NotFound => String::from_str("role not found"),
            RoleDomainError::RoleTaken => String::from_str("role is already registered"),
        }
    }

    /// The application error for this failure (`From<RoleDomainError> for
    /// AppError`).
    pub fn into_app_error(self) -> (e: AppError)
        ensures
            e@ == self.app_view(),
    {
        let m = self.message();
        match self {
            RoleDomainError::InvalidName => AppError::BadRequest(m),
            RoleDomainError::NotFound => AppError::NotFound(m),
            RoleDomainError::RoleTaken => AppError::Conflict(m),
        }
    }
}

} // verus!
