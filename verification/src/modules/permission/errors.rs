//! Failures of the permission rules.

use vstd::prelude::*;

use crate::errors::{AppError, AppErrorView};

verus! {

#[derive(Debug, PartialEq, Eq)]
pub enum PermissionDomainError {
    InvalidName,
    NotFound,
    PermissionTaken,
}

impl PermissionDomainError {
    pub open spec fn text(self) -> Seq<char> {
        match self {
            PermissionDomainError::InvalidName => "invalid name"@,
            PermissionDomainError::NotFound => "permission not found"@,
            PermissionDomainError::PermissionTaken => "permission is already registered"@,
        }
    }

    pub open spec fn app_view(self) -> AppErrorView {
        match self {
            PermissionDomainError::InvalidName => AppErrorView::BadRequest(self.text()),
            PermissionDomainError::NotFound => AppErrorView::NotFound(self.text()),
            PermissionDomainError::PermissionTaken => AppErrorView::Conflict(self.text()),
        }
    }

    /// The failure's message (`to_string`).
    pub fn message(&self) -> (m: String)
        ensures
            m@ == self.text(),
    {
        match self {
            PermissionDomainError::InvalidName => String::from_str("invalid name"),
            PermissionDomainError::NotFound => String::from_str("permission not found"),
            PermissionDomainError::PermissionTaken => String::from_str(
                "permission is already registered",
            ),
        }
    }

    /// The application error for this failure (`From<PermissionDomainError>
    /// for AppError`).
    pub fn into_app_error(self) -> (e: AppError)
        ensures
            e@ == self.app_view(),
    {
        let m = self.message();
        match self {
            PermissionDomainError::InvalidName => AppError::BadRequest(m),
            PermissionDomainError::NotFound => AppError::NotFound(m),
            PermissionDomainError::PermissionTaken => AppError::Conflict(m),
        }
    }
}

} // verus!
