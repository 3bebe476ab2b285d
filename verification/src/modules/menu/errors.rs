//! Failures of the menu rules.

use vstd::prelude::*;

use crate::errors::{AppError, AppErrorView};

verus! {

#[derive(Debug, PartialEq, Eq)]
pub enum MenuDomainError {
    InvalidName,
    NotFound,
    ParentNotFound,
    SlugTaken,
    CircularParent,
}

impl MenuDomainError {
    /// The message of each failure.
    pub open spec fn text(self) -> Seq<char> {
        match self {
            MenuDomainError::InvalidName => "name is required"@,
            MenuDomainError::NotFound => "menu not found"@,
            MenuDomainError::ParentNotFound => "parent menu not found"@,
            MenuDomainError::SlugTaken => "slug is already registered"@,
            MenuDomainError::CircularParent => "a menu cannot be moved under itself or one of its own descendants"@,
        }
    }

    /// The application error each failure is answered with.
    pub open spec fn app_view(self) -> AppErrorView {
        match self {
            MenuDomainError::InvalidName => AppErrorView::BadRequest(self.text()),
            MenuDomainError::NotFound => AppErrorView::NotFound(self.text()),
            MenuDomainError::ParentNotFound => AppErrorView::NotFound(self.text()),
            MenuDomainError::SlugTaken => AppErrorView::Conflict(self.text()),
            MenuDomainError::CircularParent => AppErrorView::BadRequest(self.text()),
        }
    }

    /// The failure's message (`to_string`).
    pub fn message(&self) -> (m: String)
        ensures
            m@ == self.text(),
    {
        match self {
            MenuDomainError::InvalidName => String::from_str("name is required"),
            MenuDomainError::NotFound => String::from_str("menu not found"),
            MenuDomainError::ParentNotFound => String::from_str("parent menu not found"),
            MenuDomainError::SlugTaken => String::from_str("slug is already registered"),
            MenuDomainError::CircularParent => String::from_str(
                "a menu cannot be moved under itself or one of its own descendants",
            ),
        }
    }

    /// The application error for this failure (`From<MenuDomainError> for
    /// AppError`).
    pub fn into_app_error(self) -> (e: AppError)
        ensures
            e@ == self.app_view(),
    {
        let m = self.message();
        match self {
            MenuDomainError::InvalidName => AppError::BadRequest(m),
            MenuDomainError::NotFound => AppError::NotFound(m),
            MenuDomainError::ParentNotFound => AppError::NotFound(m),
            MenuDomainError::SlugTaken => AppError::Conflict(m),
            MenuDomainError::CircularParent => AppError::BadRequest(m),
        }
    }
}

} // verus!
