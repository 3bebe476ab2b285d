//! Failures of the setting rules.

use vstd::prelude::*;

use crate::errors::{AppError, AppErrorView};

verus! {

#[derive(Debug, PartialEq, Eq)]
pub enum SettingDomainError {
    InvalidKey,
    NotFound,
}

impl SettingDomainError {
    pub open spec fn text(self) -> Seq<char> {
        match self {
            SettingDomainError::InvalidKey => "setting key is required"@,
            SettingDomainError::NotFound => "setting not found"@,
        }
    }

    pub open spec fn app_view(self) -> AppErrorView {
        match self {
            SettingDomainError::InvalidKey => AppErrorView::BadRequest(self.text()),
            SettingDomainError::NotFound => AppErrorView::NotFound(self.text()),
        }
    }

    /// The failure's message (`to_string`).
    pub fn message(&self) -> (m: String)
        ensures
            m@ == self.text(),
    {
        match self {
            SettingDomainError::InvalidKey => String::from_str("setting key is required"),
            SettingDomainError::NotFound => String::from_str("setting not found"),
        }
    }

    /// The application error for this failure (`From<SettingDomainError> for
    /// AppError`).
    pub fn into_app_error(self) -> (e: AppError)
        ensures
            e@ == self.app_view(),
    {
        let m = self.message();
        match self {
            SettingDomainError::InvalidKey => AppError::BadRequest(m),
            SettingDomainError::NotFound => AppError::NotFound(m),
        }
    }
}

} // verus!
