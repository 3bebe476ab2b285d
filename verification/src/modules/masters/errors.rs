//! Failures of the master-data rules.

use vstd::prelude::*;

use crate::errors::{AppError, AppErrorView};

verus! {

#[derive(Debug, PartialEq, Eq)]
pub enum MasterGroupDomainError {
    InvalidName,
    NotFound,
    MasterGroupTaken,
}

impl MasterGroupDomainError {
    pub open spec fn text(self) -> Seq<char> {
        match self {
            MasterGroupDomainError::InvalidName => "invalid name"@,
            MasterGroupDomainError::NotFound => "master group not found"@,
            MasterGroupDomainError::MasterGroupTaken => "master group is already created"@,
        }
    }

    pub open spec fn app_view(self) -> AppErrorView {
        match self {
            MasterGroupDomainError::InvalidName => AppErrorView::BadRequest(self.text()),
            MasterGroupDomainError::NotFound => AppErrorView::NotFound(self.text()),
            MasterGroupDomainError::MasterGroupTaken => AppErrorView::Conflict(self.text()),
        }
    }

    /// The failure's message (`to_string`).
    pub fn message(&self) -> (m: String)
        ensures
            m@ == self.text(),
    {
        match self {
            MasterGroupDomainError::InvalidName => String::from_str("invalid name"),
            MasterGroupDomainError::NotFound => String::from_str("master group not found"),
            MasterGroupDomainError::MasterGroupTaken => String::from_str(
                "master group is already created",
            ),
        }
    }

    /// The application error for this failure (`From<MasterGroupDomainError>
    /// for AppError`).
    pub fn into_app_error(self) -> (e: AppError)
        ensures
            e@ == self.app_view(),
    {
        let m = self.message();
        match self {
            MasterGroupDomainError::InvalidName => AppError::BadRequest(m),
            MasterGroupDomainError::NotFound => AppError::NotFound(m),
            MasterGroupDomainError::MasterGroupTaken => AppError::Conflict(m),
        }
    }
}

#[derive(Debug, PartialEq, Eq)]
pub enum MasterItemDomainError {
    InvalidName,
    NotFound,
    MasterItemTaken,
}

impl MasterItemDomainError {
    pub open spec fn text(self) -> Seq<char> {
        match self {
            MasterItemDomainError::InvalidName => "invalid name"@,
            MasterItemDomainError::NotFound => "master item not found"@,
            MasterItemDomainError::MasterItemTaken => "master item is already created"@,
        }
    }

    pub open spec fn app_view(self) -> AppErrorView {
        match self {
            MasterItemDomainError::InvalidName => AppErrorView::BadRequest(self.text()),
            MasterItemDomainError::NotFound => AppErrorView::NotFound(self.text()),
            MasterItemDomainError::MasterItemTaken => AppErrorView::Conflict(self.text()),
        }
    }

    /// The failure's message (`to_string`).
    pub fn message(&self) -> (m: String)
        ensures
            m@ == self.text(),
    {
        match self {
            MasterItemDomainError::InvalidName => String::from_str("invalid name"),
            MasterItemDomainError::NotFound => String::from_str("master item not found"),
            MasterItemDomainError::MasterItemTaken => String::from_str(
                "master item is already created",
            ),
        }
    }

    /// The application error for this failure (`From<MasterItemDomainError>
    /// for AppError`).
    pub fn into_app_error(self) -> (e: AppError)
        ensures
            e@ == self.app_view(),
    {
        let m = self.message();
        match self {
            MasterItemDomainError::InvalidName => AppError::BadRequest(m),
            MasterItemDomainError::NotFound => AppError::NotFound(m),
            MasterItemDomainError::MasterItemTaken => AppError::Conflict(m),
        }
    }
}

} // verus!
