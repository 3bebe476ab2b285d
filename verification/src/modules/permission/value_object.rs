//! The validated name of a permission, an identifier such as `user.manage`.

use vstd::prelude::*;

use super::errors::PermissionDomainError;
use crate::modules::role::value_object::{check_identifier, valid_identifier};
use crate::text::trimmed;

verus! {

/// The trimmed name of a permission; the same identifier rule as role
/// names.
#[derive(Debug, Clone, PartialEq, Eq)]
pub struct Name(String);

impl View for Name {
    type V = Seq<char>;

    closed spec fn view(&self) -> Seq<char> {
        self.0@
    }
}

impl Name {
    /// Trims `raw` and accepts it when it is 3 to 150 bytes long and holds
    /// only ASCII letters, digits, `_` and `.`.
    pub fn parse(raw: &str) -> (r: Result<Name, PermissionDomainError>)
        ensures
            match r {
                Ok(n) => valid_identifier(raw@) && n@ == trimmed(raw@),
                Err(e) => !valid_identifier(raw@) && e == PermissionDomainError::InvalidName,
            },
    {
        match check_identifier(raw) {
            Some(s) => Ok(Name(s)),
            None => Err(PermissionDomainError::InvalidName),
        }
    }

    pub fn as_str(&self) -> (s: &str)
        ensures
            s@ == self@,
    {
        self.0.as_str()
    }
}

} // verus!
