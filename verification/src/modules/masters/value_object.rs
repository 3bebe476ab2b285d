//! Display names of master groups and items (e.g. "Payment Method"): a
//! human label, not an identifier.

use vstd::prelude::*;

use super::errors::{MasterGroupDomainError, MasterItemDomainError};
use crate::text::{trim_str, trimmed, utf8_len};

verus! {

/// A valid display name: after trimming, not empty and at most 150 bytes.
pub open spec fn valid_display_name(raw: Seq<char>) -> bool {
    trimmed(raw).len() > 0 && utf8_len(trimmed(raw)) <= 150
}

fn check_display_name(raw: &str) -> (r: Option<String>)
    ensures
        match r {
            Some(s) => valid_display_name(raw@) && s@ == trimmed(raw@),
            None => !valid_display_name(raw@),
        },
{
    let t = trim_str(raw);
    if t.is_empty() || t.as_bytes().len() > 150 {
        return None;
    }
    Some(String::from_str(t))
}

/// The trimmed display name of a master group.
#[derive(Debug, Clone, PartialEq, Eq)]
pub struct Name(String);

impl View for Name {
    type V = Seq<char>;

    closed spec fn view(&self) -> Seq<char> {
        self.0@
    }
}

impl Name {
    /// Trims `raw` and accepts it when it is not empty and at most 150
    /// bytes long.
    pub fn parse(raw: &str) -> (r: Result<Name, MasterGroupDomainError>)
        ensures
            match r {
                Ok(n) => valid_display_name(raw@) && n@ == trimmed(raw@),
                Err(e) => !valid_display_name(raw@) && e == MasterGroupDomainError::InvalidName,
            },
    {
        match check_display_name(raw) {
            Some(s) => Ok(Name(s)),
            None => Err(MasterGroupDomainError::InvalidName),
        }
    }

    pub fn as_str(&self) -> (s: &str)
        ensures
            s@ == self@,
    {
        self.0.as_str()
    }
}

/// The trimmed display name of a master item: the same rule as [`Name`],
/// with the item's own error.
#[derive(Debug, Clone, PartialEq, Eq)]
pub struct ItemName(String);

impl View for ItemName {
    type V = Seq<char>;

    closed spec fn view(&self) -> Seq<char> {
        self.0@
    }
}

impl ItemName {
    /// Trims `raw` and accepts it when it is not empty and at most 150
    /// bytes long.
    pub fn parse(raw: &str) -> (r: Result<ItemName, MasterItemDomainError>)
        ensures
            match r {
                Ok(n) => valid_display_name(raw@) && n@ == trimmed(raw@),
                Err(e) => !valid_display_name(raw@) && e == MasterItemDomainError::InvalidName,
            },
    {
        match check_display_name(raw) {
            Some(s) => Ok(ItemName(s)),
            None => Err(MasterItemDomainError::InvalidName),
        }
    }

    pub fn as_str(&self) -> (s: &str)
        ensures
            s@ == self@,
    {
        self.0.as_str()
    }
}

} // verus!
