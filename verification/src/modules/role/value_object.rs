//! The validated name of a role: an identifier such as `admin` or
//! `report.viewer`.

use vstd::prelude::*;

use super::errors::RoleDomainError;
use crate::text::{ascii_alphanumeric, is_ascii_alphanumeric, trim_str, trimmed, utf8_len, chars_of};

verus! {

/// A character allowed in an identifier name: an ASCII letter or digit,
/// `_` or `.`.
pub open spec fn identifier_char(c: char) -> bool {
    is_ascii_alphanumeric(c) || c == '_' || c == '.'
}

/// A valid identifier name: after trimming, 3 to 150 bytes long and made
/// of identifier characters only.
pub open spec fn valid_identifier(raw: Seq<char>) -> bool {
    let t = trimmed(raw);
    &&& 3 <= utf8_len(t) <= 150
    &&& forall|i: int| 0 <= i < t.len() ==> identifier_char(#[trigger] t[i])
}

/// A name is accepted exactly when, once trimmed, it is 3 to 150 bytes long
/// and each of its characters is a lowercase or uppercase ASCII letter, an
/// ASCII digit, `_` or `.`.
pub proof fn lemma_identifier_rule(raw: Seq<char>)
    ensures
        valid_identifier(raw) <==> (3 <= utf8_len(trimmed(raw)) <= 150 && forall|i: int|
            0 <= i < trimmed(raw).len() ==> {
                let c = #[trigger] trimmed(raw)[i];
                ||| ('a' <= c && c <= 'z')
                ||| ('A' <= c && c <= 'Z')
                ||| ('0' <= c && c <= '9')
                ||| c == '_'
                ||| c == '.'
            }),
{
}

/// Checks `raw` against [`valid_identifier`], giving its trimmed text.
pub fn check_identifier(raw: &str) -> (r: Option<String>)
    ensures
        match r {
            Some(s) => valid_identifier(raw@) && s@ == trimmed(raw@),
            None => !valid_identifier(raw@),
        },
{
    let t = trim_str(raw);
    let n = t.as_bytes().len();
    if n < 3 || n > 150 {
        return None;
    }
    let cs = chars_of(t);
    let mut i: usize = 0;
    while i < cs.len()
        invariant
            i <= cs@.len(),
            cs@ == t@,
            t@ == trimmed(raw@),
            forall|q: int| 0 <= q < i ==> identifier_char(#[trigger] cs@[q]),
        decreases cs@.len() - i,
    {
        let c = cs[i];
        if !(ascii_alphanumeric(c) || c == '_' || c == '.') {
            proof {
                assert(!identifier_char(trimmed(raw@)[i as int]));
            }
            return None;
        }
        i = i + 1;
    }
    Some(String::from_str(t))
}

/// The trimmed name of a role.
#[derive(Debug, Clone, PartialEq, Eq)]
pub struct Name(String);

impl View for Name {
    type V = Seq<char>;

    closed spec fn view(&self) -> Seq<char> {
        self.0@
    }
}

impl Name {
    /// Trims `raw` and accepts it when it is 3 to 150 bytes long and holds
    /// only ASCII letters, digits, `_` and `.`.
    pub fn parse(raw: &str) -> (r: Result<Name, RoleDomainError>)
        ensures
            match r {
                Ok(n) => valid_identifier(raw@) && n@ == trimmed(raw@),
                Err(e) => !valid_identifier(raw@) && e == RoleDomainError::InvalidName,
            },
    {
        match check_identifier(raw) {
            Some(s) => Ok(Name(s)),
            None => Err(RoleDomainError::InvalidName),
        }
    }

    pub fn as_str(&self) -> (s: &str)
        ensures
            s@ == self@,
    {
        self.0.as_str()
    }
}

} // verus!
