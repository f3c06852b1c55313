//! Invitation codes: the filters and sort keys by which they are listed.

use vstd::prelude::*;
use crate::model::text::same_text;

verus! {

/// Which invitation codes a listing shows.
#[derive(PartialEq, Eq, Clone, Debug, Copy)]
pub enum InviteCodeType {
    Unused,
    Used,
    Expired,
    All,
}

/// The text named no kind of invitation code.
#[derive(Debug, Clone, Copy)]
pub struct ParseInviteCodeTypeError {
    _priv: (),
}

impl ParseInviteCodeTypeError {
    /// The message of this error.
    pub fn to_string(&self) -> (s: String)
        ensures
            s@ == "invalid user origin"@,
    {
        "invalid user origin".to_owned()
    }
}

impl InviteCodeType {
    /// The kind that `s` names, in camel case or with a capital first letter.
    pub open spec fn named(s: Seq<char>) -> Option<InviteCodeType> {
        if s == "unused"@ || s == "Unused"@ {
            Some(InviteCodeType::Unused)
        } else if s == "used"@ || s == "Used"@ {
            Some(InviteCodeType::Used)
        } else if s == "expired"@ || s == "Expired"@ {
            Some(InviteCodeType::Expired)
        } else if s == "all"@ || s == "All"@ {
            Some(InviteCodeType::All)
        } else {
            None
        }
    }
}

impl std::str::FromStr for InviteCodeType {
    type Err = ParseInviteCodeTypeError;

    /// Reads a kind from its name.
    fn from_str(s: &str) -> (r: Result<InviteCodeType, ParseInviteCodeTypeError>)
        ensures
            match r {
                Ok(v) => InviteCodeType::named(s@) == Some(v),
                Err(_) => InviteCodeType::named(s@) is None,
            },
    {
        if same_text(s, "unused") || same_text(s, "Unused") {
            Ok(InviteCodeType::Unused)
        } else if same_text(s, "used") || same_text(s, "Used") {
            Ok(InviteCodeType::Used)
        } else if same_text(s, "expired") || same_text(s, "Expired") {
            Ok(InviteCodeType::Expired)
        } else if same_text(s, "all") || same_text(s, "All") {
            Ok(InviteCodeType::All)
        } else {
            Err(ParseInviteCodeTypeError { _priv: () })
        }
    }
}

/// The field by which a listing of invitation codes is sorted.
#[derive(PartialEq, Eq, Clone, Debug, Copy)]
pub enum InviteCodeSortKey {
    CreatedAt,
    UsedAt,
}

/// The text named no sort key.
#[derive(Debug, Clone, Copy)]
pub struct ParseInviteCodeSortKeyError {
    _priv: (),
}

impl ParseInviteCodeSortKeyError {
    /// The message of this error.
    pub fn to_string(&self) -> (s: String)
        ensures
            s@ == "invalid sort key"@,
    {
        "invalid sort key".to_owned()
    }
}

impl InviteCodeSortKey {
    /// The name of this key in camel case.
    pub open spec fn name(self) -> Seq<char> {
        match self {
            InviteCodeSortKey::CreatedAt => "createdAt"@,
            InviteCodeSortKey::UsedAt => "usedAt"@,
        }
    }

    /// The key that `s` names, in camel case or with a capital first letter.
    pub open spec fn named(s: Seq<char>) -> Option<InviteCodeSortKey> {
        if s == "createdAt"@ || s == "CreatedAt"@ {
            Some(InviteCodeSortKey::CreatedAt)
        } else if s == "usedAt"@ || s == "UsedAt"@ {
            Some(InviteCodeSortKey::UsedAt)
        } else {
            None
        }
    }

    /// Writes the key's name in camel case.
    pub fn to_string(&self) -> (s: String)
        ensures
            s@ == self.name(),
    {
        match self {
            InviteCodeSortKey::CreatedAt => "createdAt".to_owned(),
            InviteCodeSortKey::UsedAt => "usedAt".to_owned(),
        }
    }
}

impl std::str::FromStr for InviteCodeSortKey {
    type Err = ParseInviteCodeSortKeyError;

    /// Reads a key from its name.
    fn from_str(s: &str) -> (r: Result<InviteCodeSortKey, ParseInviteCodeSortKeyError>)
        ensures
            match r {
                Ok(v) => InviteCodeSortKey::named(s@) == Some(v),
                Err(_) => InviteCodeSortKey::named(s@) is None,
            },
    {
        if same_text(s, "createdAt") || same_text(s, "CreatedAt") {
            Ok(InviteCodeSortKey::CreatedAt)
        } else if same_text(s, "usedAt") || same_text(s, "UsedAt") {
            Ok(InviteCodeSortKey::UsedAt)
        } else {
            Err(ParseInviteCodeSortKeyError { _priv: () })
        }
    }
}

/// Every sort key is read back from the name it is written with.
pub proof fn lemma_sort_key_round_trip(key: InviteCodeSortKey)
    ensures
        InviteCodeSortKey::named(key.name()) == Some(key),
{
    reveal_strlit("createdAt");
    reveal_strlit("CreatedAt");
    reveal_strlit("usedAt");
    reveal_strlit("UsedAt");
    match key {
        InviteCodeSortKey::CreatedAt => {},
        InviteCodeSortKey::UsedAt => {
            assert("usedAt"@.len() != "createdAt"@.len());
            assert("usedAt"@.len() != "CreatedAt"@.len());
        },
    }
}

} // verus!
