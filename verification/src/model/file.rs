//! Identifiers of drive files and folders.

use vstd::prelude::*;

verus! {
/// The id of a file in the drive.
#[derive(Clone, PartialEq, Eq, Hash, Debug)]
pub struct FileId(pub String);

impl FileId {
    /// The id as text.
    pub fn to_string(&self) -> (s: String)
        ensures
            s@ == self.0@,
    {
        self.0.clone()
    }
}

impl std::str::FromStr for FileId {
    type Err = std::convert::Infallible;

    /// Takes the text as it is; every text is accepted.
    fn from_str(s: &str) -> (r: Result<FileId, std::convert::Infallible>)
        ensures
            r matches Ok(id) && id.0@ == s@,
    {
        Ok(FileId(s.to_owned()))
    }
}

/// The id of a folder in the drive.
#[derive(Clone, PartialEq, Eq, Hash, Debug)]
pub struct FolderId(pub String);

impl FolderId {
    /// The id as text.
    pub fn to_string(&self) -> (s: String)
        ensures
            s@ == self.0@,
    {
        self.0.clone()
    }
}

impl std::str::FromStr for FolderId {
    type Err = std::convert::Infallible;

    /// Takes the text as it is; every text is accepted.
    fn from_str(s: &str) -> (r: Result<FolderId, std::convert::Infallible>)
        ensures
            r matches Ok(id) && id.0@ == s@,
    {
        Ok(FolderId(s.to_owned()))
    }
}

} // verus!
