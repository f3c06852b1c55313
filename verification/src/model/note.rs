//! Notes: tags, reactions, visibility and polls.

use vstd::prelude::*;
use crate::model::text::same_text;

verus! {
/// A hashtag, kept with or without its leading `#`.
#[derive(Clone, PartialEq, Eq, Hash, Debug)]
pub struct Tag(pub String);

impl Tag {
    /// The tag as it is shown: with exactly the `#` it needs in front.
    pub open spec fn text(self) -> Seq<char> {
        if self.0@.len() > 0 && self.0@[0] == '#' {
            self.0@
        } else {
            seq!['#'] + self.0@
        }
    }

    /// Writes the tag with a leading `#`, adding one where the tag has none.
    pub fn to_string(&self) -> (s: String)
        ensures
            s@ == self.text(),
    {
        let hashed = self.0.as_str().unicode_len() > 0 && self.0.as_str().get_char(0) == '#';
        if hashed {
            self.0.clone()
        } else {
            let mut s = String::new();
            s.push('#');
            s.append(self.0.as_str());
            assert(s@ =~= seq!['#'] + self.0@);
            s
        }
    }
}

impl std::str::FromStr for Tag {
    type Err = std::convert::Infallible;

    /// Takes the text as it is; every text is accepted.
    fn from_str(s: &str) -> (r: Result<Tag, std::convert::Infallible>)
        ensures
            r matches Ok(tag) && tag.0@ == s@,
    {
        Ok(Tag(s.to_owned()))
    }
}

impl From<String> for Tag {
    fn from(s: String) -> (tag: Tag)
        ensures
            tag.0 == s,
    {
        Tag(s)
    }
}

impl vstd::std_specs::convert::FromSpecImpl<String> for Tag {
    open spec fn obeys_from_spec() -> bool {
        true
    }

    open spec fn from_spec(s: String) -> Tag {
        Tag(s)
    }
}

/// A reaction to a note: an emoji or the name of a custom one.
#[derive(Clone, PartialEq, Eq, Hash, Debug)]
pub struct Reaction(pub String);

impl Reaction {
    /// The reaction as text.
    pub fn to_string(&self) -> (s: String)
        ensures
            s@ == self.0@,
    {
        self.0.clone()
    }
}

impl std::str::FromStr for Reaction {
    type Err = std::convert::Infallible;

    /// Takes the text as it is; every text is accepted.
    fn from_str(s: &str) -> (r: Result<Reaction, std::convert::Infallible>)
        ensures
            r matches Ok(reaction) && reaction.0@ == s@,
    {
        Ok(Reaction(s.to_owned()))
    }
}

impl From<String> for Reaction {
    fn from(s: String) -> (reaction: Reaction)
        ensures
            reaction.0 == s,
    {
        Reaction(s)
    }
}

impl vstd::std_specs::convert::FromSpecImpl<String> for Reaction {
    open spec fn obeys_from_spec() -> bool {
        true
    }

    open spec fn from_spec(s: String) -> Reaction {
        Reaction(s)
    }
}

/// Who may see a note.
#[derive(Debug, Clone, PartialEq, Eq, Copy)]
pub enum Visibility {
    Public,
    Home,
    Followers,
    Specified,
}

/// The text named no visibility.
#[derive(Debug, Clone, Copy)]
pub struct ParseVisibilityError {
    _priv: (),
}

impl ParseVisibilityError {
    /// The message of this error.
    pub fn to_string(&self) -> (s: String)
        ensures
            s@ == "invalid note visibility"@,
    {
        "invalid note visibility".to_owned()
    }
}

impl Visibility {
    /// The visibility that `s` names, in camel case or with a capital first
    /// letter.
    pub open spec fn named(s: Seq<char>) -> Option<Visibility> {
        if s == "public"@ || s == "Public"@ {
            Some(Visibility::Public)
        } else if s == "home"@ || s == "Home"@ {
            Some(Visibility::Home)
        } else if s == "followers"@ || s == "Followers"@ {
            Some(Visibility::Followers)
        } else if s == "specified"@ || s == "Specified"@ {
            Some(Visibility::Specified)
        } else {
            None
        }
    }
}

impl std::str::FromStr for Visibility {
    type Err = ParseVisibilityError;

    /// Reads a visibility from its name.
    fn from_str(s: &str) -> (r: Result<Visibility, ParseVisibilityError>)
        ensures
            match r {
                Ok(v) => Visibility::named(s@) == Some(v),
                Err(_) => Visibility::named(s@) is None,
            },
    {
        if same_text(s, "public") || same_text(s, "Public") {
            Ok(Visibility::Public)
        } else if same_text(s, "home") || same_text(s, "Home") {
            Ok(Visibility::Home)
        } else if same_text(s, "followers") || same_text(s, "Followers") {
            Ok(Visibility::Followers)
        } else if same_text(s, "specified") || same_text(s, "Specified") {
            Ok(Visibility::Specified)
        } else {
            Err(ParseVisibilityError { _priv: () })
        }
    }
}

/// Which reactions a note accepts.
#[derive(Debug, Clone, PartialEq, Eq, Copy)]
pub enum ReactionAcceptance {
    LikeOnly,
    LikeOnlyForRemote,
    NonSensitiveOnly,
    NonSensitiveOnlyForLocalLikeOnlyForRemote,
}

/// The text named no reaction acceptance.
#[derive(Debug, Clone, Copy)]
pub struct ParseReactionAcceptanceError {
    _priv: (),
}

impl ParseReactionAcceptanceError {
    /// The message of this error.
    pub fn to_string(&self) -> (s: String)
        ensures
            s@ == "invalid reaction acceptance"@,
    {
        "invalid reaction acceptance".to_owned()
    }
}

impl ReactionAcceptance {
    /// The acceptance that `s` names, in camel case or with a capital first
    /// letter.
    pub open spec fn named(s: Seq<char>) -> Option<ReactionAcceptance> {
        if s == "likeOnly"@ || s == "LikeOnly"@ {
            Some(ReactionAcceptance::LikeOnly)
        } else if s == "likeOnlyForRemote"@ || s == "LikeOnlyForRemote"@ {
            Some(ReactionAcceptance::LikeOnlyForRemote)
        } else if s == "nonSensitiveOnly"@ || s == "NonSensitiveOnly"@ {
            Some(ReactionAcceptance::NonSensitiveOnly)
        } else if s == "nonSensitiveOnlyForLocalLikeOnlyForRemote"@ || s
            == "NonSensitiveOnlyForLocalLikeOnlyForRemote"@ {
            Some(ReactionAcceptance::NonSensitiveOnlyForLocalLikeOnlyForRemote)
        } else {
            None
        }
    }
}

impl std::str::FromStr for ReactionAcceptance {
    type Err = ParseReactionAcceptanceError;

    /// Reads an acceptance from its name.
    fn from_str(s: &str) -> (r: Result<ReactionAcceptance, ParseReactionAcceptanceError>)
        ensures
            match r {
                Ok(v) => ReactionAcceptance::named(s@) == Some(v),
                Err(_) => ReactionAcceptance::named(s@) is None,
            },
    {
        if same_text(s, "likeOnly") || same_text(s, "LikeOnly") {
            Ok(ReactionAcceptance::LikeOnly)
        } else if same_text(s, "likeOnlyForRemote") || same_text(s, "LikeOnlyForRemote") {
            Ok(ReactionAcceptance::LikeOnlyForRemote)
        } else if same_text(s, "nonSensitiveOnly") || same_text(s, "NonSensitiveOnly") {
            Ok(ReactionAcceptance::NonSensitiveOnly)
        } else if same_text(s, "nonSensitiveOnlyForLocalLikeOnlyForRemote") || same_text(
            s,
            "NonSensitiveOnlyForLocalLikeOnlyForRemote",
        ) {
            Ok(ReactionAcceptance::NonSensitiveOnlyForLocalLikeOnlyForRemote)
        } else {
            Err(ParseReactionAcceptanceError { _priv: () })
        }
    }
}

/// One choice of a poll.
#[derive(Debug, Clone)]
pub struct PollChoice {
    pub is_voted: bool,
    pub text: String,
    pub votes: u64,
}

/// The channel a note was posted to, as notes carry it.
#[derive(Debug, Clone)]
pub struct NoteChannel {
    pub id: String,
    pub name: String,
    pub color: String,
}

/// The value of a flag that a note leaves out.
pub fn default_false() -> (b: bool)
    ensures
        !b,
{
    false
}

} // verus!
