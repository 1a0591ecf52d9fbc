use crate::continuity::text::text_eq;
use vstd::prelude::*;

verus! {

/// The part a character plays in the story.
#[derive(Clone, Copy, Debug, PartialEq, Eq, Structural)]
pub enum CharacterRole {
    Protagonist,
    Antagonist,
    Supporting,
    Minor,
}

impl CharacterRole {
    /// The stored name of each variant.
    pub open spec fn name(self) -> Seq<char> {
        match self {
            CharacterRole::Protagonist => "protagonist"@,
            CharacterRole::Antagonist => "antagonist"@,
            CharacterRole::Supporting => "supporting"@,
            CharacterRole::Minor => "minor"@,
        }
    }

    /// The variant whose stored name is `s`, if any.
    pub open spec fn parse(s: Seq<char>) -> Option<Self> {
        if s == "protagonist"@ {
            Some(CharacterRole::Protagonist)
        } else if s == "antagonist"@ {
            Some(CharacterRole::Antagonist)
        } else if s == "supporting"@ {
            Some(CharacterRole::Supporting)
        } else if s == "minor"@ {
            Some(CharacterRole::Minor)
        } else {
            None
        }
    }

    pub fn from_str(s: &str) -> (r: Option<Self>)
        ensures
            r == Self::parse(s@),
    {
        if text_eq(s, "protagonist") {
            Some(CharacterRole::Protagonist)
        } else if text_eq(s, "antagonist") {
            Some(CharacterRole::Antagonist)
        } else if text_eq(s, "supporting") {
            Some(CharacterRole::Supporting)
        } else if text_eq(s, "minor") {
            Some(CharacterRole::Minor)
        } else {
            None
        }
    }

    pub fn to_string(&self) -> (r: String)
        ensures
            r@ == self.name(),
    {
        match self {
            CharacterRole::Protagonist => String::from_str("protagonist"),
            CharacterRole::Antagonist => String::from_str("antagonist"),
            CharacterRole::Supporting => String::from_str("supporting"),
            CharacterRole::Minor => String::from_str("minor"),
        }
    }
}

/// How one character stands to another.
#[derive(Clone, Copy, Debug, PartialEq, Eq, Structural)]
pub enum RelationshipType {
    Ally,
    Enemy,
    Family,
    Romantic,
    Mentor,
    Rival,
    Neutral,
    Unknown,
}

impl RelationshipType {
    /// The stored name of each variant.
    pub open spec fn name(self) -> Seq<char> {
        match self {
            RelationshipType::Ally => "ally"@,
            RelationshipType::Enemy => "enemy"@,
            RelationshipType::Family => "family"@,
            RelationshipType::Romantic => "romantic"@,
            RelationshipType::Mentor => "mentor"@,
            RelationshipType::Rival => "rival"@,
            RelationshipType::Neutral => "neutral"@,
            RelationshipType::Unknown => "unknown"@,
        }
    }

    /// The variant whose stored name is `s`, if any.
    pub open spec fn parse(s: Seq<char>) -> Option<Self> {
        if s == "ally"@ {
            Some(RelationshipType::Ally)
        } else if s == "enemy"@ {
            Some(RelationshipType::Enemy)
        } else if s == "family"@ {
            Some(RelationshipType::Family)
        } else if s == "romantic"@ {
            Some(RelationshipType::Romantic)
        } else if s == "mentor"@ {
            Some(RelationshipType::Mentor)
        } else if s == "rival"@ {
            Some(RelationshipType::Rival)
        } else if s == "neutral"@ {
            Some(RelationshipType::Neutral)
        } else if s == "unknown"@ {
            Some(RelationshipType::Unknown)
        } else {
            None
        }
    }

    pub fn from_str(s: &str) -> (r: Option<Self>)
        ensures
            r == Self::parse(s@),
    {
        if text_eq(s, "ally") {
            Some(RelationshipType::Ally)
        } else if text_eq(s, "enemy") {
            Some(RelationshipType::Enemy)
        } else if text_eq(s, "family") {
            Some(RelationshipType::Family)
        } else if text_eq(s, "romantic") {
            Some(RelationshipType::Romantic)
        } else if text_eq(s, "mentor") {
            Some(RelationshipType::Mentor)
        } else if text_eq(s, "rival") {
            Some(RelationshipType::Rival)
        } else if text_eq(s, "neutral") {
            Some(RelationshipType::Neutral)
        } else if text_eq(s, "unknown") {
            Some(RelationshipType::Unknown)
        } else {
            None
        }
    }

    pub fn to_string(&self) -> (r: String)
        ensures
            r@ == self.name(),
    {
        match self {
            RelationshipType::Ally => String::from_str("ally"),
            RelationshipType::Enemy => String::from_str("enemy"),
            RelationshipType::Family => String::from_str("family"),
            RelationshipType::Romantic => String::from_str("romantic"),
            RelationshipType::Mentor => String::from_str("mentor"),
            RelationshipType::Rival => String::from_str("rival"),
            RelationshipType::Neutral => String::from_str("neutral"),
            RelationshipType::Unknown => String::from_str("unknown"),
        }
    }
}

} // verus!
