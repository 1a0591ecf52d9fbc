use crate::continuity::text::text_eq;
use vstd::prelude::*;

verus! {

/// The intended length of a story project.
#[derive(Clone, Copy, Debug, PartialEq, Eq, Structural)]
pub enum ProjectLength {
    ShortStory,
    Novella,
    Novel,
    Series,
}

impl ProjectLength {
    /// The stored name of each variant.
    pub open spec fn name(self) -> Seq<char> {
        match self {
            ProjectLength::ShortStory => "short_story"@,
            ProjectLength::Novella => "novella"@,
            ProjectLength::Novel => "novel"@,
            ProjectLength::Series => "series"@,
        }
    }

    /// The variant whose stored name is `s`, if any.
    pub open spec fn parse(s: Seq<char>) -> Option<Self> {
        if s == "short_story"@ {
            Some(ProjectLength::ShortStory)
        } else if s == "novella"@ {
            Some(ProjectLength::Novella)
        } else if s == "novel"@ {
            Some(ProjectLength::Novel)
        } else if s == "series"@ {
            Some(ProjectLength::Series)
        } else {
            None
        }
    }

    pub fn from_str(s: &str) -> (r: Option<Self>)
        ensures
            r == Self::parse(s@),
    {
        if text_eq(s, "short_story") {
            Some(ProjectLength::ShortStory)
        } else if text_eq(s, "novella") {
            Some(ProjectLength::Novella)
        } else if text_eq(s, "novel") {
            Some(ProjectLength::Novel)
        } else if text_eq(s, "series") {
            Some(ProjectLength::Series)
        } else {
            None
        }
    }

    pub fn to_string(&self) -> (r: String)
        ensures
            r@ == self.name(),
    {
        match self {
            ProjectLength::ShortStory => String::from_str("short_story"),
            ProjectLength::Novella => String::from_str("novella"),
            ProjectLength::Novel => String::from_str("novel"),
            ProjectLength::Series => String::from_str("series"),
        }
    }
}

/// Where a story project stands.
#[derive(Clone, Copy, Debug, PartialEq, Eq, Structural)]
pub enum ProjectStatus {
    Draft,
    InProgress,
    Complete,
    Archived,
}

impl ProjectStatus {
    /// The stored name of each variant.
    pub open spec fn name(self) -> Seq<char> {
        match self {
            ProjectStatus::Draft => "draft"@,
            ProjectStatus::InProgress => "in_progress"@,
            ProjectStatus::Complete => "complete"@,
            ProjectStatus::Archived => "archived"@,
        }
    }

    /// The variant whose stored name is `s`, if any.
    pub open spec fn parse(s: Seq<char>) -> Option<Self> {
        if s == "draft"@ {
            Some(ProjectStatus::Draft)
        } else if s == "in_progress"@ {
            Some(ProjectStatus::InProgress)
        } else if s == "complete"@ {
            Some(ProjectStatus::Complete)
        } else if s == "archived"@ {
            Some(ProjectStatus::Archived)
        } else {
            None
        }
    }

    pub fn from_str(s: &str) -> (r: Option<Self>)
        ensures
            r == Self::parse(s@),
    {
        if text_eq(s, "draft") {
            Some(ProjectStatus::Draft)
        } else if text_eq(s, "in_progress") {
            Some(ProjectStatus::InProgress)
        } else if text_eq(s, "complete") {
            Some(ProjectStatus::Complete)
        } else if text_eq(s, "archived") {
            Some(ProjectStatus::Archived)
        } else {
            None
        }
    }

    pub fn to_string(&self) -> (r: String)
        ensures
            r@ == self.name(),
    {
        match self {
            ProjectStatus::Draft => String::from_str("draft"),
            ProjectStatus::InProgress => String::from_str("in_progress"),
            ProjectStatus::Complete => String::from_str("complete"),
            ProjectStatus::Archived => String::from_str("archived"),
        }
    }
}

} // verus!
