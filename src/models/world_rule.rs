use crate::continuity::text::text_eq;
use vstd::prelude::*;

verus! {

/// How far a world rule reaches.
#[derive(Clone, Copy, Debug, PartialEq, Eq, Structural)]
pub enum RuleScope {
    Universal,
    Regional,
    Situational,
}

impl RuleScope {
    /// The stored name of each variant.
    pub open spec fn name(self) -> Seq<char> {
        match self {
            RuleScope::Universal => "universal"@,
            RuleScope::Regional => "regional"@,
            RuleScope::Situational => "situational"@,
        }
    }

    /// The variant whose stored name is `s`, if any.
    pub open spec fn parse(s: Seq<char>) -> Option<Self> {
        if s == "universal"@ {
            Some(RuleScope::Universal)
        } else if s == "regional"@ {
            Some(RuleScope::Regional)
        } else if s == "situational"@ {
            Some(RuleScope::Situational)
        } else {
            None
        }
    }

    pub fn from_str(s: &str) -> (r: Option<Self>)
        ensures
            r == Self::parse(s@),
    {
        if text_eq(s, "universal") {
            Some(RuleScope::Universal)
        } else if text_eq(s, "regional") {
            Some(RuleScope::Regional)
        } else if text_eq(s, "situational") {
            Some(RuleScope::Situational)
        } else {
            None
        }
    }

    pub fn to_string(&self) -> (r: String)
        ensures
            r@ == self.name(),
    {
        match self {
            RuleScope::Universal => String::from_str("universal"),
            RuleScope::Regional => String::from_str("regional"),
            RuleScope::Situational => String::from_str("situational"),
        }
    }
}

} // verus!
