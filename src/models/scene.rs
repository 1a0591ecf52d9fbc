use crate::continuity::text::text_eq;
use vstd::prelude::*;

verus! {

/// Where a scene or chapter stands.
#[derive(Clone, Copy, Debug, PartialEq, Eq, Structural)]
pub enum SceneStatus {
    Planned,
    Draft,
    Complete,
    NeedsRevision,
}

impl SceneStatus {
    /// The stored name of each variant.
    pub open spec fn name(self) -> Seq<char> {
        match self {
            SceneStatus::Planned => "planned"@,
            SceneStatus::Draft => "draft"@,
            SceneStatus::Complete => "complete"@,
            SceneStatus::NeedsRevision => "needs_revision"@,
        }
    }

    /// The variant whose stored name is `s`, if any.
    pub open spec fn parse(s: Seq<char>) -> Option<Self> {
        if s == "planned"@ {
            Some(SceneStatus::Planned)
        } else if s == "draft"@ {
            Some(SceneStatus::Draft)
        } else if s == "complete"@ {
            Some(SceneStatus::Complete)
        } else if s == "needs_revision"@ {
            Some(SceneStatus::NeedsRevision)
        } else {
            None
        }
    }

    pub fn from_str(s: &str) -> (r: Option<Self>)
        ensures
            r == Self::parse(s@),
    {
        if text_eq(s, "planned") {
            Some(SceneStatus::Planned)
        } else if text_eq(s, "draft") {
            Some(SceneStatus::Draft)
        } else if text_eq(s, "complete") {
            Some(SceneStatus::Complete)
        } else if text_eq(s, "needs_revision") {
            Some(SceneStatus::NeedsRevision)
        } else {
            None
        }
    }

    pub fn to_string(&self) -> (r: String)
        ensures
            r@ == self.name(),
    {
        match self {
            SceneStatus::Planned => String::from_str("planned"),
            SceneStatus::Draft => String::from_str("draft"),
            SceneStatus::Complete => String::from_str("complete"),
            SceneStatus::NeedsRevision => String::from_str("needs_revision"),
        }
    }
}

/// The plot structure of a project.
#[derive(Clone, Copy, Debug, PartialEq, Eq, Structural)]
pub enum StructureType {
    ThreeAct,
    FiveAct,
    HeroJourney,
    Custom,
}

impl StructureType {
    /// The stored name of each variant.
    pub open spec fn name(self) -> Seq<char> {
        match self {
            StructureType::ThreeAct => "three_act"@,
            StructureType::FiveAct => "five_act"@,
            StructureType::HeroJourney => "hero_journey"@,
            StructureType::Custom => "custom"@,
        }
    }

    /// The variant whose stored name is `s`, if any.
    pub open spec fn parse(s: Seq<char>) -> Option<Self> {
        if s == "three_act"@ {
            Some(StructureType::ThreeAct)
        } else if s == "five_act"@ {
            Some(StructureType::FiveAct)
        } else if s == "hero_journey"@ {
            Some(StructureType::HeroJourney)
        } else if s == "custom"@ {
            Some(StructureType::Custom)
        } else {
            None
        }
    }

    pub fn from_str(s: &str) -> (r: Option<Self>)
        ensures
            r == Self::parse(s@),
    {
        if text_eq(s, "three_act") {
            Some(StructureType::ThreeAct)
        } else if text_eq(s, "five_act") {
            Some(StructureType::FiveAct)
        } else if text_eq(s, "hero_journey") {
            Some(StructureType::HeroJourney)
        } else if text_eq(s, "custom") {
            Some(StructureType::Custom)
        } else {
            None
        }
    }

    pub fn to_string(&self) -> (r: String)
        ensures
            r@ == self.name(),
    {
        match self {
            StructureType::ThreeAct => String::from_str("three_act"),
            StructureType::FiveAct => String::from_str("five_act"),
            StructureType::HeroJourney => String::from_str("hero_journey"),
            StructureType::Custom => String::from_str("custom"),
        }
    }
}

/// One act of a default plot structure: its name and position.
pub open spec fn act(name: Seq<char>, position: int) -> (Seq<char>, int) {
    (name, position)
}

impl StructureType {
    /// The acts that a new plot structure of this type starts with.
    pub open spec fn default_act_list(self) -> Seq<(Seq<char>, int)> {
        match self {
            StructureType::ThreeAct => seq![
                act("Act 1: Setup"@, 1),
                act("Act 2: Confrontation"@, 2),
                act("Act 3: Resolution"@, 3),
            ],
            StructureType::FiveAct => seq![
                act("Act 1: Exposition"@, 1),
                act("Act 2: Rising Action"@, 2),
                act("Act 3: Climax"@, 3),
                act("Act 4: Falling Action"@, 4),
                act("Act 5: Resolution"@, 5),
            ],
            StructureType::HeroJourney => seq![
                act("Part 1: Ordinary World"@, 1),
                act("Part 2: Call to Adventure"@, 2),
                act("Part 3: Tests & Trials"@, 3),
                act("Part 4: Ordeal & Reward"@, 4),
                act("Part 5: Return & Transformation"@, 5),
            ],
            StructureType::Custom => Seq::empty(),
        }
    }

    /// The acts that a new plot structure of this type starts with, as
    /// (name, position) pairs in order.
    pub fn default_acts(&self) -> (r: Vec<(String, i32)>)
        ensures
            r@.map_values(|a: (String, i32)| (a.0@, a.1 as int)) == self.default_act_list(),
    {
        let mut v: Vec<(String, i32)> = Vec::new();
        match self {
            StructureType::ThreeAct => {
                v.push((String::from_str("Act 1: Setup"), 1));
                v.push((String::from_str("Act 2: Confrontation"), 2));
                v.push((String::from_str("Act 3: Resolution"), 3));
            },
            StructureType::FiveAct => {
                v.push((String::from_str("Act 1: Exposition"), 1));
                v.push((String::from_str("Act 2: Rising Action"), 2));
                v.push((String::from_str("Act 3: Climax"), 3));
                v.push((String::from_str("Act 4: Falling Action"), 4));
                v.push((String::from_str("Act 5: Resolution"), 5));
            },
            StructureType::HeroJourney => {
                v.push((String::from_str("Part 1: Ordinary World"), 1));
                v.push((String::from_str("Part 2: Call to Adventure"), 2));
                v.push((String::from_str("Part 3: Tests & Trials"), 3));
                v.push((String::from_str("Part 4: Ordeal & Reward"), 4));
                v.push((String::from_str("Part 5: Return & Transformation"), 5));
            },
            StructureType::Custom => {},
        }
        assert(v@.map_values(|a: (String, i32)| (a.0@, a.1 as int)) =~= self.default_act_list());
        v
    }
}

} // verus!
