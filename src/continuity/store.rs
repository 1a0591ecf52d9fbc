//! What the engine reads from the narrative data store, as plain values.
use crate::models::RuleScope;
use vstd::prelude::*;

verus! {

/// A position in the telling: act position, chapter number, scene position.
#[derive(Clone, Copy, Debug, PartialEq, Eq, Structural)]
pub struct NarrativePosition {
    pub act: i64,
    pub chapter: i64,
    pub scene: i64,
}

/// A scene as the store holds it. `act_position` and `chapter_number` are
/// `None` where the scene's chapter or act link is missing.
pub struct SceneRecord {
    pub id: String,
    pub title: String,
    pub act_position: Option<i64>,
    pub chapter_number: Option<i64>,
    pub position: i64,
    pub content: String,
    pub outline: String,
    pub time_marker: String,
    pub active_characters: Vec<String>,
}

pub struct SceneModel {
    pub id: Seq<char>,
    pub title: Seq<char>,
    pub act: Option<i64>,
    pub chapter: Option<i64>,
    pub position: i64,
    pub content: Seq<char>,
    pub outline: Seq<char>,
    pub time_marker: Seq<char>,
    pub active: Seq<Seq<char>>,
}

impl View for SceneRecord {
    type V = SceneModel;

    open spec fn view(&self) -> SceneModel {
        SceneModel {
            id: self.id@,
            title: self.title@,
            act: self.act_position,
            chapter: self.chapter_number,
            position: self.position,
            content: self.content@,
            outline: self.outline@,
            time_marker: self.time_marker@,
            active: strings_view(self.active_characters@),
        }
    }
}

/// The state snapshot of one character, recorded for one scene.
pub struct StateSnapshot {
    pub character_id: String,
    pub scene_id: String,
    pub text: String,
    pub recorded_at: String,
}

pub struct SnapshotModel {
    pub character: Seq<char>,
    pub scene: Seq<char>,
    pub text: Seq<char>,
    pub recorded_at: Seq<char>,
}

impl View for StateSnapshot {
    type V = SnapshotModel;

    open spec fn view(&self) -> SnapshotModel {
        SnapshotModel {
            character: self.character_id@,
            scene: self.scene_id@,
            text: self.text@,
            recorded_at: self.recorded_at@,
        }
    }
}

/// A world rule; `keywords` is its keyword text as stored.
pub struct WorldRuleRecord {
    pub id: String,
    pub name: String,
    pub description: String,
    pub scope: RuleScope,
    pub keywords: String,
}

pub struct RuleModel {
    pub id: Seq<char>,
    pub name: Seq<char>,
    pub description: Seq<char>,
    pub scope: RuleScope,
    pub keywords: Seq<char>,
}

impl View for WorldRuleRecord {
    type V = RuleModel;

    open spec fn view(&self) -> RuleModel {
        RuleModel {
            id: self.id@,
            name: self.name@,
            description: self.description@,
            scope: self.scope,
            keywords: self.keywords@,
        }
    }
}

/// The contents of one project that a scan reads.
pub struct NarrativeStore {
    pub project_id: String,
    pub scenes: Vec<SceneRecord>,
    pub snapshots: Vec<StateSnapshot>,
    pub rules: Vec<WorldRuleRecord>,
}

pub struct StoreModel {
    pub project: Seq<char>,
    pub scenes: Seq<SceneModel>,
    pub snapshots: Seq<SnapshotModel>,
    pub rules: Seq<RuleModel>,
}

impl View for NarrativeStore {
    type V = StoreModel;

    open spec fn view(&self) -> StoreModel {
        StoreModel {
            project: self.project_id@,
            scenes: self.scenes@.map_values(|s: SceneRecord| s@),
            snapshots: self.snapshots@.map_values(|s: StateSnapshot| s@),
            rules: self.rules@.map_values(|r: WorldRuleRecord| r@),
        }
    }
}

pub open spec fn strings_view(v: Seq<String>) -> Seq<Seq<char>> {
    v.map_values(|s: String| s@)
}

/// Two strings hold the same text.
pub fn same_text(a: &String, b: &String) -> (r: bool)
    ensures
        r == (a@ == b@),
{
    *a == *b
}

/// A copy of a string.
pub fn copy_text(a: &String) -> (r: String)
    ensures
        r@ == a@,
{
    a.clone()
}

} // verus!
