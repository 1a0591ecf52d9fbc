//! The narrative ordering index: scenes ordered by act, chapter and scene.
use crate::continuity::store::{NarrativePosition, NarrativeStore, SceneModel, SceneRecord, same_text};
use crate::error::StoryError;
use core::cmp::Ordering;
use vstd::prelude::*;

verus! {

/// `a` comes strictly before `b`: by act, then chapter, then scene.
pub open spec fn precedes(a: NarrativePosition, b: NarrativePosition) -> bool {
    a.act < b.act || (a.act == b.act && (a.chapter < b.chapter || (a.chapter == b.chapter
        && a.scene < b.scene)))
}

/// The order of two positions.
pub open spec fn order(a: NarrativePosition, b: NarrativePosition) -> Ordering {
    if precedes(a, b) {
        Ordering::Less
    } else if a == b {
        Ordering::Equal
    } else {
        Ordering::Greater
    }
}

/// The position of a scene, where its act and chapter are known.
pub open spec fn located(s: SceneModel) -> Option<NarrativePosition> {
    match (s.act, s.chapter) {
        (Some(a), Some(c)) => Some(NarrativePosition { act: a, chapter: c, scene: s.position }),
        _ => None,
    }
}

/// The index of the first scene among the first `n` with the given id.
pub open spec fn first_scene(scenes: Seq<SceneModel>, id: Seq<char>, n: int) -> Option<int>
    decreases n,
{
    if n <= 0 {
        None
    } else {
        match first_scene(scenes, id, n - 1) {
            Some(i) => Some(i),
            None => if scenes[n - 1].id == id {
                Some(n - 1)
            } else {
                None
            },
        }
    }
}

/// The index of the first scene with the given id.
pub open spec fn scene_index(scenes: Seq<SceneModel>, id: Seq<char>) -> Option<int> {
    first_scene(scenes, id, scenes.len() as int)
}

/// The position of the scene with the given id; `None` where the scene is
/// absent or lacks its act or chapter.
pub open spec fn position_in(scenes: Seq<SceneModel>, id: Seq<char>) -> Option<NarrativePosition> {
    match scene_index(scenes, id) {
        Some(i) => located(scenes[i]),
        None => None,
    }
}

pub proof fn lemma_first_scene_bounds(scenes: Seq<SceneModel>, id: Seq<char>, n: int)
    requires
        n <= scenes.len(),
    ensures
        first_scene(scenes, id, n) matches Some(i) ==> 0 <= i < n && scenes[i].id == id,
    decreases n,
{
    if n > 0 {
        lemma_first_scene_bounds(scenes, id, n - 1);
    }
}

/// Compares two positions.
pub fn compare(a: &NarrativePosition, b: &NarrativePosition) -> (r: Ordering)
    ensures
        r == order(*a, *b),
{
    if is_before(a, b) {
        Ordering::Less
    } else if a.act == b.act && a.chapter == b.chapter && a.scene == b.scene {
        Ordering::Equal
    } else {
        Ordering::Greater
    }
}

/// `a` comes strictly before `b`.
pub fn is_before(a: &NarrativePosition, b: &NarrativePosition) -> (r: bool)
    ensures
        r == precedes(*a, *b),
{
    a.act < b.act || (a.act == b.act && (a.chapter < b.chapter || (a.chapter == b.chapter
        && a.scene < b.scene)))
}

/// The position of a scene record, where its act and chapter are known.
pub fn location_of(s: &SceneRecord) -> (r: Option<NarrativePosition>)
    ensures
        r == located(s@),
{
    match (s.act_position, s.chapter_number) {
        (Some(a), Some(c)) => Some(NarrativePosition { act: a, chapter: c, scene: s.position }),
        _ => None,
    }
}

/// The index of the first scene with the given id.
pub fn find_scene(scenes: &Vec<SceneRecord>, id: &String) -> (r: Option<usize>)
    ensures
        match scene_index(scenes@.map_values(|s: SceneRecord| s@), id@) {
            Some(i) => r == Some(i as usize) && 0 <= i < scenes.len(),
            None => r is None,
        },
{
    let ghost ms = scenes@.map_values(|s: SceneRecord| s@);
    let mut i: usize = 0;
    while i < scenes.len()
        invariant
            i <= scenes.len(),
            ms == scenes@.map_values(|s: SceneRecord| s@),
            first_scene(ms, id@, i as int) is None,
        decreases scenes.len() - i,
    {
        if same_text(&scenes[i].id, id) {
            proof {
                lemma_first_scene_bounds(ms, id@, ms.len() as int);
                lemma_first_scene_prefix(ms, id@, i as int + 1, ms.len() as int);
            }
            return Some(i);
        }
        i = i + 1;
    }
    None
}

/// Once found among the first `n` scenes, the first match stays the same.
pub proof fn lemma_first_scene_prefix(scenes: Seq<SceneModel>, id: Seq<char>, n: int, m: int)
    requires
        0 <= n <= m,
        first_scene(scenes, id, n) is Some,
    ensures
        first_scene(scenes, id, m) == first_scene(scenes, id, n),
    decreases m - n,
{
    if m > n {
        lemma_first_scene_prefix(scenes, id, n, m - 1);
    }
}

impl NarrativeStore {
    /// Resolves a scene to its narrative position; `NotFound` where the
    /// scene or its chapter or act link is missing.
    pub fn position_of(&self, scene_id: &String) -> (r: Result<NarrativePosition, StoryError>)
        ensures
            match position_in(self@.scenes, scene_id@) {
                Some(p) => r == Ok::<NarrativePosition, StoryError>(p),
                None => r matches Err(StoryError::NotFound(_)),
            },
    {
        match find_scene(&self.scenes, scene_id) {
            Some(i) => match location_of(&self.scenes[i]) {
                Some(p) => Ok(p),
                None => Err(StoryError::NotFound(
                    String::from_str("Scene has no chapter or act: ").concat(scene_id.as_str()),
                )),
            },
            None => Err(StoryError::NotFound(
                String::from_str("Scene not found: ").concat(scene_id.as_str()),
            )),
        }
    }
}

/// Where two scenes of a store both have a position and the first one's
/// position comes before the second's, comparing their positions reports
/// the first one before the second.
pub proof fn lemma_ordering_follows_positions(store: NarrativeStore, a: Seq<char>, b: Seq<char>)
    requires
        position_in(store@.scenes, a) is Some,
        position_in(store@.scenes, b) is Some,
        precedes(position_in(store@.scenes, a)->0, position_in(store@.scenes, b)->0),
    ensures
        order(position_in(store@.scenes, a)->0, position_in(store@.scenes, b)->0)
            == Ordering::Less,
        order(position_in(store@.scenes, b)->0, position_in(store@.scenes, a)->0)
            == Ordering::Greater,
{
}

/// Positions are strictly and totally ordered: no position precedes
/// itself, precedence is transitive, and of two distinct positions one
/// precedes the other.
pub proof fn lemma_precedes_strict_total_order(
    a: NarrativePosition,
    b: NarrativePosition,
    c: NarrativePosition,
)
    ensures
        !precedes(a, a),
        precedes(a, b) && precedes(b, c) ==> precedes(a, c),
        a != b ==> (precedes(a, b) || precedes(b, a)),
        precedes(a, b) ==> !precedes(b, a),
{
}

} // verus!
