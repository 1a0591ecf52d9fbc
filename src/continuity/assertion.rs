//! The attribute assertion extractor: state snapshots become typed
//! attribute assertions anchored at a narrative position.
use crate::continuity::alert::{
    AlertCandidate, AlertType, CandidateModel, ConflictElement, ElementKind, ElementModel,
    Severity,
};
use crate::continuity::position::position_in;
use crate::continuity::store::{
    NarrativePosition, NarrativeStore, SnapshotModel, StateSnapshot, StoreModel, copy_text,
};
use vstd::prelude::*;

verus! {

/// One fact about a character, established by a scene's state snapshot.
pub struct AttributeAssertion {
    pub character_id: String,
    pub attribute: String,
    pub value: String,
    pub scene_id: String,
    pub position: NarrativePosition,
    pub recorded_at: String,
}

pub struct AssertionModel {
    pub character: Seq<char>,
    pub attribute: Seq<char>,
    pub value: Seq<char>,
    pub scene: Seq<char>,
    pub position: NarrativePosition,
    pub recorded_at: Seq<char>,
}

impl View for AttributeAssertion {
    type V = AssertionModel;

    open spec fn view(&self) -> AssertionModel {
        AssertionModel {
            character: self.character_id@,
            attribute: self.attribute@,
            value: self.value@,
            scene: self.scene_id@,
            position: self.position,
            recorded_at: self.recorded_at@,
        }
    }
}

pub open spec fn assertions_view(v: Seq<AttributeAssertion>) -> Seq<AssertionModel> {
    v.map_values(|a: AttributeAssertion| a@)
}

pub open spec fn candidates_view(v: Seq<AlertCandidate>) -> Seq<CandidateModel> {
    v.map_values(|c: AlertCandidate| c@)
}

/// The members of a JSON object text, in the order the parser yields them,
/// each value as its string content or, when not a string, as JSON text;
/// `None` where the text is not a JSON object.
pub uninterp spec fn snapshot_entries(text: Seq<char>) -> Option<Seq<(Seq<char>, Seq<char>)>>;

pub open spec fn entries_view(v: Seq<(String, String)>) -> Seq<(Seq<char>, Seq<char>)> {
    v.map_values(|e: (String, String)| (e.0@, e.1@))
}

/// Relies on serde_json::from_str to read a snapshot as a JSON object (a
/// `Map` of members), and on serde_json's `Display` of `Value` for the
/// text of a member that is not a string.
#[verifier::external_body]
fn parse_snapshot(text: &str) -> (r: Option<Vec<(String, String)>>)
    ensures
        match snapshot_entries(text@) {
            Some(es) => r matches Some(v) && entries_view(v@) == es,
            None => r is None,
        },
{
    match serde_json::from_str::<serde_json::Map<String, serde_json::Value>>(text) {
        Ok(map) => Some(
            map.into_iter().map(|(k, v)| match v {
                serde_json::Value::String(s) => (k, s),
                other => (k, other.to_string()),
            }).collect(),
        ),
        Err(_) => None,
    }
}

/// The assertion that one snapshot entry makes.
pub open spec fn assertion_from(
    snap: SnapshotModel,
    position: NarrativePosition,
    entry: (Seq<char>, Seq<char>),
) -> AssertionModel {
    AssertionModel {
        character: snap.character,
        attribute: entry.0,
        value: entry.1,
        scene: snap.scene,
        position,
        recorded_at: snap.recorded_at,
    }
}

/// The assertions of a snapshot whose entries are known.
pub open spec fn assertions_from(
    snap: SnapshotModel,
    position: NarrativePosition,
    entries: Seq<(Seq<char>, Seq<char>)>,
) -> Seq<AssertionModel> {
    entries.map_values(|e: (Seq<char>, Seq<char>)| assertion_from(snap, position, e))
}

/// The alert that a snapshot which cannot be read raises.
pub open spec fn unreadable_snapshot(snap: SnapshotModel) -> CandidateModel {
    CandidateModel {
        scene: Some(snap.scene),
        kind: AlertType::FactualInconsistency,
        severity: Severity::Low,
        description: "State snapshot of character "@ + snap.character + " for scene "@
            + snap.scene + " could not be parsed"@,
        elements: seq![
            ElementModel {
                kind: ElementKind::Snapshot,
                subject: snap.character,
                attribute: Seq::empty(),
                scene: snap.scene,
            },
        ],
        resolution: "Record the snapshot as a JSON object of attribute names and values"@,
    }
}

/// What a snapshot yields at a position: its assertions, or the alert for
/// an unreadable snapshot.
pub open spec fn extraction(snap: SnapshotModel, position: NarrativePosition) -> Result<
    Seq<AssertionModel>,
    CandidateModel,
> {
    match snapshot_entries(snap.text) {
        Some(es) => Ok(assertions_from(snap, position, es)),
        None => Err(unreadable_snapshot(snap)),
    }
}

/// One assertion per entry of a parsed snapshot, in entry order.
pub fn assertions_from_entries(
    snapshot: &StateSnapshot,
    position: NarrativePosition,
    entries: Vec<(String, String)>,
) -> (r: Vec<AttributeAssertion>)
    ensures
        assertions_view(r@) == assertions_from(snapshot@, position, entries_view(entries@)),
{
    let mut out: Vec<AttributeAssertion> = Vec::new();
    let mut i: usize = 0;
    while i < entries.len()
        invariant
            i <= entries.len(),
            assertions_view(out@) =~= assertions_from(
                snapshot@,
                position,
                entries_view(entries@.take(i as int)),
            ),
        decreases entries.len() - i,
    {
        let ghost prev = out@;
        let a = AttributeAssertion {
            character_id: copy_text(&snapshot.character_id),
            attribute: copy_text(&entries[i].0),
            value: copy_text(&entries[i].1),
            scene_id: copy_text(&snapshot.scene_id),
            position,
            recorded_at: copy_text(&snapshot.recorded_at),
        };
        out.push(a);
        proof {
            assert(out@ == prev.push(a));
            assert(entries@.take(i + 1) =~= entries@.take(i as int).push(entries@[i as int]));
            assert(assertions_view(out@) =~= assertions_view(prev).push(a@));
            assert(assertions_from(snapshot@, position, entries_view(entries@.take(i + 1)))
                =~= assertions_from(snapshot@, position, entries_view(entries@.take(i as int))).push(
                a@,
            ));
        }
        i = i + 1;
    }
    assert(entries@.take(i as int) =~= entries@);
    out
}

/// The alert for a snapshot that cannot be read.
pub fn unreadable_snapshot_alert(snapshot: &StateSnapshot) -> (r: AlertCandidate)
    ensures
        r@ == unreadable_snapshot(snapshot@),
{
    let description = String::from_str("State snapshot of character ").concat(
        snapshot.character_id.as_str(),
    ).concat(" for scene ").concat(snapshot.scene_id.as_str()).concat(" could not be parsed");
    let element = ConflictElement {
        kind: ElementKind::Snapshot,
        subject: copy_text(&snapshot.character_id),
        attribute: String::new(),
        scene_id: copy_text(&snapshot.scene_id),
    };
    let mut elements: Vec<ConflictElement> = Vec::new();
    elements.push(element);
    let r = AlertCandidate {
        scene_id: Some(copy_text(&snapshot.scene_id)),
        alert_type: AlertType::FactualInconsistency,
        severity: Severity::Low,
        description,
        elements,
        suggested_resolution: String::from_str(
            "Record the snapshot as a JSON object of attribute names and values",
        ),
    };
    assert(r@.elements =~= unreadable_snapshot(snapshot@).elements);
    r
}

/// Turns a snapshot into assertions at the given position, or into the
/// alert for an unreadable snapshot.
pub fn extract_assertions(snapshot: &StateSnapshot, position: NarrativePosition) -> (r: Result<
    Vec<AttributeAssertion>,
    AlertCandidate,
>)
    ensures
        match extraction(snapshot@, position) {
            Ok(es) => r matches Ok(v) && assertions_view(v@) == es,
            Err(c) => r matches Err(a) && a@ == c,
        },
{
    match parse_snapshot(snapshot.text.as_str()) {
        Some(entries) => Ok(assertions_from_entries(snapshot, position, entries)),
        None => Err(unreadable_snapshot_alert(snapshot)),
    }
}

/// The assertions of the first `n` snapshots of a store, in snapshot order;
/// snapshots whose scene has no position are skipped.
pub open spec fn history(store: StoreModel, n: int) -> Seq<AssertionModel>
    decreases n,
{
    if n <= 0 {
        Seq::empty()
    } else {
        let snap = store.snapshots[n - 1];
        history(store, n - 1) + match position_in(store.scenes, snap.scene) {
            Some(p) => match extraction(snap, p) {
                Ok(es) => es,
                Err(_) => Seq::empty(),
            },
            None => Seq::empty(),
        }
    }
}

/// The alerts for the unreadable snapshots among the first `n`.
pub open spec fn unreadable(store: StoreModel, n: int) -> Seq<CandidateModel>
    decreases n,
{
    if n <= 0 {
        Seq::empty()
    } else {
        let snap = store.snapshots[n - 1];
        unreadable(store, n - 1) + match position_in(store.scenes, snap.scene) {
            Some(p) => match extraction(snap, p) {
                Ok(_) => Seq::empty(),
                Err(c) => seq![c],
            },
            None => Seq::empty(),
        }
    }
}

/// All assertions of a store, and the alerts for its unreadable snapshots.
pub fn collect_assertions(store: &NarrativeStore) -> (r: (Vec<AttributeAssertion>, Vec<AlertCandidate>))
    ensures
        assertions_view(r.0@) == history(store@, store@.snapshots.len() as int),
        candidates_view(r.1@) == unreadable(store@, store@.snapshots.len() as int),
{
    let mut all: Vec<AttributeAssertion> = Vec::new();
    let mut bad: Vec<AlertCandidate> = Vec::new();
    let mut i: usize = 0;
    while i < store.snapshots.len()
        invariant
            i <= store.snapshots.len(),
            assertions_view(all@) == history(store@, i as int),
            candidates_view(bad@) == unreadable(store@, i as int),
        decreases store.snapshots.len() - i,
    {
        let snap = &store.snapshots[i];
        assert(store@.snapshots[i as int] == snap@);
        match store.position_of(&snap.scene_id) {
            Ok(p) => match extract_assertions(snap, p) {
                Ok(mut v) => {
                    let ghost prev = all@;
                    let ghost added = v@;
                    all.append(&mut v);
                    assert(assertions_view(all@) =~= assertions_view(prev) + assertions_view(
                        added,
                    ));
                    assert(candidates_view(bad@) =~= unreadable(store@, i + 1));
                },
                Err(c) => {
                    let ghost prev = bad@;
                    bad.push(c);
                    assert(candidates_view(bad@) =~= candidates_view(prev).push(c@));
                    assert(assertions_view(all@) =~= history(store@, i + 1));
                },
            },
            Err(_) => {
                assert(assertions_view(all@) =~= history(store@, i + 1));
                assert(candidates_view(bad@) =~= unreadable(store@, i + 1));
            },
        }
        i = i + 1;
    }
    (all, bad)
}

} // verus!
