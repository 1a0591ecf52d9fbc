//! The run coordinator: one scan over a project or a scene, recorded
//! through the alert lifecycle, with a summary of what was raised.
use crate::continuity::alert::{
    AlertCandidate, AlertLog, AlertModel, AlertType, AuthorDecision, CandidateModel, Severity,
    copy_elements, copy_opt_text, covered, covers, raised_from, same_conflict, same_signature,
};
use crate::continuity::assertion::{candidates_view, collect_assertions, history, unreadable};
use crate::continuity::detector::{
    ScanConfig, detect_rule_violations, detect_state_conflicts, detect_timeline,
    explained_by_author, marks_intended, rule_violations, state_conflicts, state_issue,
    timeline_issues,
};
use crate::continuity::position::{find_scene, scene_index};
use crate::continuity::store::{NarrativeStore, StoreModel, copy_text, same_text, strings_view};
use crate::error::StoryError;
use vstd::prelude::*;

verus! {

/// What a scan covers.
pub enum ScanScope {
    /// Every scene, snapshot and rule of the project.
    Project,
    /// Only the alerts that involve the scene with this id.
    Scene(String),
}

/// Every alert that the detector finds in a store, in order: unreadable
/// snapshots, state changes, rule violations, timeline contradictions.
pub open spec fn detected(store: StoreModel, log: Seq<AlertModel>, threshold: int) -> Seq<
    CandidateModel,
> {
    let hist = history(store, store.snapshots.len() as int);
    unreadable(store, store.snapshots.len() as int) + state_conflicts(
        store,
        log,
        hist,
        threshold,
        hist.len() as int,
    ) + rule_violations(store, hist, store.rules.len() as int) + timeline_issues(
        store,
        store.scenes.len() as int,
    )
}

/// The candidate concerns the scene: as its scene or through an element.
pub open spec fn involves(c: CandidateModel, scene: Seq<char>) -> bool {
    c.scene == Some(scene) || exists|k: int|
        0 <= k < c.elements.len() && (#[trigger] c.elements[k]).scene == scene
}

/// The candidates, in order, that concern the scene.
pub open spec fn scoped(cands: Seq<CandidateModel>, scene: Seq<char>) -> Seq<CandidateModel>
    decreases cands.len(),
{
    if cands.len() == 0 {
        Seq::empty()
    } else {
        let prev = scoped(cands.drop_last(), scene);
        if involves(cands.last(), scene) {
            prev.push(cands.last())
        } else {
            prev
        }
    }
}

/// Some candidate of `f` is about the same conflict as `c`.
pub open spec fn conflict_among(f: Seq<CandidateModel>, c: CandidateModel) -> bool {
    exists|k: int|
        0 <= k < f.len() && (#[trigger] f[k]).kind == c.kind && f[k].elements.to_set()
            == c.elements.to_set()
}

/// The candidates that recording raises, in order: those that no alert
/// of the log covers and no earlier raised one repeats.
pub open spec fn fresh(before: Seq<AlertModel>, project: Seq<char>, cands: Seq<CandidateModel>) -> Seq<
    CandidateModel,
>
    decreases cands.len(),
{
    if cands.len() == 0 {
        Seq::empty()
    } else {
        let f = fresh(before, project, cands.drop_last());
        let c = cands.last();
        if covered(before, project, c) || conflict_among(f, c) {
            f
        } else {
            f.push(c)
        }
    }
}

/// `after` is `before` with one open alert appended for each fresh
/// candidate, whose ids are `ids`.
pub open spec fn recorded(
    before: Seq<AlertModel>,
    project: Seq<char>,
    cands: Seq<CandidateModel>,
    after: Seq<AlertModel>,
    ids: Seq<Seq<char>>,
) -> bool {
    let f = fresh(before, project, cands);
    &&& after.len() == before.len() + f.len()
    &&& after.take(before.len() as int) == before
    &&& ids.len() == f.len()
    &&& forall|k: int|
        0 <= k < f.len() ==> raised_from(#[trigger] after[before.len() + k], project, f[k])
            && after[before.len() + k].id == ids[k]
}

/// How many of the candidates have the severity.
pub open spec fn count_severity(f: Seq<CandidateModel>, s: Severity) -> nat
    decreases f.len(),
{
    if f.len() == 0 {
        0
    } else {
        count_severity(f.drop_last(), s) + if f.last().severity == s {
            1nat
        } else {
            0nat
        }
    }
}

/// How many of the candidates have the type.
pub open spec fn count_kind(f: Seq<CandidateModel>, t: AlertType) -> nat
    decreases f.len(),
{
    if f.len() == 0 {
        0
    } else {
        count_kind(f.drop_last(), t) + if f.last().kind == t {
            1nat
        } else {
            0nat
        }
    }
}

/// The outcome of a scan.
pub struct ScanSummary {
    /// How many problems the detector found in the scope.
    pub detected: usize,
    /// The ids of the alerts raised, in order.
    pub raised_ids: Vec<String>,
    pub low: usize,
    pub medium: usize,
    pub high: usize,
    pub world_rule_violations: usize,
    pub character_state_conflicts: usize,
    pub timeline_contradictions: usize,
    pub factual_inconsistencies: usize,
}

/// The summary counts the raised candidates `f`.
pub open spec fn summarizes(s: ScanSummary, f: Seq<CandidateModel>) -> bool {
    &&& strings_view(s.raised_ids@).len() == f.len()
    &&& s.low == count_severity(f, Severity::Low)
    &&& s.medium == count_severity(f, Severity::Medium)
    &&& s.high == count_severity(f, Severity::High)
    &&& s.world_rule_violations == count_kind(f, AlertType::WorldRuleViolation)
    &&& s.character_state_conflicts == count_kind(f, AlertType::CharacterStateConflict)
    &&& s.timeline_contradictions == count_kind(f, AlertType::TimelineContradiction)
    &&& s.factual_inconsistencies == count_kind(f, AlertType::FactualInconsistency)
}

proof fn lemma_counts_bounded(f: Seq<CandidateModel>, s: Severity, t: AlertType)
    ensures
        count_severity(f, s) <= f.len(),
        count_kind(f, t) <= f.len(),
    decreases f.len(),
{
    if f.len() > 0 {
        lemma_counts_bounded(f.drop_last(), s, t);
    }
}

proof fn lemma_fresh_len(before: Seq<AlertModel>, project: Seq<char>, cands: Seq<CandidateModel>)
    ensures
        fresh(before, project, cands).len() <= cands.len(),
    decreases cands.len(),
{
    if cands.len() > 0 {
        lemma_fresh_len(before, project, cands.drop_last());
    }
}

/// Every candidate is covered by the log or repeats a fresh one, and no
/// fresh one is covered by the log.
pub proof fn lemma_fresh_accounts(before: Seq<AlertModel>, project: Seq<char>, cands: Seq<CandidateModel>)
    ensures
        forall|j: int|
            0 <= j < cands.len() ==> covered(before, project, #[trigger] cands[j])
                || conflict_among(fresh(before, project, cands), cands[j]),
        forall|k: int|
            0 <= k < fresh(before, project, cands).len() ==> !covered(
                before,
                project,
                #[trigger] fresh(before, project, cands)[k],
            ),
    decreases cands.len(),
{
    if cands.len() > 0 {
        let p = cands.drop_last();
        lemma_fresh_accounts(before, project, p);
        let f = fresh(before, project, p);
        let c = cands.last();
        let g = fresh(before, project, cands);
        assert forall|j: int| 0 <= j < cands.len() implies covered(before, project, #[trigger] cands[j])
            || conflict_among(g, cands[j]) by {
            if j < p.len() {
                assert(cands[j] == p[j]);
                if !covered(before, project, p[j]) {
                    let k = choose|k: int|
                        0 <= k < f.len() && (#[trigger] f[k]).kind == p[j].kind
                            && f[k].elements.to_set() == p[j].elements.to_set();
                    assert(g[k] == f[k]);
                }
            } else {
                if !covered(before, project, c) && !conflict_among(f, c) {
                    assert(g[f.len() as int] == c);
                } else if !covered(before, project, c) {
                    let k = choose|k: int|
                        0 <= k < f.len() && (#[trigger] f[k]).kind == c.kind
                            && f[k].elements.to_set() == c.elements.to_set();
                    assert(g[k] == f[k]);
                }
            }
        }
    }
}

/// The log that recording leaves covers every candidate.
pub proof fn lemma_recorded_covers_all(
    before: Seq<AlertModel>,
    project: Seq<char>,
    cands: Seq<CandidateModel>,
    after: Seq<AlertModel>,
    ids: Seq<Seq<char>>,
)
    requires
        recorded(before, project, cands, after, ids),
    ensures
        forall|j: int| 0 <= j < cands.len() ==> covered(after, project, #[trigger] cands[j]),
{
    lemma_fresh_accounts(before, project, cands);
    let f = fresh(before, project, cands);
    assert forall|j: int| 0 <= j < cands.len() implies covered(after, project, #[trigger] cands[j]) by {
        let c = cands[j];
        if covered(before, project, c) {
            let i = choose|i: int| 0 <= i < before.len() && covers(#[trigger] before[i], project, c);
            assert(after[i] == after.take(before.len() as int)[i]);
            assert(covers(after[i], project, c));
        } else {
            let k = choose|k: int|
                0 <= k < f.len() && (#[trigger] f[k]).kind == c.kind && f[k].elements.to_set()
                    == c.elements.to_set();
            assert(raised_from(after[before.len() + k], project, f[k]));
            assert(covers(after[before.len() + k], project, c));
        }
    }
}

/// Where the log covers every candidate, nothing is fresh.
pub proof fn lemma_nothing_fresh(before: Seq<AlertModel>, project: Seq<char>, cands: Seq<CandidateModel>)
    requires
        forall|j: int| 0 <= j < cands.len() ==> covered(before, project, #[trigger] cands[j]),
    ensures
        fresh(before, project, cands).len() == 0,
    decreases cands.len(),
{
    if cands.len() > 0 {
        let p = cands.drop_last();
        assert forall|j: int| 0 <= j < p.len() implies covered(before, project, #[trigger] p[j]) by {
            assert(p[j] == cands[j]);
        }
        lemma_nothing_fresh(before, project, p);
        assert(covered(before, project, cands[cands.len() - 1]));
    }
}

/// A copy of a candidate.
pub fn copy_candidate(c: &AlertCandidate) -> (r: AlertCandidate)
    ensures
        r@ == c@,
{
    AlertCandidate {
        scene_id: copy_opt_text(&c.scene_id),
        alert_type: c.alert_type,
        severity: c.severity,
        description: copy_text(&c.description),
        elements: copy_elements(&c.elements),
        suggested_resolution: copy_text(&c.suggested_resolution),
    }
}

/// Records the candidates in order; returns the ids of the raised alerts
/// and the summary counts.
pub fn record_all(log: &mut AlertLog, project_id: &String, cands: &Vec<AlertCandidate>) -> (r:
    ScanSummary)
    requires
        old(log).wf(),
    ensures
        final(log).wf(),
        recorded(
            old(log)@,
            project_id@,
            candidates_view(cands@),
            final(log)@,
            strings_view(r.raised_ids@),
        ),
        summarizes(r, fresh(old(log)@, project_id@, candidates_view(cands@))),
        r.detected == cands@.len(),
{
    let ghost before = log@;
    let ghost cv = candidates_view(cands@);
    let mut ids: Vec<String> = Vec::new();
    let mut low: usize = 0;
    let mut medium: usize = 0;
    let mut high: usize = 0;
    let mut world: usize = 0;
    let mut state: usize = 0;
    let mut timeline: usize = 0;
    let mut factual: usize = 0;
    let mut i: usize = 0;
    assert(cv.take(0) =~= Seq::<CandidateModel>::empty());
    assert(before.take(before.len() as int) =~= before);
    assert(strings_view(ids@) =~= Seq::<Seq<char>>::empty());
    while i < cands.len()
        invariant
            i <= cands.len(),
            log.wf(),
            cv == candidates_view(cands@),
            recorded(before, project_id@, cv.take(i as int), log@, strings_view(ids@)),
            low == count_severity(fresh(before, project_id@, cv.take(i as int)), Severity::Low),
            medium == count_severity(fresh(before, project_id@, cv.take(i as int)), Severity::Medium),
            high == count_severity(fresh(before, project_id@, cv.take(i as int)), Severity::High),
            world == count_kind(fresh(before, project_id@, cv.take(i as int)), AlertType::WorldRuleViolation),
            state == count_kind(fresh(before, project_id@, cv.take(i as int)), AlertType::CharacterStateConflict),
            timeline == count_kind(fresh(before, project_id@, cv.take(i as int)), AlertType::TimelineContradiction),
            factual == count_kind(fresh(before, project_id@, cv.take(i as int)), AlertType::FactualInconsistency),
        decreases cands.len() - i,
    {
        let ghost mid = log@;
        let ghost f = fresh(before, project_id@, cv.take(i as int));
        let ghost c = cv[i as int];
        assert(cv.take(i + 1).drop_last() =~= cv.take(i as int));
        assert(cv.take(i + 1).last() == c);
        assert(c == cands@[i as int]@);
        proof {
            lemma_fresh_len(before, project_id@, cv.take(i as int));
            lemma_counts_bounded(f, Severity::Low, AlertType::WorldRuleViolation);
            lemma_counts_bounded(f, Severity::Medium, AlertType::CharacterStateConflict);
            lemma_counts_bounded(f, Severity::High, AlertType::TimelineContradiction);
            lemma_counts_bounded(f, Severity::Low, AlertType::FactualInconsistency);
            // covering by the grown log is covering by the old log or by a raised alert
            if covered(mid, project_id@, c) {
                let j = choose|j: int| 0 <= j < mid.len() && covers(#[trigger] mid[j], project_id@, c);
                if j < before.len() {
                    assert(mid[j] == mid.take(before.len() as int)[j]);
                    assert(covered(before, project_id@, c));
                } else {
                    let k = j - before.len();
                    assert(raised_from(mid[before.len() + k], project_id@, f[k]));
                    assert(conflict_among(f, c));
                }
            } else {
                if covered(before, project_id@, c) {
                    let j = choose|j: int| 0 <= j < before.len() && covers(#[trigger] before[j], project_id@, c);
                    assert(mid[j] == mid.take(before.len() as int)[j]);
                    assert(covers(mid[j], project_id@, c));
                }
                if conflict_among(f, c) {
                    let k = choose|k: int|
                        0 <= k < f.len() && (#[trigger] f[k]).kind == c.kind
                            && f[k].elements.to_set() == c.elements.to_set();
                    assert(raised_from(mid[before.len() + k], project_id@, f[k]));
                    assert(covers(mid[before.len() + k], project_id@, c));
                }
            }
        }
        let cand = copy_candidate(&cands[i]);
        let sev = cand.severity;
        let kind = cand.alert_type;
        match log.record_alert(project_id, cand) {
            Some(id) => {
                let ghost prev_ids = ids@;
                ids.push(id);
                match sev {
                    Severity::Low => low = low + 1,
                    Severity::Medium => medium = medium + 1,
                    Severity::High => high = high + 1,
                }
                match kind {
                    AlertType::WorldRuleViolation => world = world + 1,
                    AlertType::CharacterStateConflict => state = state + 1,
                    AlertType::TimelineContradiction => timeline = timeline + 1,
                    AlertType::FactualInconsistency => factual = factual + 1,
                }
                proof {
                    let g = fresh(before, project_id@, cv.take(i + 1));
                    assert(g == f.push(c));
                    assert(g.drop_last() =~= f);
                    assert(strings_view(ids@) =~= strings_view(prev_ids).push(ids@.last()@));
                    assert(log@.take(before.len() as int) =~= mid.take(before.len() as int));
                    assert forall|k: int| 0 <= k < g.len() implies raised_from(
                        #[trigger] log@[before.len() + k],
                        project_id@,
                        g[k],
                    ) && log@[before.len() + k].id == strings_view(ids@)[k] by {
                        if k < f.len() {
                            assert(log@[before.len() + k] == mid[before.len() + k]);
                        }
                    }
                }
            },
            None => {
                proof {
                    let g = fresh(before, project_id@, cv.take(i + 1));
                    assert(g == f);
                }
            },
        }
        i = i + 1;
    }
    assert(cv.take(i as int) =~= cv);
    ScanSummary {
        detected: cands.len(),
        raised_ids: ids,
        low,
        medium,
        high,
        world_rule_violations: world,
        character_state_conflicts: state,
        timeline_contradictions: timeline,
        factual_inconsistencies: factual,
    }
}

/// Every problem that the detector finds in a store, in order.
pub fn detect(store: &NarrativeStore, log: &AlertLog, config: &ScanConfig) -> (r: Vec<AlertCandidate>)
    ensures
        candidates_view(r@) == detected(store@, log@, config.jump_threshold_percent as int),
{
    let (hist, mut found) = collect_assertions(store);
    let mut states = detect_state_conflicts(store, log, &hist, config);
    let mut rules = detect_rule_violations(store, &hist);
    let mut times = detect_timeline(store);
    let ghost a = candidates_view(found@);
    let ghost b = candidates_view(states@);
    let ghost c = candidates_view(rules@);
    let ghost d = candidates_view(times@);
    found.append(&mut states);
    found.append(&mut rules);
    found.append(&mut times);
    assert(candidates_view(found@) =~= a + b + c + d);
    found
}

fn involves_scene(c: &AlertCandidate, scene_id: &String) -> (r: bool)
    ensures
        r == involves(c@, scene_id@),
{
    let own = match &c.scene_id {
        Some(s) => same_text(s, scene_id),
        None => false,
    };
    if own {
        return true;
    }
    let mut k: usize = 0;
    while k < c.elements.len()
        invariant
            k <= c.elements.len(),
            !own,
            forall|m: int| 0 <= m < k ==> (#[trigger] c.elements@[m])@.scene != scene_id@,
        decreases c.elements.len() - k,
    {
        if same_text(&c.elements[k].scene_id, scene_id) {
            assert(c@.elements[k as int] == c.elements@[k as int]@);
            return true;
        }
        k = k + 1;
    }
    assert forall|m: int| 0 <= m < c@.elements.len() implies (#[trigger] c@.elements[m]).scene
        != scene_id@ by {
        assert(c@.elements[m] == c.elements@[m]@);
    }
    false
}

/// The candidates, in order, that concern the scene.
pub fn in_scope(cands: Vec<AlertCandidate>, scene_id: &String) -> (r: Vec<AlertCandidate>)
    ensures
        candidates_view(r@) == scoped(candidates_view(cands@), scene_id@),
{
    let ghost cv = candidates_view(cands@);
    let mut out: Vec<AlertCandidate> = Vec::new();
    let mut i: usize = 0;
    while i < cands.len()
        invariant
            i <= cands.len(),
            cv == candidates_view(cands@),
            candidates_view(out@) == scoped(cv.take(i as int), scene_id@),
        decreases cands.len() - i,
    {
        assert(cv.take(i + 1).drop_last() =~= cv.take(i as int));
        assert(cv.take(i + 1).last() == cands@[i as int]@);
        if involves_scene(&cands[i], scene_id) {
            let ghost prev = out@;
            let c = copy_candidate(&cands[i]);
            out.push(c);
            assert(candidates_view(out@) =~= candidates_view(prev).push(c@));
        }
        i = i + 1;
    }
    assert(cv.take(i as int) =~= cv);
    out
}

/// Scans the whole project: detects every problem and records each one
/// through the alert lifecycle.
pub fn scan_project(store: &NarrativeStore, log: &mut AlertLog, config: &ScanConfig) -> (r:
    ScanSummary)
    requires
        old(log).wf(),
    ensures
        final(log).wf(),
        recorded(
            old(log)@,
            store@.project,
            detected(store@, old(log)@, config.jump_threshold_percent as int),
            final(log)@,
            strings_view(r.raised_ids@),
        ),
        summarizes(
            r,
            fresh(
                old(log)@,
                store@.project,
                detected(store@, old(log)@, config.jump_threshold_percent as int),
            ),
        ),
        r.detected == detected(store@, old(log)@, config.jump_threshold_percent as int).len(),
{
    let cands = detect(store, log, config);
    record_all(log, &store.project_id, &cands)
}

/// Scans for the problems that concern one scene, after that scene was
/// written; `NotFound` where the store has no such scene.
pub fn scan_scene(
    store: &NarrativeStore,
    log: &mut AlertLog,
    scene_id: &String,
    config: &ScanConfig,
) -> (r: Result<ScanSummary, StoryError>)
    requires
        old(log).wf(),
    ensures
        final(log).wf(),
        scene_index(store@.scenes, scene_id@) is None ==> (r matches Err(StoryError::NotFound(_)))
            && final(log)@ == old(log)@,
        scene_index(store@.scenes, scene_id@) is Some ==> (r matches Ok(s) && recorded(
            old(log)@,
            store@.project,
            scoped(detected(store@, old(log)@, config.jump_threshold_percent as int), scene_id@),
            final(log)@,
            strings_view(s.raised_ids@),
        ) && summarizes(
            s,
            fresh(
                old(log)@,
                store@.project,
                scoped(
                    detected(store@, old(log)@, config.jump_threshold_percent as int),
                    scene_id@,
                ),
            ),
        ) && s.detected == scoped(
            detected(store@, old(log)@, config.jump_threshold_percent as int),
            scene_id@,
        ).len()),
{
    match find_scene(&store.scenes, scene_id) {
        None => Err(StoryError::NotFound(
            String::from_str("Scene not found: ").concat(scene_id.as_str()),
        )),
        Some(_) => {
            let cands = detect(store, log, config);
            let scoped_cands = in_scope(cands, scene_id);
            Ok(record_all(log, &store.project_id, &scoped_cands))
        },
    }
}

/// Scans a project or one of its scenes.
pub fn scan(store: &NarrativeStore, log: &mut AlertLog, scope: &ScanScope, config: &ScanConfig) -> (r:
    Result<ScanSummary, StoryError>)
    requires
        old(log).wf(),
    ensures
        final(log).wf(),
        scope is Project ==> (r matches Ok(s) && recorded(
            old(log)@,
            store@.project,
            detected(store@, old(log)@, config.jump_threshold_percent as int),
            final(log)@,
            strings_view(s.raised_ids@),
        )),
        scope matches ScanScope::Scene(id) ==> match scene_index(store@.scenes, id@) {
            None => (r matches Err(StoryError::NotFound(_))) && final(log)@ == old(log)@,
            Some(_) => r matches Ok(s) && recorded(
                old(log)@,
                store@.project,
                scoped(detected(store@, old(log)@, config.jump_threshold_percent as int), id@),
                final(log)@,
                strings_view(s.raised_ids@),
            ),
        },
{
    match scope {
        ScanScope::Project => Ok(scan_project(store, log, config)),
        ScanScope::Scene(id) => scan_scene(store, log, id, config),
    }
}

/// Recording the same candidates again, on the log that recording left,
/// raises nothing and leaves the log as it is.
pub proof fn lemma_rerecord_raises_nothing(
    before: Seq<AlertModel>,
    project: Seq<char>,
    cands: Seq<CandidateModel>,
    mid: Seq<AlertModel>,
    ids1: Seq<Seq<char>>,
    after: Seq<AlertModel>,
    ids2: Seq<Seq<char>>,
)
    requires
        recorded(before, project, cands, mid, ids1),
        recorded(mid, project, cands, after, ids2),
    ensures
        ids2.len() == 0,
        after == mid,
{
    lemma_recorded_covers_all(before, project, cands, mid, ids1);
    lemma_nothing_fresh(mid, project, cands);
    assert(after =~= after.take(mid.len() as int));
}

/// Appending open alerts changes no author decision that marks a change
/// as intended.
proof fn lemma_open_alerts_explain_nothing(
    before: Seq<AlertModel>,
    project: Seq<char>,
    cands: Seq<CandidateModel>,
    after: Seq<AlertModel>,
    ids: Seq<Seq<char>>,
    p: Seq<char>,
)
    requires
        recorded(before, project, cands, after, ids),
    ensures
        forall|cur| explained_by_author(after, p, cur) == explained_by_author(before, p, cur),
{
    let f = fresh(before, project, cands);
    assert forall|cur| explained_by_author(after, p, cur) == explained_by_author(before, p, cur) by {
        if explained_by_author(after, p, cur) {
            let i = choose|i: int| 0 <= i < after.len() && marks_intended(#[trigger] after[i], p, cur);
            if i >= before.len() {
                assert(raised_from(after[before.len() + (i - before.len())], project, f[i - before.len()]));
            } else {
                assert(after[i] == after.take(before.len() as int)[i]);
            }
        }
        if explained_by_author(before, p, cur) {
            let i = choose|i: int| 0 <= i < before.len() && marks_intended(#[trigger] before[i], p, cur);
            assert(after[i] == after.take(before.len() as int)[i]);
            assert(marks_intended(after[i], p, cur));
        }
    }
}

proof fn lemma_state_conflicts_same_logs(
    store: StoreModel,
    log1: Seq<AlertModel>,
    log2: Seq<AlertModel>,
    hist: Seq<crate::continuity::assertion::AssertionModel>,
    t: int,
    n: int,
)
    requires
        forall|cur| explained_by_author(log1, store.project, cur) == explained_by_author(log2, store.project, cur),
    ensures
        state_conflicts(store, log1, hist, t, n) == state_conflicts(store, log2, hist, t, n),
    decreases n,
{
    if n > 0 {
        lemma_state_conflicts_same_logs(store, log1, log2, hist, t, n - 1);
        assert(state_issue(store, log1, hist, n - 1, t) == state_issue(store, log2, hist, n - 1, t));
    }
}

/// Scanning a project twice with no write in between raises nothing the
/// second time, and leaves the alerts as the first scan left them.
pub proof fn lemma_scan_project_idempotent(
    store: NarrativeStore,
    threshold: int,
    log0: Seq<AlertModel>,
    log1: Seq<AlertModel>,
    ids1: Seq<Seq<char>>,
    log2: Seq<AlertModel>,
    ids2: Seq<Seq<char>>,
)
    requires
        recorded(log0, store@.project, detected(store@, log0, threshold), log1, ids1),
        recorded(log1, store@.project, detected(store@, log1, threshold), log2, ids2),
    ensures
        ids2.len() == 0,
        log2 == log1,
{
    let s = store@;
    lemma_open_alerts_explain_nothing(log0, s.project, detected(s, log0, threshold), log1, ids1, s.project);
    let hist = history(s, s.snapshots.len() as int);
    lemma_state_conflicts_same_logs(s, log0, log1, hist, threshold, hist.len() as int);
    assert(detected(s, log0, threshold) == detected(s, log1, threshold));
    lemma_rerecord_raises_nothing(
        log0,
        s.project,
        detected(s, log0, threshold),
        log1,
        ids1,
        log2,
        ids2,
    );
}

/// Scanning a scene twice with no write in between raises nothing the
/// second time.
pub proof fn lemma_scan_scene_idempotent(
    store: NarrativeStore,
    scene: Seq<char>,
    threshold: int,
    log0: Seq<AlertModel>,
    log1: Seq<AlertModel>,
    ids1: Seq<Seq<char>>,
    log2: Seq<AlertModel>,
    ids2: Seq<Seq<char>>,
)
    requires
        recorded(log0, store@.project, scoped(detected(store@, log0, threshold), scene), log1, ids1),
        recorded(log1, store@.project, scoped(detected(store@, log1, threshold), scene), log2, ids2),
    ensures
        ids2.len() == 0,
        log2 == log1,
{
    let s = store@;
    lemma_open_alerts_explain_nothing(
        log0,
        s.project,
        scoped(detected(s, log0, threshold), scene),
        log1,
        ids1,
        s.project,
    );
    let hist = history(s, s.snapshots.len() as int);
    lemma_state_conflicts_same_logs(s, log0, log1, hist, threshold, hist.len() as int);
    assert(detected(s, log0, threshold) == detected(s, log1, threshold));
    lemma_rerecord_raises_nothing(
        log0,
        s.project,
        scoped(detected(s, log0, threshold), scene),
        log1,
        ids1,
        log2,
        ids2,
    );
}

/// A dismissed alert is never raised again on the same evidence: no alert
/// that recording appends has its project, type, element set and
/// description.
pub proof fn lemma_dismissed_stays_closed(
    before: Seq<AlertModel>,
    project: Seq<char>,
    cands: Seq<CandidateModel>,
    after: Seq<AlertModel>,
    ids: Seq<Seq<char>>,
    i: int,
)
    requires
        recorded(before, project, cands, after, ids),
        0 <= i < before.len(),
        before[i].decision == AuthorDecision::Dismissed,
        before[i].project == project,
    ensures
        forall|k: int|
            before.len() <= k < after.len() ==> !(same_signature(#[trigger] after[k], before[i])
                && after[k].description == before[i].description),
{
    lemma_fresh_accounts(before, project, cands);
    let f = fresh(before, project, cands);
    assert forall|k: int| before.len() <= k < after.len() implies !(same_signature(
        #[trigger] after[k],
        before[i],
    ) && after[k].description == before[i].description) by {
        let m = k - before.len();
        assert(raised_from(after[before.len() + m], project, f[m]));
        assert(!covered(before, project, f[m]));
        if same_signature(after[k], before[i]) && after[k].description == before[i].description {
            assert(covers(before[i], project, f[m]));
        }
    }
}

/// New evidence reopens a decided conflict: a candidate about the same
/// conflict as a dismissed alert, with another description and covered by
/// no alert, leaves an open alert with the dismissed one's identity.
pub proof fn lemma_new_evidence_reopens(
    before: Seq<AlertModel>,
    project: Seq<char>,
    cands: Seq<CandidateModel>,
    after: Seq<AlertModel>,
    ids: Seq<Seq<char>>,
    i: int,
    j: int,
)
    requires
        recorded(before, project, cands, after, ids),
        0 <= i < before.len(),
        before[i].decision == AuthorDecision::Dismissed,
        0 <= j < cands.len(),
        same_conflict(before[i], project, cands[j]),
        !covered(before, project, cands[j]),
    ensures
        exists|k: int|
            before.len() <= k < after.len() && (#[trigger] after[k]).decision
                == AuthorDecision::Pending && same_signature(after[k], before[i]),
{
    lemma_fresh_accounts(before, project, cands);
    let f = fresh(before, project, cands);
    let c = cands[j];
    let m = choose|m: int|
        0 <= m < f.len() && (#[trigger] f[m]).kind == c.kind && f[m].elements.to_set()
            == c.elements.to_set();
    assert(raised_from(after[before.len() + m], project, f[m]));
    assert(same_signature(after[before.len() + m], before[i]));
}

} // verus!
