//! The conflict detector: unexplained changes of character state, values
//! that disagree under a world rule, and time markers that contradict the
//! structural order.
use crate::continuity::alert::{
    AlertCandidate, AlertLog, AlertModel, AlertType, AuthorDecision, CandidateModel,
    ConflictElement, ElementKind, ElementModel, Severity,
};
use crate::continuity::assertion::{AssertionModel, AttributeAssertion, assertions_view, candidates_view};
use crate::continuity::position::{is_before, located, location_of, precedes};
use crate::continuity::store::{
    NarrativeStore, RuleModel, SceneModel, SceneRecord, StoreModel, WorldRuleRecord, copy_text,
    same_text, strings_view,
};
use crate::continuity::matcher::{matches_rule, rule_matches};
use crate::models::RuleScope;
use crate::continuity::text::{
    char_views, chars_of, contains_exec, contains_folded, fold, fold_vec, folded_chars, integer_of,
    integer_value, lemma_integer_value_bound, seq_eq, words, words_of,
};
use vstd::prelude::*;

verus! {

/// Tuning of the detector.
pub struct ScanConfig {
    /// A numeric attribute whose value changes by more than this percentage
    /// of its earlier value is flagged with high severity.
    pub jump_threshold_percent: u32,
}

/// The relative change beyond which a numeric jump is flagged by default.
pub const DEFAULT_JUMP_THRESHOLD_PERCENT: u32 = 50;

impl Default for ScanConfig {
    fn default() -> (r: ScanConfig)
        ensures
            r.jump_threshold_percent == DEFAULT_JUMP_THRESHOLD_PERCENT,
    {
        ScanConfig { jump_threshold_percent: DEFAULT_JUMP_THRESHOLD_PERCENT }
    }
}

/// Two assertions speak of the same attribute of the same character.
pub open spec fn same_track(a: AssertionModel, b: AssertionModel) -> bool {
    a.character == b.character && a.attribute == b.attribute
}

/// Among the first `n` assertions, the latest one on the track of
/// assertion `j` that comes strictly before it; the earliest in the
/// history among equally late ones.
pub open spec fn latest_before(hist: Seq<AssertionModel>, j: int, n: int) -> Option<int>
    decreases n,
{
    if n <= 0 {
        None
    } else {
        let best = latest_before(hist, j, n - 1);
        let k = n - 1;
        if same_track(hist[k], hist[j]) && precedes(hist[k].position, hist[j].position) && (
        best is None || precedes(hist[best->0].position, hist[k].position)) {
            Some(k)
        } else {
            best
        }
    }
}

/// The assertion that assertion `j` follows on its track.
pub open spec fn predecessor(hist: Seq<AssertionModel>, j: int) -> Option<int> {
    latest_before(hist, j, hist.len() as int)
}

/// The scene lies strictly between the two assertions, the character is
/// active in it, and its text holds the new value.
pub open spec fn scene_explains(s: SceneModel, prev: AssertionModel, cur: AssertionModel) -> bool {
    &&& located(s) is Some
    &&& precedes(prev.position, located(s)->0)
    &&& precedes(located(s)->0, cur.position)
    &&& s.active.contains(cur.character)
    &&& (contains_folded(s.content, cur.value) || contains_folded(s.outline, cur.value))
}

pub open spec fn explained_by_scene(
    store: StoreModel,
    prev: AssertionModel,
    cur: AssertionModel,
) -> bool {
    exists|i: int| 0 <= i < store.scenes.len() && scene_explains(#[trigger] store.scenes[i], prev, cur)
}

/// The alert was an author's decision that changes of the attribute are
/// intended.
pub open spec fn marks_intended(a: AlertModel, project: Seq<char>, cur: AssertionModel) -> bool {
    &&& a.project == project
    &&& a.kind == AlertType::CharacterStateConflict
    &&& (a.decision == AuthorDecision::UpdatedFact || a.decision == AuthorDecision::Dismissed)
    &&& exists|k: int|
        0 <= k < a.elements.len() && (#[trigger] a.elements[k]).kind == ElementKind::Assertion
            && a.elements[k].subject == cur.character && a.elements[k].attribute == cur.attribute
}

pub open spec fn explained_by_author(
    log: Seq<AlertModel>,
    project: Seq<char>,
    cur: AssertionModel,
) -> bool {
    exists|i: int| 0 <= i < log.len() && marks_intended(#[trigger] log[i], project, cur)
}

pub open spec fn abs(x: int) -> int {
    if x < 0 {
        -x
    } else {
        x
    }
}

/// Both values are integers and the new one differs from the old one by
/// more than `threshold` percent of the old one.
pub open spec fn big_jump(prev: AssertionModel, cur: AssertionModel, threshold: int) -> bool {
    match (integer_value(prev.value), integer_value(cur.value)) {
        (Some(o), Some(n)) => abs(n - o) * 100 > threshold * abs(o),
        _ => false,
    }
}

pub open spec fn assertion_element(a: AssertionModel) -> ElementModel {
    ElementModel {
        kind: ElementKind::Assertion,
        subject: a.character,
        attribute: a.attribute,
        scene: a.scene,
    }
}

/// The alert for a change of state from `prev` to `cur`.
pub open spec fn state_conflict(
    prev: AssertionModel,
    cur: AssertionModel,
    severity: Severity,
) -> CandidateModel {
    CandidateModel {
        scene: Some(cur.scene),
        kind: AlertType::CharacterStateConflict,
        severity,
        description: "Attribute "@ + cur.attribute + " of character "@ + cur.character
            + " changes from '"@ + prev.value + "' to '"@ + cur.value + "'"@,
        elements: seq![assertion_element(prev), assertion_element(cur)],
        resolution: "Add a scene that explains the change, or revise one of the snapshots"@,
    }
}

/// What assertion `j` raises: a high-severity alert for a large numeric
/// jump, a medium one for any other change that nothing explains.
pub open spec fn state_issue(
    store: StoreModel,
    log: Seq<AlertModel>,
    hist: Seq<AssertionModel>,
    j: int,
    threshold: int,
) -> Option<CandidateModel> {
    match predecessor(hist, j) {
        Some(i) => {
            let prev = hist[i];
            let cur = hist[j];
            if prev.value == cur.value {
                None
            } else if big_jump(prev, cur, threshold) {
                Some(state_conflict(prev, cur, Severity::High))
            } else if explained_by_scene(store, prev, cur) || explained_by_author(
                log,
                store.project,
                cur,
            ) {
                None
            } else {
                Some(state_conflict(prev, cur, Severity::Medium))
            }
        },
        None => None,
    }
}

pub open spec fn opt_seq<T>(o: Option<T>) -> Seq<T> {
    match o {
        Some(x) => seq![x],
        None => Seq::empty(),
    }
}

/// The state alerts of the first `n` assertions, in history order.
pub open spec fn state_conflicts(
    store: StoreModel,
    log: Seq<AlertModel>,
    hist: Seq<AssertionModel>,
    threshold: int,
    n: int,
) -> Seq<CandidateModel>
    decreases n,
{
    if n <= 0 {
        Seq::empty()
    } else {
        state_conflicts(store, log, hist, threshold, n - 1) + opt_seq(
            state_issue(store, log, hist, n - 1, threshold),
        )
    }
}

/// The predecessor of assertion `j` on its track.
pub fn find_predecessor(hist: &Vec<AttributeAssertion>, j: usize) -> (r: Option<usize>)
    requires
        j < hist.len(),
    ensures
        match predecessor(assertions_view(hist@), j as int) {
            Some(i) => r == Some(i as usize) && 0 <= i < hist.len(),
            None => r is None,
        },
{
    let ghost h = assertions_view(hist@);
    let cur = &hist[j];
    let mut best: Option<usize> = None;
    let mut k: usize = 0;
    while k < hist.len()
        invariant
            k <= hist.len(),
            j < hist.len(),
            h == assertions_view(hist@),
            h[j as int] == cur@,
            match latest_before(h, j as int, k as int) {
                Some(i) => best == Some(i as usize) && 0 <= i < k,
                None => best is None,
            },
        decreases hist.len() - k,
    {
        let a = &hist[k];
        assert(h[k as int] == a@);
        if same_text(&a.character_id, &cur.character_id) && same_text(&a.attribute, &cur.attribute)
            && is_before(&a.position, &cur.position) {
            let better = match best {
                None => true,
                Some(b) => {
                    assert(h[b as int] == hist@[b as int]@);
                    is_before(&hist[b].position, &a.position)
                },
            };
            if better {
                best = Some(k);
            }
        }
        k = k + 1;
    }
    best
}

/// The character is among the scene's active characters.
fn is_active(active: &Vec<String>, character: &String) -> (r: bool)
    ensures
        r == strings_view(active@).contains(character@),
{
    let mut i: usize = 0;
    while i < active.len()
        invariant
            i <= active.len(),
            forall|k: int| 0 <= k < i ==> active@[k]@ != character@,
        decreases active.len() - i,
    {
        if same_text(&active[i], character) {
            assert(strings_view(active@)[i as int] == character@);
            return true;
        }
        i = i + 1;
    }
    assert forall|k: int| 0 <= k < strings_view(active@).len() implies strings_view(active@)[k]
        != character@ by {
        assert(strings_view(active@)[k] == active@[k]@);
    }
    false
}

/// Some scene explains the change from `prev` to `cur`.
fn scene_explanation(store: &NarrativeStore, prev: &AttributeAssertion, cur: &AttributeAssertion) -> (r:
    bool)
    ensures
        r == explained_by_scene(store@, prev@, cur@),
{
    let value = folded_chars(cur.value.as_str());
    let mut i: usize = 0;
    while i < store.scenes.len()
        invariant
            i <= store.scenes.len(),
            value@ == fold(cur.value@),
            forall|k: int| 0 <= k < i ==> !scene_explains(#[trigger] store@.scenes[k], prev@, cur@),
        decreases store.scenes.len() - i,
    {
        let s = &store.scenes[i];
        assert(store@.scenes[i as int] == s@);
        match location_of(s) {
            Some(p) => {
                if is_before(&prev.position, &p) && is_before(&p, &cur.position) && is_active(
                    &s.active_characters,
                    &cur.character_id,
                ) {
                    let content = folded_chars(s.content.as_str());
                    let outline = folded_chars(s.outline.as_str());
                    if contains_exec(&content, &value) || contains_exec(&outline, &value) {
                        return true;
                    }
                }
            },
            None => {},
        }
        i = i + 1;
    }
    false
}

/// An element of the alert names the attribute of the character.
fn names_attribute(elements: &Vec<ConflictElement>, cur: &AttributeAssertion) -> (r: bool)
    ensures
        r == (exists|k: int|
            0 <= k < elements@.len() && (#[trigger] elements@[k]@).kind == ElementKind::Assertion
                && elements@[k]@.subject == cur.character_id@ && elements@[k]@.attribute
                == cur.attribute@),
{
    let mut k: usize = 0;
    while k < elements.len()
        invariant
            k <= elements.len(),
            forall|m: int|
                0 <= m < k ==> !((#[trigger] elements@[m]@).kind == ElementKind::Assertion
                    && elements@[m]@.subject == cur.character_id@ && elements@[m]@.attribute
                    == cur.attribute@),
        decreases elements.len() - k,
    {
        let e = &elements[k];
        let is_assertion = match e.kind {
            ElementKind::Assertion => true,
            _ => false,
        };
        if is_assertion && same_text(&e.subject, &cur.character_id) && same_text(
            &e.attribute,
            &cur.attribute,
        ) {
            assert(elements@[k as int]@ == e@);
            assert(elements@[k as int]@.kind == ElementKind::Assertion);
            return true;
        }
        k = k + 1;
    }
    false
}

/// An earlier author decision marks changes of the attribute as intended.
fn author_explanation(log: &AlertLog, project_id: &String, cur: &AttributeAssertion) -> (r: bool)
    ensures
        r == explained_by_author(log@, project_id@, cur@),
{
    let mut i: usize = 0;
    while i < log.alerts.len()
        invariant
            i <= log.alerts.len(),
            forall|k: int| 0 <= k < i ==> !marks_intended(#[trigger] log@[k], project_id@, cur@),
        decreases log.alerts.len() - i,
    {
        let a = &log.alerts[i];
        assert(log@[i as int] == a@);
        let decided = match a.decision {
            AuthorDecision::UpdatedFact => true,
            AuthorDecision::Dismissed => true,
            _ => false,
        };
        let state_kind = match a.alert_type {
            AlertType::CharacterStateConflict => true,
            _ => false,
        };
        if decided && state_kind && same_text(&a.project_id, project_id) {
            let named = names_attribute(&a.elements, cur);
            proof {
                if named {
                    let k = choose|k: int|
                        0 <= k < a.elements@.len() && (#[trigger] a.elements@[k]@).kind
                            == ElementKind::Assertion && a.elements@[k]@.subject
                            == cur.character_id@ && a.elements@[k]@.attribute == cur.attribute@;
                    assert(a@.elements[k] == a.elements@[k]@);
                } else {
                    assert forall|k: int| 0 <= k < a@.elements.len() implies !((
                    #[trigger] a@.elements[k]).kind == ElementKind::Assertion
                        && a@.elements[k].subject == cur@.character && a@.elements[k].attribute
                        == cur@.attribute) by {
                        assert(a@.elements[k] == a.elements@[k]@);
                    }
                }
            }
            if named {
                return true;
            }
        }
        i = i + 1;
    }
    false
}

/// Whether the change from `prev` to `cur` is a jump beyond the threshold.
fn is_big_jump(prev: &AttributeAssertion, cur: &AttributeAssertion, threshold: u32) -> (r: bool)
    ensures
        r == big_jump(prev@, cur@, threshold as int),
{
    let pv = chars_of(prev.value.as_str());
    let cv = chars_of(cur.value.as_str());
    match (integer_of(&pv), integer_of(&cv)) {
        (Some(o), Some(n)) => {
            let o2: i128 = o as i128;
            let n2: i128 = n as i128;
            let diff: i128 = if n2 >= o2 { n2 - o2 } else { o2 - n2 };
            let base: i128 = if o2 >= 0 { o2 } else { -o2 };
            assert(abs(n - o) == diff);
            assert(abs(o as int) == base);
            proof {
                lemma_integer_value_bound(pv@);
                lemma_integer_value_bound(cv@);
            }
            assert(diff * 100 <= 400_000_000_000_000_000_000) by (nonlinear_arith)
                requires
                    0 <= diff <= 2_000_000_000_000_000_000,
            ;
            assert((threshold as i128) * base <= 4_294_967_295 * 1_000_000_000_000_000_000)
                by (nonlinear_arith)
                requires
                    0 <= base <= 1_000_000_000_000_000_000,
                    0 <= threshold <= 4_294_967_295,
            ;
            diff * 100 > (threshold as i128) * base
        },
        _ => false,
    }
}

pub fn assertion_element_of(a: &AttributeAssertion) -> (r: ConflictElement)
    ensures
        r@ == assertion_element(a@),
{
    ConflictElement {
        kind: ElementKind::Assertion,
        subject: copy_text(&a.character_id),
        attribute: copy_text(&a.attribute),
        scene_id: copy_text(&a.scene_id),
    }
}

/// The alert for a change of state from `prev` to `cur`.
pub fn state_conflict_alert(
    prev: &AttributeAssertion,
    cur: &AttributeAssertion,
    severity: Severity,
) -> (r: AlertCandidate)
    ensures
        r@ == state_conflict(prev@, cur@, severity),
{
    let description = String::from_str("Attribute ").concat(cur.attribute.as_str()).concat(
        " of character ",
    ).concat(cur.character_id.as_str()).concat(" changes from '").concat(
        prev.value.as_str(),
    ).concat("' to '").concat(cur.value.as_str()).concat("'");
    let mut elements: Vec<ConflictElement> = Vec::new();
    elements.push(assertion_element_of(prev));
    elements.push(assertion_element_of(cur));
    let r = AlertCandidate {
        scene_id: Some(copy_text(&cur.scene_id)),
        alert_type: AlertType::CharacterStateConflict,
        severity,
        description,
        elements,
        suggested_resolution: String::from_str(
            "Add a scene that explains the change, or revise one of the snapshots",
        ),
    };
    assert(r@.elements =~= state_conflict(prev@, cur@, severity).elements);
    r
}

/// The state alerts of a history, in history order.
pub fn detect_state_conflicts(
    store: &NarrativeStore,
    log: &AlertLog,
    hist: &Vec<AttributeAssertion>,
    config: &ScanConfig,
) -> (r: Vec<AlertCandidate>)
    ensures
        candidates_view(r@) == state_conflicts(
            store@,
            log@,
            assertions_view(hist@),
            config.jump_threshold_percent as int,
            hist@.len() as int,
        ),
{
    let ghost h = assertions_view(hist@);
    let ghost t = config.jump_threshold_percent as int;
    let mut out: Vec<AlertCandidate> = Vec::new();
    let mut j: usize = 0;
    while j < hist.len()
        invariant
            j <= hist.len(),
            h == assertions_view(hist@),
            t == config.jump_threshold_percent as int,
            candidates_view(out@) == state_conflicts(store@, log@, h, t, j as int),
        decreases hist.len() - j,
    {
        let ghost prev_out = out@;
        let issue: Option<AlertCandidate> = match find_predecessor(hist, j) {
            Some(i) => {
                let prev = &hist[i];
                let cur = &hist[j];
                assert(h[i as int] == prev@ && h[j as int] == cur@);
                if same_text(&prev.value, &cur.value) {
                    None
                } else if is_big_jump(prev, cur, config.jump_threshold_percent) {
                    Some(state_conflict_alert(prev, cur, Severity::High))
                } else if scene_explanation(store, prev, cur) || author_explanation(
                    log,
                    &store.project_id,
                    cur,
                ) {
                    None
                } else {
                    Some(state_conflict_alert(prev, cur, Severity::Medium))
                }
            },
            None => None,
        };
        match issue {
            Some(c) => {
                out.push(c);
                assert(candidates_view(out@) =~= candidates_view(prev_out).push(c@));
            },
            None => {},
        }
        assert(candidates_view(out@) =~= state_conflicts(store@, log@, h, t, j + 1));
        j = j + 1;
    }
    out
}

/// Two assertions claim values of one attribute that cannot both hold:
/// different numbers where both are integers, else different texts up to
/// letter case.
pub open spec fn incompatible(a: AssertionModel, b: AssertionModel) -> bool {
    a.attribute == b.attribute && match (integer_value(a.value), integer_value(b.value)) {
        (Some(x), Some(y)) => x != y,
        _ => fold(a.value) != fold(b.value),
    }
}

/// The severity that a rule's scope gives its violations.
pub open spec fn scope_severity(scope: RuleScope) -> Severity {
    match scope {
        RuleScope::Universal => Severity::High,
        RuleScope::Regional => Severity::Medium,
        RuleScope::Situational => Severity::Low,
    }
}

pub open spec fn rule_element(rule: RuleModel) -> ElementModel {
    ElementModel {
        kind: ElementKind::Rule,
        subject: rule.id,
        attribute: Seq::empty(),
        scene: Seq::empty(),
    }
}

/// The alert for two assertions that disagree under a rule.
pub open spec fn rule_violation(rule: RuleModel, a: AssertionModel, b: AssertionModel) -> CandidateModel {
    CandidateModel {
        scene: Some(b.scene),
        kind: AlertType::WorldRuleViolation,
        severity: scope_severity(rule.scope),
        description: "Values '"@ + a.value + "' and '"@ + b.value + "' of attribute "@
            + a.attribute + " disagree under world rule "@ + rule.name,
        elements: seq![assertion_element(a), assertion_element(b), rule_element(rule)],
        resolution: "Revise one of the values, or update the world rule"@,
    }
}

/// The alerts for assertion `j` against each of the first `n` assertions.
pub open spec fn pairs_with(
    store: StoreModel,
    rule: RuleModel,
    hist: Seq<AssertionModel>,
    j: int,
    n: int,
) -> Seq<CandidateModel>
    decreases n,
{
    if n <= 0 {
        Seq::empty()
    } else {
        let i = n - 1;
        pairs_with(store, rule, hist, j, n - 1) + if rule_matches(store, rule, hist[i])
            && rule_matches(store, rule, hist[j]) && incompatible(hist[i], hist[j]) {
            seq![rule_violation(rule, hist[i], hist[j])]
        } else {
            Seq::empty()
        }
    }
}

/// The alerts of one rule over the first `m` assertions: each assertion
/// against every earlier one.
pub open spec fn violations_of_rule(
    store: StoreModel,
    rule: RuleModel,
    hist: Seq<AssertionModel>,
    m: int,
) -> Seq<CandidateModel>
    decreases m,
{
    if m <= 0 {
        Seq::empty()
    } else {
        violations_of_rule(store, rule, hist, m - 1) + pairs_with(store, rule, hist, m - 1, m - 1)
    }
}

/// The rule alerts of the first `n` rules, in rule order.
pub open spec fn rule_violations(store: StoreModel, hist: Seq<AssertionModel>, n: int) -> Seq<
    CandidateModel,
>
    decreases n,
{
    if n <= 0 {
        Seq::empty()
    } else {
        rule_violations(store, hist, n - 1) + violations_of_rule(
            store,
            store.rules[n - 1],
            hist,
            hist.len() as int,
        )
    }
}

fn is_incompatible(a: &AttributeAssertion, b: &AttributeAssertion) -> (r: bool)
    ensures
        r == incompatible(a@, b@),
{
    if !same_text(&a.attribute, &b.attribute) {
        return false;
    }
    let av = chars_of(a.value.as_str());
    let bv = chars_of(b.value.as_str());
    match (integer_of(&av), integer_of(&bv)) {
        (Some(x), Some(y)) => x != y,
        _ => {
            let fa = fold_vec(&av);
            let fb = fold_vec(&bv);
            !seq_eq(&fa, &fb)
        },
    }
}

pub fn rule_element_of(rule: &WorldRuleRecord) -> (r: ConflictElement)
    ensures
        r@ == rule_element(rule@),
{
    ConflictElement {
        kind: ElementKind::Rule,
        subject: copy_text(&rule.id),
        attribute: String::new(),
        scene_id: String::new(),
    }
}

/// The alert for two assertions that disagree under a rule.
pub fn rule_violation_alert(
    rule: &WorldRuleRecord,
    a: &AttributeAssertion,
    b: &AttributeAssertion,
) -> (r: AlertCandidate)
    ensures
        r@ == rule_violation(rule@, a@, b@),
{
    let description = String::from_str("Values '").concat(a.value.as_str()).concat(
        "' and '",
    ).concat(b.value.as_str()).concat("' of attribute ").concat(a.attribute.as_str()).concat(
        " disagree under world rule ",
    ).concat(rule.name.as_str());
    let severity = match rule.scope {
        RuleScope::Universal => Severity::High,
        RuleScope::Regional => Severity::Medium,
        RuleScope::Situational => Severity::Low,
    };
    let mut elements: Vec<ConflictElement> = Vec::new();
    elements.push(assertion_element_of(a));
    elements.push(assertion_element_of(b));
    elements.push(rule_element_of(rule));
    let r = AlertCandidate {
        scene_id: Some(copy_text(&b.scene_id)),
        alert_type: AlertType::WorldRuleViolation,
        severity,
        description,
        elements,
        suggested_resolution: String::from_str(
            "Revise one of the values, or update the world rule",
        ),
    };
    assert(r@.elements =~= rule_violation(rule@, a@, b@).elements);
    r
}

/// The alerts of one rule over a history.
fn detect_rule(store: &NarrativeStore, rule: &WorldRuleRecord, hist: &Vec<AttributeAssertion>) -> (r:
    Vec<AlertCandidate>)
    ensures
        candidates_view(r@) == violations_of_rule(
            store@,
            rule@,
            assertions_view(hist@),
            hist@.len() as int,
        ),
{
    let ghost h = assertions_view(hist@);
    let mut flags: Vec<bool> = Vec::new();
    let mut k: usize = 0;
    while k < hist.len()
        invariant
            k <= hist.len(),
            h == assertions_view(hist@),
            flags@.len() == k,
            forall|m: int| 0 <= m < k ==> flags@[m] == rule_matches(store@, rule@, #[trigger] h[m]),
        decreases hist.len() - k,
    {
        assert(h[k as int] == hist@[k as int]@);
        flags.push(matches_rule(store, rule, &hist[k]));
        k = k + 1;
    }
    let mut out: Vec<AlertCandidate> = Vec::new();
    let mut j: usize = 0;
    while j < hist.len()
        invariant
            j <= hist.len(),
            h == assertions_view(hist@),
            flags@.len() == hist.len(),
            forall|m: int| 0 <= m < hist.len() ==> flags@[m] == rule_matches(store@, rule@, #[trigger] h[m]),
            candidates_view(out@) == violations_of_rule(store@, rule@, h, j as int),
        decreases hist.len() - j,
    {
        let mut i: usize = 0;
        let ghost base = candidates_view(out@);
        while i < j
            invariant
                i <= j < hist.len(),
                h == assertions_view(hist@),
                flags@.len() == hist.len(),
                forall|m: int|
                    0 <= m < hist.len() ==> flags@[m] == rule_matches(store@, rule@, #[trigger] h[m]),
                base == violations_of_rule(store@, rule@, h, j as int),
                candidates_view(out@) == base + pairs_with(store@, rule@, h, j as int, i as int),
            decreases j - i,
        {
            assert(h[i as int] == hist@[i as int]@ && h[j as int] == hist@[j as int]@);
            let ghost prev_out = out@;
            if flags[i] && flags[j] && is_incompatible(&hist[i], &hist[j]) {
                let c = rule_violation_alert(rule, &hist[i], &hist[j]);
                out.push(c);
                assert(candidates_view(out@) =~= candidates_view(prev_out).push(c@));
            }
            assert(candidates_view(out@) =~= base + pairs_with(store@, rule@, h, j as int, i + 1));
            i = i + 1;
        }
        assert(candidates_view(out@) =~= violations_of_rule(store@, rule@, h, j + 1));
        j = j + 1;
    }
    out
}

/// The rule alerts of a history, rule by rule.
pub fn detect_rule_violations(store: &NarrativeStore, hist: &Vec<AttributeAssertion>) -> (r: Vec<
    AlertCandidate,
>)
    ensures
        candidates_view(r@) == rule_violations(
            store@,
            assertions_view(hist@),
            store@.rules.len() as int,
        ),
{
    let mut out: Vec<AlertCandidate> = Vec::new();
    let mut k: usize = 0;
    while k < store.rules.len()
        invariant
            k <= store.rules.len(),
            candidates_view(out@) == rule_violations(store@, assertions_view(hist@), k as int),
        decreases store.rules.len() - k,
    {
        assert(store@.rules[k as int] == store.rules@[k as int]@);
        let mut found = detect_rule(store, &store.rules[k], hist);
        let ghost prev = out@;
        let ghost added = found@;
        out.append(&mut found);
        assert(candidates_view(out@) =~= candidates_view(prev) + candidates_view(added));
        k = k + 1;
    }
    out
}

/// Word `i` of `ws` opens a sequencing cue: `after` or `before`, then
/// `scene`, then the referenced scene, in any letter case.
pub open spec fn cue_at(ws: Seq<Seq<char>>, i: int) -> bool {
    &&& 0 <= i
    &&& i + 2 < ws.len()
    &&& (fold(ws[i]) == "after"@ || fold(ws[i]) == "before"@)
    &&& fold(ws[i + 1]) == "scene"@
}

/// The first cue among the first `n` words.
pub open spec fn first_cue(ws: Seq<Seq<char>>, n: int) -> Option<int>
    decreases n,
{
    if n <= 0 {
        None
    } else {
        match first_cue(ws, n - 1) {
            Some(i) => Some(i),
            None => if cue_at(ws, n - 1) {
                Some(n - 1)
            } else {
                None
            },
        }
    }
}

/// The sequencing cue of a time marker: whether it says `after`, and the
/// referenced scene.
pub open spec fn cue_of(marker: Seq<char>) -> Option<(bool, Seq<char>)> {
    let ws = words(marker);
    match first_cue(ws, ws.len() as int) {
        Some(i) => Some((fold(ws[i]) == "after"@, ws[i + 2])),
        None => None,
    }
}

/// The scene is the one a cue refers to, by id or title, in any letter case.
pub open spec fn refers_to(s: SceneModel, name: Seq<char>) -> bool {
    fold(s.id) == fold(name) || fold(s.title) == fold(name)
}

/// The first of the first `n` scenes that a cue refers to.
pub open spec fn first_referred(scenes: Seq<SceneModel>, name: Seq<char>, n: int) -> Option<int>
    decreases n,
{
    if n <= 0 {
        None
    } else {
        match first_referred(scenes, name, n - 1) {
            Some(i) => Some(i),
            None => if refers_to(scenes[n - 1], name) {
                Some(n - 1)
            } else {
                None
            },
        }
    }
}

pub open spec fn scene_element(s: SceneModel) -> ElementModel {
    ElementModel {
        kind: ElementKind::Scene,
        subject: Seq::empty(),
        attribute: Seq::empty(),
        scene: s.id,
    }
}

/// The alert for scene `b`, whose cue names scene `t` in an order that
/// the structure contradicts.
pub open spec fn timeline_contradiction(t: SceneModel, b: SceneModel) -> CandidateModel {
    CandidateModel {
        scene: Some(b.id),
        kind: AlertType::TimelineContradiction,
        severity: Severity::Medium,
        description: "Scene "@ + b.id + " is marked '"@ + b.time_marker
            + "' but its position disagrees with scene "@ + t.id,
        elements: seq![scene_element(t), scene_element(b)],
        resolution: "Move one of the scenes, or correct the time marker"@,
    }
}

/// What scene `b` raises: where its cue says it comes after (before) a
/// scene, that scene must have an earlier (later) position.
pub open spec fn timeline_issue(store: StoreModel, b: SceneModel) -> Option<CandidateModel> {
    match (located(b), cue_of(b.time_marker)) {
        (Some(pb), Some((after, name))) => match first_referred(
            store.scenes,
            name,
            store.scenes.len() as int,
        ) {
            Some(t) => match located(store.scenes[t]) {
                Some(pt) => if (after && !precedes(pt, pb)) || (!after && !precedes(pb, pt)) {
                    Some(timeline_contradiction(store.scenes[t], b))
                } else {
                    None
                },
                None => None,
            },
            None => None,
        },
        _ => None,
    }
}

/// The timeline alerts of the first `n` scenes, in scene order.
pub open spec fn timeline_issues(store: StoreModel, n: int) -> Seq<CandidateModel>
    decreases n,
{
    if n <= 0 {
        Seq::empty()
    } else {
        timeline_issues(store, n - 1) + opt_seq(timeline_issue(store, store.scenes[n - 1]))
    }
}

proof fn lemma_first_cue_prefix(ws: Seq<Seq<char>>, n: int, m: int)
    requires
        0 <= n <= m,
        first_cue(ws, n) is Some,
    ensures
        first_cue(ws, m) == first_cue(ws, n),
    decreases m - n,
{
    if m > n {
        lemma_first_cue_prefix(ws, n, m - 1);
    }
}

proof fn lemma_first_referred_prefix(scenes: Seq<SceneModel>, name: Seq<char>, n: int, m: int)
    requires
        0 <= n <= m,
        first_referred(scenes, name, n) is Some,
    ensures
        first_referred(scenes, name, m) == first_referred(scenes, name, n),
    decreases m - n,
{
    if m > n {
        lemma_first_referred_prefix(scenes, name, n, m - 1);
    }
}

/// The word, lower-cased, is the given text.
fn folded_is(w: &Vec<char>, lit: &str) -> (r: bool)
    ensures
        r == (fold(w@) == lit@),
{
    let fw = fold_vec(w);
    let l = chars_of(lit);
    seq_eq(&fw, &l)
}

/// Reads the sequencing cue of a time marker.
pub fn cue_in(marker: &String) -> (r: Option<(bool, Vec<char>)>)
    ensures
        match cue_of(marker@) {
            Some((after, name)) => r matches Some((a, n)) && a == after && n@ == name,
            None => r is None,
        },
{
    let ws = words_of(marker.as_str());
    let ghost wv = char_views(ws@);
    let mut i: usize = 0;
    while i < ws.len()
        invariant
            i <= ws.len(),
            wv == char_views(ws@),
            wv == words(marker@),
            first_cue(wv, i as int) is None,
        decreases ws.len() - i,
    {
        if ws.len() - i > 2 {
            assert(wv[i as int] == ws@[i as int]@);
            assert(wv[i + 1] == ws@[i + 1]@);
            assert(wv[i + 2] == ws@[i + 2]@);
            let after = folded_is(&ws[i], "after");
            let before = folded_is(&ws[i], "before");
            if (after || before) && folded_is(&ws[i + 1], "scene") {
                proof {
                    lemma_first_cue_prefix(wv, i + 1, wv.len() as int);
                }
                let mut copy: Vec<char> = Vec::new();
                let mut k: usize = 0;
                let src = &ws[i + 2];
                while k < src.len()
                    invariant
                        k <= src.len(),
                        copy@ == src@.take(k as int),
                    decreases src.len() - k,
                {
                    copy.push(src[k]);
                    assert(src@.take(k + 1) =~= src@.take(k as int).push(src@[k as int]));
                    k = k + 1;
                }
                assert(src@.take(k as int) =~= src@);
                return Some((after, copy));
            }
        }
        i = i + 1;
    }
    None
}

/// The first scene that a cue refers to.
fn referred_scene(scenes: &Vec<SceneRecord>, name: &Vec<char>) -> (r: Option<usize>)
    ensures
        match first_referred(
            scenes@.map_values(|s: SceneRecord| s@),
            name@,
            scenes@.len() as int,
        ) {
            Some(t) => r == Some(t as usize) && 0 <= t < scenes@.len(),
            None => r is None,
        },
{
    let ghost ms = scenes@.map_values(|s: SceneRecord| s@);
    let fname = fold_vec(name);
    let mut i: usize = 0;
    while i < scenes.len()
        invariant
            i <= scenes.len(),
            ms == scenes@.map_values(|s: SceneRecord| s@),
            fname@ == fold(name@),
            first_referred(ms, name@, i as int) is None,
        decreases scenes.len() - i,
    {
        assert(ms[i as int] == scenes@[i as int]@);
        let fid = folded_chars(scenes[i].id.as_str());
        let ftitle = folded_chars(scenes[i].title.as_str());
        if seq_eq(&fid, &fname) || seq_eq(&ftitle, &fname) {
            proof {
                lemma_first_referred_prefix(ms, name@, i + 1, ms.len() as int);
            }
            return Some(i);
        }
        i = i + 1;
    }
    None
}

pub fn scene_element_of(s: &SceneRecord) -> (r: ConflictElement)
    ensures
        r@ == scene_element(s@),
{
    ConflictElement {
        kind: ElementKind::Scene,
        subject: String::new(),
        attribute: String::new(),
        scene_id: copy_text(&s.id),
    }
}

/// The alert for scene `b`, whose cue names scene `t`.
pub fn timeline_alert(t: &SceneRecord, b: &SceneRecord) -> (r: AlertCandidate)
    ensures
        r@ == timeline_contradiction(t@, b@),
{
    let description = String::from_str("Scene ").concat(b.id.as_str()).concat(
        " is marked '",
    ).concat(b.time_marker.as_str()).concat("' but its position disagrees with scene ").concat(
        t.id.as_str(),
    );
    let mut elements: Vec<ConflictElement> = Vec::new();
    elements.push(scene_element_of(t));
    elements.push(scene_element_of(b));
    let r = AlertCandidate {
        scene_id: Some(copy_text(&b.id)),
        alert_type: AlertType::TimelineContradiction,
        severity: Severity::Medium,
        description,
        elements,
        suggested_resolution: String::from_str(
            "Move one of the scenes, or correct the time marker",
        ),
    };
    assert(r@.elements =~= timeline_contradiction(t@, b@).elements);
    r
}

/// The timeline alerts of a store, in scene order.
pub fn detect_timeline(store: &NarrativeStore) -> (r: Vec<AlertCandidate>)
    ensures
        candidates_view(r@) == timeline_issues(store@, store@.scenes.len() as int),
{
    let mut out: Vec<AlertCandidate> = Vec::new();
    let mut j: usize = 0;
    while j < store.scenes.len()
        invariant
            j <= store.scenes.len(),
            candidates_view(out@) == timeline_issues(store@, j as int),
        decreases store.scenes.len() - j,
    {
        let b = &store.scenes[j];
        assert(store@.scenes[j as int] == b@);
        let ghost prev_out = out@;
        let issue: Option<AlertCandidate> = match (location_of(b), cue_in(&b.time_marker)) {
            (Some(pb), Some((after, name))) => match referred_scene(&store.scenes, &name) {
                Some(t) => {
                    assert(store@.scenes[t as int] == store.scenes@[t as int]@);
                    match location_of(&store.scenes[t]) {
                        Some(pt) => {
                            if (after && !is_before(&pt, &pb)) || (!after && !is_before(&pb, &pt)) {
                                Some(timeline_alert(&store.scenes[t], b))
                            } else {
                                None
                            }
                        },
                        None => None,
                    }
                },
                None => None,
            },
            _ => None,
        };
        match issue {
            Some(c) => {
                out.push(c);
                assert(candidates_view(out@) =~= candidates_view(prev_out).push(c@));
            },
            None => {},
        }
        assert(candidates_view(out@) =~= timeline_issues(store@, j + 1));
        j = j + 1;
    }
    out
}

} // verus!
