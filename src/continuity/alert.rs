//! Continuity alerts and their lifecycle: deduplicated recording, author
//! decisions, listing.
use crate::continuity::store::{copy_text, same_text};
use crate::continuity::text::text_eq;
use crate::error::StoryError;
use vstd::prelude::*;

verus! {

/// The kind of problem that an alert reports.
#[derive(Clone, Copy, Debug, PartialEq, Eq, Structural)]
pub enum AlertType {
    WorldRuleViolation,
    CharacterStateConflict,
    TimelineContradiction,
    FactualInconsistency,
}

impl AlertType {
    /// The stored name of each variant.
    pub open spec fn name(self) -> Seq<char> {
        match self {
            AlertType::WorldRuleViolation => "world_rule_violation"@,
            AlertType::CharacterStateConflict => "character_state_conflict"@,
            AlertType::TimelineContradiction => "timeline_contradiction"@,
            AlertType::FactualInconsistency => "factual_inconsistency"@,
        }
    }

    /// The variant whose stored name is `s`, if any.
    pub open spec fn parse(s: Seq<char>) -> Option<Self> {
        if s == "world_rule_violation"@ {
            Some(AlertType::WorldRuleViolation)
        } else if s == "character_state_conflict"@ {
            Some(AlertType::CharacterStateConflict)
        } else if s == "timeline_contradiction"@ {
            Some(AlertType::TimelineContradiction)
        } else if s == "factual_inconsistency"@ {
            Some(AlertType::FactualInconsistency)
        } else {
            None
        }
    }

    pub fn from_str(s: &str) -> (r: Option<Self>)
        ensures
            r == Self::parse(s@),
    {
        if text_eq(s, "world_rule_violation") {
            Some(AlertType::WorldRuleViolation)
        } else if text_eq(s, "character_state_conflict") {
            Some(AlertType::CharacterStateConflict)
        } else if text_eq(s, "timeline_contradiction") {
            Some(AlertType::TimelineContradiction)
        } else if text_eq(s, "factual_inconsistency") {
            Some(AlertType::FactualInconsistency)
        } else {
            None
        }
    }

    pub fn to_string(&self) -> (r: String)
        ensures
            r@ == self.name(),
    {
        match self {
            AlertType::WorldRuleViolation => String::from_str("world_rule_violation"),
            AlertType::CharacterStateConflict => String::from_str("character_state_conflict"),
            AlertType::TimelineContradiction => String::from_str("timeline_contradiction"),
            AlertType::FactualInconsistency => String::from_str("factual_inconsistency"),
        }
    }
}

/// How urgently an alert needs the author's attention.
#[derive(Clone, Copy, Debug, PartialEq, Eq, Structural)]
pub enum Severity {
    Low,
    Medium,
    High,
}

impl Severity {
    /// The stored name of each variant.
    pub open spec fn name(self) -> Seq<char> {
        match self {
            Severity::Low => "low"@,
            Severity::Medium => "medium"@,
            Severity::High => "high"@,
        }
    }

    /// The variant whose stored name is `s`, if any.
    pub open spec fn parse(s: Seq<char>) -> Option<Self> {
        if s == "low"@ {
            Some(Severity::Low)
        } else if s == "medium"@ {
            Some(Severity::Medium)
        } else if s == "high"@ {
            Some(Severity::High)
        } else {
            None
        }
    }

    pub fn from_str(s: &str) -> (r: Option<Self>)
        ensures
            r == Self::parse(s@),
    {
        if text_eq(s, "low") {
            Some(Severity::Low)
        } else if text_eq(s, "medium") {
            Some(Severity::Medium)
        } else if text_eq(s, "high") {
            Some(Severity::High)
        } else {
            None
        }
    }

    pub fn to_string(&self) -> (r: String)
        ensures
            r@ == self.name(),
    {
        match self {
            Severity::Low => String::from_str("low"),
            Severity::Medium => String::from_str("medium"),
            Severity::High => String::from_str("high"),
        }
    }
}

/// What the author decided about an alert.
#[derive(Clone, Copy, Debug, PartialEq, Eq, Structural)]
pub enum AuthorDecision {
    Pending,
    RevisedContent,
    UpdatedFact,
    Dismissed,
}

impl AuthorDecision {
    /// The stored name of each variant.
    pub open spec fn name(self) -> Seq<char> {
        match self {
            AuthorDecision::Pending => "pending"@,
            AuthorDecision::RevisedContent => "revised_content"@,
            AuthorDecision::UpdatedFact => "updated_fact"@,
            AuthorDecision::Dismissed => "dismissed"@,
        }
    }

    /// The variant whose stored name is `s`, if any.
    pub open spec fn parse(s: Seq<char>) -> Option<Self> {
        if s == "pending"@ {
            Some(AuthorDecision::Pending)
        } else if s == "revised_content"@ {
            Some(AuthorDecision::RevisedContent)
        } else if s == "updated_fact"@ {
            Some(AuthorDecision::UpdatedFact)
        } else if s == "dismissed"@ {
            Some(AuthorDecision::Dismissed)
        } else {
            None
        }
    }

    pub fn from_str(s: &str) -> (r: Option<Self>)
        ensures
            r == Self::parse(s@),
    {
        if text_eq(s, "pending") {
            Some(AuthorDecision::Pending)
        } else if text_eq(s, "revised_content") {
            Some(AuthorDecision::RevisedContent)
        } else if text_eq(s, "updated_fact") {
            Some(AuthorDecision::UpdatedFact)
        } else if text_eq(s, "dismissed") {
            Some(AuthorDecision::Dismissed)
        } else {
            None
        }
    }

    pub fn to_string(&self) -> (r: String)
        ensures
            r@ == self.name(),
    {
        match self {
            AuthorDecision::Pending => String::from_str("pending"),
            AuthorDecision::RevisedContent => String::from_str("revised_content"),
            AuthorDecision::UpdatedFact => String::from_str("updated_fact"),
            AuthorDecision::Dismissed => String::from_str("dismissed"),
        }
    }
}

/// What a conflicting element refers to.
#[derive(Clone, Copy, Debug, PartialEq, Eq, Structural)]
pub enum ElementKind {
    /// An attribute assertion: `subject` is the character, `attribute` the
    /// attribute, `scene_id` the scene that asserted it.
    Assertion,
    /// A world rule: `subject` is the rule id.
    Rule,
    /// A scene: `scene_id` is the scene.
    Scene,
    /// A state snapshot: `subject` is the character, `scene_id` the scene.
    Snapshot,
}

/// One of the things an alert cites as contradicting one another.
pub struct ConflictElement {
    pub kind: ElementKind,
    pub subject: String,
    pub attribute: String,
    pub scene_id: String,
}

pub struct ElementModel {
    pub kind: ElementKind,
    pub subject: Seq<char>,
    pub attribute: Seq<char>,
    pub scene: Seq<char>,
}

impl View for ConflictElement {
    type V = ElementModel;

    open spec fn view(&self) -> ElementModel {
        ElementModel {
            kind: self.kind,
            subject: self.subject@,
            attribute: self.attribute@,
            scene: self.scene_id@,
        }
    }
}

pub open spec fn elements_view(v: Seq<ConflictElement>) -> Seq<ElementModel> {
    v.map_values(|e: ConflictElement| e@)
}

/// A problem found by the detector, before it is recorded.
pub struct AlertCandidate {
    pub scene_id: Option<String>,
    pub alert_type: AlertType,
    pub severity: Severity,
    pub description: String,
    pub elements: Vec<ConflictElement>,
    pub suggested_resolution: String,
}

pub struct CandidateModel {
    pub scene: Option<Seq<char>>,
    pub kind: AlertType,
    pub severity: Severity,
    pub description: Seq<char>,
    pub elements: Seq<ElementModel>,
    pub resolution: Seq<char>,
}

pub open spec fn opt_view(o: Option<String>) -> Option<Seq<char>> {
    match o {
        Some(s) => Some(s@),
        None => None,
    }
}

impl View for AlertCandidate {
    type V = CandidateModel;

    open spec fn view(&self) -> CandidateModel {
        CandidateModel {
            scene: opt_view(self.scene_id),
            kind: self.alert_type,
            severity: self.severity,
            description: self.description@,
            elements: elements_view(self.elements@),
            resolution: self.suggested_resolution@,
        }
    }
}

/// A recorded alert.
pub struct ContinuityAlert {
    pub id: String,
    pub project_id: String,
    pub scene_id: Option<String>,
    pub alert_type: AlertType,
    pub severity: Severity,
    pub description: String,
    pub elements: Vec<ConflictElement>,
    pub suggested_resolution: String,
    pub decision: AuthorDecision,
    pub author_notes: Option<String>,
    pub created_at: String,
    pub resolved_at: Option<String>,
}

pub struct AlertModel {
    pub id: Seq<char>,
    pub project: Seq<char>,
    pub scene: Option<Seq<char>>,
    pub kind: AlertType,
    pub severity: Severity,
    pub description: Seq<char>,
    pub elements: Seq<ElementModel>,
    pub resolution: Seq<char>,
    pub decision: AuthorDecision,
    pub notes: Option<Seq<char>>,
    pub created_at: Seq<char>,
    pub resolved_at: Option<Seq<char>>,
}

impl View for ContinuityAlert {
    type V = AlertModel;

    open spec fn view(&self) -> AlertModel {
        AlertModel {
            id: self.id@,
            project: self.project_id@,
            scene: opt_view(self.scene_id),
            kind: self.alert_type,
            severity: self.severity,
            description: self.description@,
            elements: elements_view(self.elements@),
            resolution: self.suggested_resolution@,
            decision: self.decision,
            notes: opt_view(self.author_notes),
            created_at: self.created_at@,
            resolved_at: opt_view(self.resolved_at),
        }
    }
}

/// The alert is about the conflict that the candidate describes: same
/// project, same type, same set of conflicting elements.
pub open spec fn same_conflict(a: AlertModel, project: Seq<char>, c: CandidateModel) -> bool {
    &&& a.project == project
    &&& a.kind == c.kind
    &&& a.elements.to_set() == c.elements.to_set()
}

/// Two alerts have the same identity: project, type and element set.
pub open spec fn same_signature(a: AlertModel, b: AlertModel) -> bool {
    &&& a.project == b.project
    &&& a.kind == b.kind
    &&& a.elements.to_set() == b.elements.to_set()
}

/// The alert already accounts for the candidate: it is still open, or it
/// was decided on the same evidence.
pub open spec fn covers(a: AlertModel, project: Seq<char>, c: CandidateModel) -> bool {
    same_conflict(a, project, c) && (a.decision == AuthorDecision::Pending || a.description
        == c.description)
}

pub open spec fn covered(log: Seq<AlertModel>, project: Seq<char>, c: CandidateModel) -> bool {
    exists|i: int| 0 <= i < log.len() && covers(#[trigger] log[i], project, c)
}

/// The alert was raised from the candidate: every field but the id and the
/// creation time comes from it, and it is open.
pub open spec fn raised_from(a: AlertModel, project: Seq<char>, c: CandidateModel) -> bool {
    &&& a.project == project
    &&& a.scene == c.scene
    &&& a.kind == c.kind
    &&& a.severity == c.severity
    &&& a.description == c.description
    &&& a.elements == c.elements
    &&& a.resolution == c.resolution
    &&& a.decision == AuthorDecision::Pending
    &&& a.notes is None
    &&& a.resolved_at is None
}

/// The alerts of a project, as the store holds them.
pub struct AlertLog {
    pub alerts: Vec<ContinuityAlert>,
}

impl View for AlertLog {
    type V = Seq<AlertModel>;

    open spec fn view(&self) -> Seq<AlertModel> {
        self.alerts@.map_values(|a: ContinuityAlert| a@)
    }
}

/// At most one open alert for each conflict.
pub open spec fn one_open_per_conflict(log: Seq<AlertModel>) -> bool {
    forall|i: int, j: int|
        0 <= i < log.len() && 0 <= j < log.len() && i != j && (#[trigger] log[i]).decision
            == AuthorDecision::Pending && (#[trigger] log[j]).decision == AuthorDecision::Pending
            ==> !same_signature(log[i], log[j])
}

/// Relies on uuid::Uuid::new_v4 for a fresh random identifier.
#[verifier::external_body]
fn fresh_alert_id() -> (r: String) {
    uuid::Uuid::new_v4().to_string()
}

/// Relies on chrono::Utc::now for the current time, in RFC 3339 form.
#[verifier::external_body]
fn timestamp_now() -> (r: String) {
    chrono::Utc::now().to_rfc3339()
}

/// The element is among those of the sequence.
fn element_in(e: &ConflictElement, v: &Vec<ConflictElement>) -> (r: bool)
    ensures
        r == elements_view(v@).contains(e@),
{
    let mut i: usize = 0;
    while i < v.len()
        invariant
            i <= v.len(),
            forall|k: int| 0 <= k < i ==> v@[k]@ != e@,
        decreases v.len() - i,
    {
        let x = &v[i];
        if x.kind == e.kind && same_text(&x.subject, &e.subject) && same_text(
            &x.attribute,
            &e.attribute,
        ) && same_text(&x.scene_id, &e.scene_id) {
            assert(elements_view(v@)[i as int] == e@);
            return true;
        }
        i = i + 1;
    }
    assert forall|k: int| 0 <= k < elements_view(v@).len() implies elements_view(v@)[k] != e@ by {
        assert(elements_view(v@)[k] == v@[k]@);
    }
    false
}

/// Every element of `a` is among those of `b`.
fn elements_within(a: &Vec<ConflictElement>, b: &Vec<ConflictElement>) -> (r: bool)
    ensures
        r == (forall|x: ElementModel|
            elements_view(a@).contains(x) ==> elements_view(b@).contains(x)),
{
    let mut i: usize = 0;
    while i < a.len()
        invariant
            i <= a.len(),
            forall|k: int| 0 <= k < i ==> elements_view(b@).contains(#[trigger] a@[k]@),
        decreases a.len() - i,
    {
        if !element_in(&a[i], b) {
            assert(elements_view(a@)[i as int] == a@[i as int]@);
            return false;
        }
        i = i + 1;
    }
    assert forall|x: ElementModel| elements_view(a@).contains(x) implies elements_view(
        b@,
    ).contains(x) by {
        let k = choose|k: int| 0 <= k < elements_view(a@).len() && elements_view(a@)[k] == x;
        assert(a@[k]@ == x);
    }
    true
}

/// The two sequences hold the same set of elements.
pub fn same_elements(a: &Vec<ConflictElement>, b: &Vec<ConflictElement>) -> (r: bool)
    ensures
        r == (elements_view(a@).to_set() == elements_view(b@).to_set()),
{
    let ab = elements_within(a, b);
    let ba = elements_within(b, a);
    proof {
        if ab && ba {
            assert(elements_view(a@).to_set() =~= elements_view(b@).to_set());
        }
        if elements_view(a@).to_set() == elements_view(b@).to_set() {
            assert forall|x: ElementModel| elements_view(a@).contains(x) implies elements_view(
                b@,
            ).contains(x) by {
                assert(elements_view(a@).to_set().contains(x));
            }
            assert forall|x: ElementModel| elements_view(b@).contains(x) implies elements_view(
                a@,
            ).contains(x) by {
                assert(elements_view(b@).to_set().contains(x));
            }
        }
    }
    ab && ba
}

/// A copy of an element.
pub fn copy_element(e: &ConflictElement) -> (r: ConflictElement)
    ensures
        r@ == e@,
{
    ConflictElement {
        kind: e.kind,
        subject: copy_text(&e.subject),
        attribute: copy_text(&e.attribute),
        scene_id: copy_text(&e.scene_id),
    }
}

/// A copy of a sequence of elements.
pub fn copy_elements(v: &Vec<ConflictElement>) -> (r: Vec<ConflictElement>)
    ensures
        elements_view(r@) == elements_view(v@),
{
    let mut out: Vec<ConflictElement> = Vec::new();
    let mut i: usize = 0;
    while i < v.len()
        invariant
            i <= v.len(),
            elements_view(out@) =~= elements_view(v@.take(i as int)),
        decreases v.len() - i,
    {
        let ghost prev = out@;
        let e = copy_element(&v[i]);
        out.push(e);
        assert(out@ == prev.push(e));
        assert(v@.take(i + 1) =~= v@.take(i as int).push(v@[i as int]));
        assert(elements_view(out@) =~= elements_view(prev).push(e@));
        assert(elements_view(v@.take(i + 1)) =~= elements_view(v@.take(i as int)).push(v@[i as int]@));
        i = i + 1;
    }
    assert(v@.take(i as int) =~= v@);
    out
}

pub fn copy_opt_text(o: &Option<String>) -> (r: Option<String>)
    ensures
        opt_view(r) == opt_view(*o),
{
    match o {
        Some(s) => Some(copy_text(s)),
        None => None,
    }
}

/// A copy of an alert.
pub fn copy_alert(a: &ContinuityAlert) -> (r: ContinuityAlert)
    ensures
        r@ == a@,
{
    ContinuityAlert {
        id: copy_text(&a.id),
        project_id: copy_text(&a.project_id),
        scene_id: copy_opt_text(&a.scene_id),
        alert_type: a.alert_type,
        severity: a.severity,
        description: copy_text(&a.description),
        elements: copy_elements(&a.elements),
        suggested_resolution: copy_text(&a.suggested_resolution),
        decision: a.decision,
        author_notes: copy_opt_text(&a.author_notes),
        created_at: copy_text(&a.created_at),
        resolved_at: copy_opt_text(&a.resolved_at),
    }
}

/// The index of the first alert among the first `n` with the given id.
pub open spec fn first_alert(log: Seq<AlertModel>, id: Seq<char>, n: int) -> Option<int>
    decreases n,
{
    if n <= 0 {
        None
    } else {
        match first_alert(log, id, n - 1) {
            Some(i) => Some(i),
            None => if log[n - 1].id == id {
                Some(n - 1)
            } else {
                None
            },
        }
    }
}

pub proof fn lemma_first_alert_prefix(log: Seq<AlertModel>, id: Seq<char>, n: int, m: int)
    requires
        0 <= n <= m,
        first_alert(log, id, n) is Some,
    ensures
        first_alert(log, id, m) == first_alert(log, id, n),
    decreases m - n,
{
    if m > n {
        lemma_first_alert_prefix(log, id, n, m - 1);
    }
}

/// The alert as it stands after a decision.
pub open spec fn decided(
    a: AlertModel,
    decision: AuthorDecision,
    notes: Option<Seq<char>>,
    resolved_at: Seq<char>,
) -> AlertModel {
    AlertModel { decision, notes, resolved_at: Some(resolved_at), ..a }
}

/// The alerts of a project, with an optional decision, in log order.
pub open spec fn listed(
    log: Seq<AlertModel>,
    project: Seq<char>,
    filter: Option<AuthorDecision>,
) -> Seq<AlertModel> {
    log.filter(|a: AlertModel| a.project == project && (filter is None || a.decision == filter->0))
}

impl AlertLog {
    pub open spec fn wf(&self) -> bool {
        one_open_per_conflict(self@)
    }

    pub fn new() -> (r: AlertLog)
        ensures
            r@ == Seq::<AlertModel>::empty(),
            r.wf(),
    {
        AlertLog { alerts: Vec::new() }
    }

    /// Takes the alerts as the store holds them; `InvalidState` where two
    /// open alerts have the same project, type and element set.
    pub fn from_alerts(alerts: Vec<ContinuityAlert>) -> (r: Result<AlertLog, StoryError>)
        ensures
            match r {
                Ok(log) => log.wf() && log@ == alerts@.map_values(|a: ContinuityAlert| a@),
                Err(e) => (e matches StoryError::InvalidState(_)) && !one_open_per_conflict(
                    alerts@.map_values(|a: ContinuityAlert| a@),
                ),
            },
    {
        let ghost v = alerts@.map_values(|a: ContinuityAlert| a@);
        let mut i: usize = 0;
        while i < alerts.len()
            invariant
                i <= alerts.len(),
                v == alerts@.map_values(|a: ContinuityAlert| a@),
                forall|a: int, b: int|
                    0 <= a < i && 0 <= b < alerts.len() && a != b && (#[trigger] v[a]).decision
                        == AuthorDecision::Pending && (#[trigger] v[b]).decision
                        == AuthorDecision::Pending ==> !same_signature(v[a], v[b]),
            decreases alerts.len() - i,
        {
            let mut j: usize = 0;
            while j < alerts.len()
                invariant
                    i < alerts.len(),
                    j <= alerts.len(),
                    v == alerts@.map_values(|a: ContinuityAlert| a@),
                    forall|a: int, b: int|
                        0 <= a < i && 0 <= b < alerts.len() && a != b && (#[trigger] v[a]).decision
                            == AuthorDecision::Pending && (#[trigger] v[b]).decision
                            == AuthorDecision::Pending ==> !same_signature(v[a], v[b]),
                    forall|b: int|
                        0 <= b < j && i != b && v[i as int].decision == AuthorDecision::Pending && (
                        #[trigger] v[b]).decision == AuthorDecision::Pending ==> !same_signature(
                            v[i as int],
                            v[b],
                        ),
                decreases alerts.len() - j,
            {
                let x = &alerts[i];
                let y = &alerts[j];
                assert(v[i as int] == x@ && v[j as int] == y@);
                let both_open = match (x.decision, y.decision) {
                    (AuthorDecision::Pending, AuthorDecision::Pending) => true,
                    _ => false,
                };
                if i != j && both_open && x.alert_type == y.alert_type && same_text(
                    &x.project_id,
                    &y.project_id,
                ) && same_elements(&x.elements, &y.elements) {
                    return Err(StoryError::invalid_state("two open alerts for one conflict"));
                }
                j = j + 1;
            }
            i = i + 1;
        }
        Ok(AlertLog { alerts })
    }

    /// The index of an alert that accounts for the candidate, if any.
    fn covering(&self, project_id: &String, cand: &AlertCandidate) -> (r: Option<usize>)
        ensures
            match r {
                Some(i) => i < self@.len() && covers(self@[i as int], project_id@, cand@),
                None => !covered(self@, project_id@, cand@),
            },
    {
        let mut i: usize = 0;
        while i < self.alerts.len()
            invariant
                i <= self.alerts.len(),
                forall|k: int| 0 <= k < i ==> !covers(#[trigger] self@[k], project_id@, cand@),
            decreases self.alerts.len() - i,
        {
            let a = &self.alerts[i];
            assert(self@[i as int] == a@);
            if a.alert_type == cand.alert_type && same_text(&a.project_id, project_id)
                && same_elements(&a.elements, &cand.elements) {
                let open = match a.decision {
                    AuthorDecision::Pending => true,
                    _ => false,
                };
                if open || same_text(&a.description, &cand.description) {
                    return Some(i);
                }
            }
            i = i + 1;
        }
        None
    }

    /// Records a candidate. Nothing is raised where an alert of the same
    /// project, type and element set is open, or was decided on the same
    /// description; otherwise a new open alert is appended and its id
    /// returned.
    pub fn record_alert(&mut self, project_id: &String, cand: AlertCandidate) -> (r: Option<String>)
        requires
            old(self).wf(),
        ensures
            final(self).wf(),
            covered(old(self)@, project_id@, cand@) ==> r is None && final(self)@ == old(self)@,
            !covered(old(self)@, project_id@, cand@) ==> {
                &&& r is Some
                &&& final(self)@.len() == old(self)@.len() + 1
                &&& final(self)@.take(old(self)@.len() as int) == old(self)@
                &&& raised_from(final(self)@.last(), project_id@, cand@)
                &&& final(self)@.last().id == r->0@
            },
    {
        match self.covering(project_id, &cand) {
            Some(_) => None,
            None => {
                let ghost before = self@;
                let ghost c = cand@;
                let id = fresh_alert_id();
                let alert = ContinuityAlert {
                    id: copy_text(&id),
                    project_id: copy_text(project_id),
                    scene_id: cand.scene_id,
                    alert_type: cand.alert_type,
                    severity: cand.severity,
                    description: cand.description,
                    elements: cand.elements,
                    suggested_resolution: cand.suggested_resolution,
                    decision: AuthorDecision::Pending,
                    author_notes: None,
                    created_at: timestamp_now(),
                    resolved_at: None,
                };
                let ghost am = alert@;
                self.alerts.push(alert);
                proof {
                    assert(self@ =~= before.push(am));
                    assert(self@.take(before.len() as int) =~= before);
                    assert forall|i: int, j: int|
                        0 <= i < self@.len() && 0 <= j < self@.len() && i != j && (
                        #[trigger] self@[i]).decision == AuthorDecision::Pending && (
                        #[trigger] self@[j]).decision == AuthorDecision::Pending implies !same_signature(
                        self@[i],
                        self@[j],
                    ) by {
                        if i == before.len() {
                            assert(!covers(before[j], project_id@, c));
                        } else if j == before.len() {
                            assert(!covers(before[i], project_id@, c));
                        }
                    }
                }
                Some(id)
            },
        }
    }

    /// Records an author's decision on an alert and stamps its resolution
    /// time. `ValidationError` where the decision is `Pending`; `NotFound`
    /// where no alert has the id; `InvalidState` where the alert was already
    /// decided and the decision is not `RevisedContent`.
    pub fn resolve(&mut self, alert_id: &String, decision: AuthorDecision, notes: Option<String>) -> (r:
        Result<(), StoryError>)
        requires
            old(self).wf(),
        ensures
            final(self).wf(),
            decision == AuthorDecision::Pending ==> (r matches Err(StoryError::ValidationError(_)))
                && final(self)@ == old(self)@,
            decision != AuthorDecision::Pending && first_alert(
                old(self)@,
                alert_id@,
                old(self)@.len() as int,
            ) is None ==> (r matches Err(StoryError::NotFound(_))) && final(self)@ == old(self)@,
            decision != AuthorDecision::Pending ==> match first_alert(
                old(self)@,
                alert_id@,
                old(self)@.len() as int,
            ) {
                Some(i) => if old(self)@[i].decision != AuthorDecision::Pending && decision
                    != AuthorDecision::RevisedContent {
                    (r matches Err(StoryError::InvalidState(_))) && final(self)@ == old(self)@
                } else {
                    r is Ok && final(self)@.len() == old(self)@.len() && (exists|t: Seq<char>|
                        final(self)@ == old(self)@.update(
                            i,
                            #[trigger] decided(old(self)@[i], decision, opt_view(notes), t),
                        ))
                },
                None => true,
            },
    {
        if let AuthorDecision::Pending = decision {
            return Err(StoryError::ValidationError(
                String::from_str("A decision must resolve the alert: ").concat(alert_id.as_str()),
            ));
        }
        let ghost log = self@;
        let mut i: usize = 0;
        while i < self.alerts.len()
            invariant
                i <= self.alerts.len(),
                self@ == log,
                log == old(self)@,
                one_open_per_conflict(log),
                decision != AuthorDecision::Pending,
                first_alert(log, alert_id@, i as int) is None,
            decreases self.alerts.len() - i,
        {
            if same_text(&self.alerts[i].id, alert_id) {
                proof {
                    lemma_first_alert_prefix(log, alert_id@, i + 1, log.len() as int);
                }
                let open = match self.alerts[i].decision {
                    AuthorDecision::Pending => true,
                    _ => false,
                };
                let reopening = match decision {
                    AuthorDecision::RevisedContent => true,
                    _ => false,
                };
                if !open && !reopening {
                    return Err(StoryError::InvalidState(
                        String::from_str("Alert already resolved: ").concat(alert_id.as_str()),
                    ));
                }
                let now = timestamp_now();
                let ghost t = now@;
                let ghost nv = opt_view(notes);
                let mut updated = copy_alert(&self.alerts[i]);
                updated.decision = decision;
                updated.author_notes = notes;
                updated.resolved_at = Some(now);
                let ghost um = updated@;
                assert(um == decided(log[i as int], decision, nv, t));
                self.alerts.set(i, updated);
                proof {
                    assert(self@ =~= log.update(i as int, um));
                    assert forall|a: int, b: int|
                        0 <= a < self@.len() && 0 <= b < self@.len() && a != b && (
                        #[trigger] self@[a]).decision == AuthorDecision::Pending && (
                        #[trigger] self@[b]).decision == AuthorDecision::Pending implies !same_signature(
                        self@[a],
                        self@[b],
                    ) by {
                        assert(a != i && b != i);
                        assert(self@[a] == log[a] && self@[b] == log[b]);
                    }
                }
                return Ok(());
            }
            i = i + 1;
        }
        Err(StoryError::NotFound(String::from_str("Alert not found: ").concat(alert_id.as_str())))
    }

    /// The alerts of a project, optionally only those with one decision.
    pub fn list_alerts(&self, project_id: &String, filter: Option<AuthorDecision>) -> (r: Vec<
        ContinuityAlert,
    >)
        ensures
            r@.map_values(|a: ContinuityAlert| a@) == listed(self@, project_id@, filter),
    {
        let mut out: Vec<ContinuityAlert> = Vec::new();
        let mut i: usize = 0;
        while i < self.alerts.len()
            invariant
                i <= self.alerts.len(),
                out@.map_values(|a: ContinuityAlert| a@) == listed(
                    self@.take(i as int),
                    project_id@,
                    filter,
                ),
            decreases self.alerts.len() - i,
        {
            let a = &self.alerts[i];
            let wanted = match filter {
                Some(d) => a.decision == d,
                None => true,
            };
            let ghost pre = self@.take(i as int);
            assert(self@.take(i + 1) =~= pre.push(a@));
            proof {
                reveal(Seq::filter);
                assert(pre.push(a@).drop_last() =~= pre);
            }
            if wanted && same_text(&a.project_id, project_id) {
                out.push(copy_alert(a));
                assert(out@.map_values(|a: ContinuityAlert| a@) =~= listed(
                    self@.take(i + 1),
                    project_id@,
                    filter,
                ));
            } else {
                assert(out@.map_values(|a: ContinuityAlert| a@) =~= listed(
                    self@.take(i + 1),
                    project_id@,
                    filter,
                ));
            }
            i = i + 1;
        }
        assert(self@.take(i as int) =~= self@);
        out
    }
}

} // verus!
