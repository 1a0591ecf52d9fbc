use std::cmp::Ordering;
use story_server::continuity::{
    compare, extract_assertions, scan, scan_project, scan_scene, AlertLog, AlertType,
    AuthorDecision, ElementKind, NarrativePosition, NarrativeStore, ScanConfig, ScanScope,
    SceneRecord, Severity, StateSnapshot, WorldRuleRecord,
};
use story_server::continuity::matcher::matching_rules;
use story_server::models::RuleScope;
use story_server::StoryError;

fn scene(id: &str, act: i64, chapter: i64, pos: i64, content: &str, active: &[&str]) -> SceneRecord {
    SceneRecord {
        id: id.to_string(),
        title: String::new(),
        act_position: Some(act),
        chapter_number: Some(chapter),
        position: pos,
        content: content.to_string(),
        outline: String::new(),
        time_marker: String::new(),
        active_characters: active.iter().map(|a| a.to_string()).collect(),
    }
}

fn snap(character: &str, scene_id: &str, text: &str) -> StateSnapshot {
    StateSnapshot {
        character_id: character.to_string(),
        scene_id: scene_id.to_string(),
        text: text.to_string(),
        recorded_at: "2024-01-01T00:00:00Z".to_string(),
    }
}

fn rule(id: &str, name: &str, scope: RuleScope, keywords: &str) -> WorldRuleRecord {
    WorldRuleRecord {
        id: id.to_string(),
        name: name.to_string(),
        description: name.to_string(),
        scope,
        keywords: keywords.to_string(),
    }
}

fn store(scenes: Vec<SceneRecord>, snapshots: Vec<StateSnapshot>, rules: Vec<WorldRuleRecord>) -> NarrativeStore {
    NarrativeStore { project_id: "realm".to_string(), scenes, snapshots, rules }
}

fn jin_store() -> NarrativeStore {
    store(
        vec![
            scene("s1", 1, 1, 1, "Jin trains in the yard.", &["jin"]),
            scene("s2", 1, 1, 2, "Jin walks to the market.", &["jin"]),
        ],
        vec![snap("jin", "s1", r#"{"age": "17"}"#), snap("jin", "s2", r#"{"age": "25"}"#)],
        vec![],
    )
}

#[test]
fn test_continuity_module_exists() {
    assert!(true);
}

#[test]
fn unexplained_age_change_raises_one_state_conflict() {
    let st = jin_store();
    let mut log = AlertLog::new();
    let summary = scan_project(&st, &mut log, &ScanConfig::default());
    assert_eq!(summary.raised_ids.len(), 1);
    assert_eq!(summary.character_state_conflicts, 1);
    assert_eq!(summary.medium, 1);
    assert_eq!(summary.high, 0);
    let alert = &log.alerts[0];
    assert_eq!(alert.alert_type, AlertType::CharacterStateConflict);
    assert_eq!(alert.severity, Severity::Medium);
    assert_eq!(alert.decision, AuthorDecision::Pending);
    assert_eq!(alert.project_id, "realm");
    assert_eq!(alert.scene_id.as_deref(), Some("s2"));
    assert_eq!(alert.description, "Attribute age of character jin changes from '17' to '25'");
    assert_eq!(alert.elements.len(), 2);
    assert!(alert.elements.iter().all(|e| e.kind == ElementKind::Assertion && e.subject == "jin" && e.attribute == "age"));
    assert_eq!(alert.elements[0].scene_id, "s1");
    assert_eq!(alert.elements[1].scene_id, "s2");
    assert_eq!(alert.id, summary.raised_ids[0]);
    assert!(!alert.id.is_empty());
    assert!(!alert.created_at.is_empty());
}

#[test]
fn intervening_scene_explains_change() {
    let st = store(
        vec![
            scene("s1", 1, 1, 1, "Jin trains.", &["jin"]),
            scene("mid", 1, 1, 2, "Years pass; Jin is now 25.", &["jin"]),
            scene("s2", 1, 1, 3, "Jin walks.", &["jin"]),
        ],
        vec![snap("jin", "s1", r#"{"age": "17"}"#), snap("jin", "s2", r#"{"age": "25"}"#)],
        vec![],
    );
    let mut log = AlertLog::new();
    let summary = scan_project(&st, &mut log, &ScanConfig::default());
    assert_eq!(summary.detected, 0);
    assert!(log.alerts.is_empty());
}

#[test]
fn explanation_needs_the_character_present() {
    let st = store(
        vec![
            scene("s1", 1, 1, 1, "Jin trains.", &["jin"]),
            scene("mid", 1, 1, 2, "Somebody turns 25.", &["mira"]),
            scene("s2", 1, 1, 3, "Jin walks.", &["jin"]),
        ],
        vec![snap("jin", "s1", r#"{"age": "17"}"#), snap("jin", "s2", r#"{"age": "25"}"#)],
        vec![],
    );
    let mut log = AlertLog::new();
    let summary = scan_project(&st, &mut log, &ScanConfig::default());
    assert_eq!(summary.character_state_conflicts, 1);
}

#[test]
fn large_numeric_jump_is_high_even_when_explained() {
    let st = store(
        vec![
            scene("s1", 1, 1, 1, "Training.", &["jin"]),
            scene("mid", 1, 1, 2, "Jin reaches level 30 overnight.", &["jin"]),
            scene("s2", 1, 2, 1, "Dungeon.", &["jin"]),
        ],
        vec![snap("jin", "s1", r#"{"level": "10"}"#), snap("jin", "s2", r#"{"level": "30"}"#)],
        vec![],
    );
    let mut log = AlertLog::new();
    let summary = scan_project(&st, &mut log, &ScanConfig::default());
    assert_eq!(summary.high, 1);
    assert_eq!(log.alerts[0].severity, Severity::High);
}

#[test]
fn jump_at_threshold_is_not_large() {
    // 10 to 15 is a change of exactly 50 percent: not beyond the threshold.
    let st = store(
        vec![
            scene("s1", 1, 1, 1, "Training.", &["jin"]),
            scene("mid", 1, 1, 2, "Jin reaches level 15.", &["jin"]),
            scene("s2", 1, 1, 3, "Dungeon.", &["jin"]),
        ],
        vec![snap("jin", "s1", r#"{"level": 10}"#), snap("jin", "s2", r#"{"level": 15}"#)],
        vec![],
    );
    let mut log = AlertLog::new();
    let summary = scan_project(&st, &mut log, &ScanConfig::default());
    assert_eq!(summary.detected, 0);
    let strict = ScanConfig { jump_threshold_percent: 49 };
    let summary = scan_project(&st, &mut log, &strict);
    assert_eq!(summary.high, 1);
}

#[test]
fn dismissed_change_marks_attribute_intended() {
    let st = jin_store();
    let mut log = AlertLog::new();
    let first = scan_project(&st, &mut log, &ScanConfig::default());
    assert!(log.resolve(&first.raised_ids[0], AuthorDecision::Dismissed, Some("aging arc".to_string())).is_ok());
    let later = store(
        vec![
            scene("s1", 1, 1, 1, "Jin trains.", &["jin"]),
            scene("s2", 1, 1, 2, "Jin walks.", &["jin"]),
            scene("s3", 1, 1, 3, "Jin rests.", &["jin"]),
        ],
        vec![
            snap("jin", "s1", r#"{"age": "17"}"#),
            snap("jin", "s2", r#"{"age": "25"}"#),
            snap("jin", "s3", r#"{"age": "26"}"#),
        ],
        vec![],
    );
    let summary = scan_project(&later, &mut log, &ScanConfig::default());
    assert_eq!(summary.detected, 0);
}

#[test]
fn magic_rule_violation_is_high() {
    let st = store(
        vec![
            scene("s1", 1, 1, 1, "Ana casts her magic without effort.", &["ana"]),
            scene("s2", 1, 1, 2, "Bo studies.", &["bo"]),
        ],
        vec![
            snap("ana", "s1", r#"{"spell_cost": "free"}"#),
            snap("bo", "s2", r#"{"spell_cost": "50 mana"}"#),
        ],
        vec![rule("r1", "Magic requires mana", RuleScope::Universal, r#"["magic","mana"]"#)],
    );
    let mut log = AlertLog::new();
    let summary = scan_project(&st, &mut log, &ScanConfig::default());
    assert_eq!(summary.world_rule_violations, 1);
    assert_eq!(summary.raised_ids.len(), 1);
    let alert = &log.alerts[0];
    assert_eq!(alert.alert_type, AlertType::WorldRuleViolation);
    assert_eq!(alert.severity, Severity::High);
    assert_eq!(alert.elements.len(), 3);
    assert_eq!(alert.elements[2].kind, ElementKind::Rule);
    assert_eq!(alert.elements[2].subject, "r1");
    assert_eq!(
        alert.description,
        "Values 'free' and '50 mana' of attribute spell_cost disagree under world rule Magic requires mana"
    );
}

#[test]
fn rule_severity_follows_scope() {
    let make = |scope: RuleScope| {
        store(
            vec![scene("s1", 1, 1, 1, "Mana storm.", &["ana"]), scene("s2", 1, 1, 2, "Mana calm.", &["bo"])],
            vec![snap("ana", "s1", r#"{"mana": "low"}"#), snap("bo", "s2", r#"{"mana": "HIGH"}"#)],
            vec![rule("r1", "Mana tides", scope, "mana")],
        )
    };
    let mut log = AlertLog::new();
    assert_eq!(scan_project(&make(RuleScope::Regional), &mut log, &ScanConfig::default()).medium, 1);
    let mut log = AlertLog::new();
    assert_eq!(scan_project(&make(RuleScope::Situational), &mut log, &ScanConfig::default()).low, 1);
}

#[test]
fn equal_values_under_rule_do_not_conflict() {
    let st = store(
        vec![scene("s1", 1, 1, 1, "Mana.", &["ana"]), scene("s2", 1, 1, 2, "Mana.", &["bo"])],
        vec![
            snap("ana", "s1", r#"{"mana": "050", "tier": "Gold"}"#),
            snap("bo", "s2", r#"{"mana": "50", "tier": "gold"}"#),
        ],
        vec![rule("r1", "Mana", RuleScope::Universal, "mana")],
    );
    let mut log = AlertLog::new();
    let summary = scan_project(&st, &mut log, &ScanConfig::default());
    assert_eq!(summary.world_rule_violations, 0);
}

#[test]
fn unmatched_rule_raises_nothing() {
    let st = store(
        vec![scene("s1", 1, 1, 1, "Quiet.", &["ana"]), scene("s2", 1, 1, 2, "Quiet.", &["bo"])],
        vec![snap("ana", "s1", r#"{"cost": "free"}"#), snap("bo", "s2", r#"{"cost": "50"}"#)],
        vec![rule("r1", "Magic", RuleScope::Universal, "magic")],
    );
    let mut log = AlertLog::new();
    assert_eq!(scan_project(&st, &mut log, &ScanConfig::default()).detected, 0);
}

fn timeline_store(marker: &str) -> NarrativeStore {
    let mut a = scene("sa", 1, 2, 1, "Battle.", &[]);
    a.title = "A".to_string();
    let mut b = scene("sb", 1, 1, 1, "Aftermath.", &[]);
    b.title = "B".to_string();
    b.time_marker = marker.to_string();
    store(vec![a, b], vec![], vec![])
}

#[test]
fn time_marker_against_structure_is_a_contradiction() {
    let st = timeline_store("3 days after scene A");
    let mut log = AlertLog::new();
    let summary = scan_project(&st, &mut log, &ScanConfig::default());
    assert_eq!(summary.timeline_contradictions, 1);
    assert_eq!(summary.raised_ids.len(), 1);
    let alert = &log.alerts[0];
    assert_eq!(alert.severity, Severity::Medium);
    assert_eq!(alert.elements.len(), 2);
    assert_eq!(alert.elements[0].kind, ElementKind::Scene);
    assert_eq!(alert.elements[0].scene_id, "sa");
    assert_eq!(alert.elements[1].scene_id, "sb");
}

#[test]
fn consistent_time_marker_is_accepted() {
    let st = timeline_store("Two days BEFORE scene a");
    let mut log = AlertLog::new();
    assert_eq!(scan_project(&st, &mut log, &ScanConfig::default()).detected, 0);
    let st = timeline_store("the next morning");
    assert_eq!(scan_project(&st, &mut log, &ScanConfig::default()).detected, 0);
    let st = timeline_store("after scene Z");
    assert_eq!(scan_project(&st, &mut log, &ScanConfig::default()).detected, 0);
}

#[test]
fn malformed_snapshot_yields_low_factual_alert() {
    let st = store(
        vec![
            scene("s1", 1, 1, 1, "Start.", &["jin", "mira"]),
            scene("s2", 1, 1, 2, "Later.", &["jin", "mira"]),
        ],
        vec![
            snap("jin", "s1", "age: seventeen"),
            snap("mira", "s1", r#"{"mood": "calm"}"#),
            snap("mira", "s2", r#"{"mood": "furious"}"#),
        ],
        vec![],
    );
    let bad = extract_assertions(&st.snapshots[0], NarrativePosition { act: 1, chapter: 1, scene: 1 });
    match bad {
        Err(c) => {
            assert_eq!(c.alert_type, AlertType::FactualInconsistency);
            assert_eq!(c.severity, Severity::Low);
        }
        Ok(_) => panic!("an unreadable snapshot yields no assertions"),
    }
    let mut log = AlertLog::new();
    let summary = scan_project(&st, &mut log, &ScanConfig::default());
    assert_eq!(summary.factual_inconsistencies, 1);
    assert_eq!(summary.low, 1);
    assert_eq!(summary.character_state_conflicts, 1);
    assert_eq!(summary.raised_ids.len(), 2);
}

#[test]
fn snapshot_entries_become_assertions() {
    let s = snap("jin", "s1", r#"{"rank": "E", "age": 17, "alive": true}"#);
    let pos = NarrativePosition { act: 2, chapter: 3, scene: 4 };
    let v = extract_assertions(&s, pos).ok().unwrap();
    assert_eq!(v.len(), 3);
    let pairs: Vec<(String, String)> = v.iter().map(|a| (a.attribute.clone(), a.value.clone())).collect();
    assert!(pairs.contains(&("rank".to_string(), "E".to_string())));
    assert!(pairs.contains(&("age".to_string(), "17".to_string())));
    assert!(pairs.contains(&("alive".to_string(), "true".to_string())));
    assert!(v.iter().all(|a| a.character_id == "jin" && a.scene_id == "s1" && a.position == pos));
    let empty = extract_assertions(&snap("jin", "s1", "{}"), pos).ok().unwrap();
    assert!(empty.is_empty());
    assert!(extract_assertions(&snap("jin", "s1", "[1, 2]"), pos).is_err());
}

#[test]
fn rescan_raises_nothing_new() {
    let st = jin_store();
    let mut log = AlertLog::new();
    let first = scan_project(&st, &mut log, &ScanConfig::default());
    assert_eq!(first.raised_ids.len(), 1);
    let second = scan_project(&st, &mut log, &ScanConfig::default());
    assert_eq!(second.detected, 1);
    assert!(second.raised_ids.is_empty());
    assert_eq!(log.alerts.len(), 1);
}

#[test]
fn dismissed_alert_stays_closed_until_new_evidence() {
    let st = jin_store();
    let mut log = AlertLog::new();
    let first = scan_project(&st, &mut log, &ScanConfig::default());
    let id = first.raised_ids[0].clone();
    assert!(log.resolve(&id, AuthorDecision::Dismissed, None).is_ok());
    assert_eq!(log.alerts[0].decision, AuthorDecision::Dismissed);
    assert!(log.alerts[0].resolved_at.is_some());
    let again = scan_project(&st, &mut log, &ScanConfig::default());
    assert!(again.raised_ids.is_empty());
    // same scenes and attribute, other values: new evidence
    let changed = store(
        vec![
            scene("s1", 1, 1, 1, "Jin trains in the yard.", &["jin"]),
            scene("s2", 1, 1, 2, "Jin walks to the market.", &["jin"]),
        ],
        vec![snap("jin", "s1", r#"{"age": "17"}"#), snap("jin", "s2", r#"{"age": "40"}"#)],
        vec![],
    );
    let mut fresh_log = AlertLog::new();
    let first = scan_project(&st, &mut fresh_log, &ScanConfig::default());
    fresh_log.resolve(&first.raised_ids[0], AuthorDecision::RevisedContent, None).unwrap();
    let reopened = scan_project(&changed, &mut fresh_log, &ScanConfig::default());
    assert_eq!(reopened.raised_ids.len(), 1);
    assert_eq!(fresh_log.alerts[1].decision, AuthorDecision::Pending);
}

#[test]
fn resolve_rejects_bad_transitions() {
    let st = jin_store();
    let mut log = AlertLog::new();
    let first = scan_project(&st, &mut log, &ScanConfig::default());
    let id = first.raised_ids[0].clone();
    assert!(matches!(log.resolve(&id, AuthorDecision::Pending, None), Err(StoryError::ValidationError(_))));
    assert!(matches!(
        log.resolve(&"missing".to_string(), AuthorDecision::Dismissed, None),
        Err(StoryError::NotFound(_))
    ));
    assert!(log.resolve(&id, AuthorDecision::UpdatedFact, Some("fixed".to_string())).is_ok());
    assert_eq!(log.alerts[0].author_notes.as_deref(), Some("fixed"));
    assert!(matches!(log.resolve(&id, AuthorDecision::Dismissed, None), Err(StoryError::InvalidState(_))));
    assert_eq!(log.alerts[0].decision, AuthorDecision::UpdatedFact);
    assert!(log.resolve(&id, AuthorDecision::RevisedContent, None).is_ok());
    assert_eq!(log.alerts[0].decision, AuthorDecision::RevisedContent);
}

#[test]
fn list_alerts_filters_by_project_and_decision() {
    let st = store(
        vec![scene("s1", 1, 1, 1, "x", &[]), scene("s2", 1, 1, 2, "y", &[])],
        vec![
            snap("jin", "s1", r#"{"age": "17", "hair": "black"}"#),
            snap("jin", "s2", r#"{"age": "25", "hair": "white"}"#),
        ],
        vec![],
    );
    let mut log = AlertLog::new();
    let summary = scan_project(&st, &mut log, &ScanConfig::default());
    assert_eq!(summary.raised_ids.len(), 2);
    log.resolve(&summary.raised_ids[0], AuthorDecision::Dismissed, None).unwrap();
    let p = "realm".to_string();
    assert_eq!(log.list_alerts(&p, None).len(), 2);
    assert_eq!(log.list_alerts(&p, Some(AuthorDecision::Pending)).len(), 1);
    assert_eq!(log.list_alerts(&p, Some(AuthorDecision::Dismissed)).len(), 1);
    assert_eq!(log.list_alerts(&"other".to_string(), None).len(), 0);
}

#[test]
fn scene_scan_limits_to_the_scene() {
    let st = store(
        vec![
            scene("s1", 1, 1, 1, "x", &[]),
            scene("s2", 1, 1, 2, "y", &[]),
            scene("s3", 1, 1, 3, "z", &[]),
        ],
        vec![
            snap("jin", "s1", r#"{"age": "17"}"#),
            snap("jin", "s2", r#"{"age": "25"}"#),
            snap("mira", "s3", "broken"),
        ],
        vec![],
    );
    let mut log = AlertLog::new();
    let s3 = scan_scene(&st, &mut log, &"s3".to_string(), &ScanConfig::default()).unwrap();
    assert_eq!(s3.raised_ids.len(), 1);
    assert_eq!(s3.factual_inconsistencies, 1);
    let s1 = scan(&st, &mut log, &ScanScope::Scene("s1".to_string()), &ScanConfig::default()).unwrap();
    assert_eq!(s1.character_state_conflicts, 1);
    assert!(matches!(
        scan_scene(&st, &mut log, &"nope".to_string(), &ScanConfig::default()),
        Err(StoryError::NotFound(_))
    ));
    assert_eq!(log.alerts.len(), 2);
}

#[test]
fn positions_order_by_act_chapter_scene() {
    let a = NarrativePosition { act: 1, chapter: 2, scene: 1 };
    let b = NarrativePosition { act: 1, chapter: 1, scene: 5 };
    let c = NarrativePosition { act: 2, chapter: 0, scene: 0 };
    assert_eq!(compare(&b, &a), Ordering::Less);
    assert_eq!(compare(&a, &b), Ordering::Greater);
    assert_eq!(compare(&a, &c), Ordering::Less);
    assert_eq!(compare(&a, &a), Ordering::Equal);
}

#[test]
fn position_of_requires_linkage() {
    let mut orphan = scene("lost", 1, 1, 1, "", &[]);
    orphan.chapter_number = None;
    let st = store(vec![scene("s1", 2, 3, 4, "", &[]), orphan], vec![snap("jin", "lost", r#"{"a": "1"}"#)], vec![]);
    assert_eq!(st.position_of(&"s1".to_string()), Ok(NarrativePosition { act: 2, chapter: 3, scene: 4 }));
    assert!(matches!(st.position_of(&"lost".to_string()), Err(StoryError::NotFound(_))));
    assert!(matches!(st.position_of(&"none".to_string()), Err(StoryError::NotFound(_))));
    let mut log = AlertLog::new();
    assert_eq!(scan_project(&st, &mut log, &ScanConfig::default()).detected, 0);
}

#[test]
fn errors_name_the_missing_entity() {
    let st = jin_store();
    let mut log = AlertLog::new();
    match scan_scene(&st, &mut log, &"ghost".to_string(), &ScanConfig::default()) {
        Err(e) => assert_eq!(e.to_string(), "Not found: Scene not found: ghost"),
        Ok(_) => panic!("unknown scene"),
    }
    match log.resolve(&"a-9".to_string(), AuthorDecision::Dismissed, None) {
        Err(e) => assert_eq!(e.to_string(), "Not found: Alert not found: a-9"),
        Ok(_) => panic!("unknown alert"),
    }
}

#[test]
fn raised_alerts_get_distinct_ids() {
    let st = store(
        vec![scene("s1", 1, 1, 1, "x", &[]), scene("s2", 1, 1, 2, "y", &[])],
        vec![
            snap("jin", "s1", r#"{"age": "17", "hair": "black"}"#),
            snap("jin", "s2", r#"{"age": "25", "hair": "white"}"#),
        ],
        vec![],
    );
    let mut log = AlertLog::new();
    let summary = scan_project(&st, &mut log, &ScanConfig::default());
    assert_eq!(summary.raised_ids.len(), 2);
    assert_ne!(summary.raised_ids[0], summary.raised_ids[1]);
}

#[test]
fn matcher_returns_rules_by_keyword() {
    let st = store(
        vec![scene("s1", 1, 1, 1, "A SPELL of Fire.", &["ana"])],
        vec![],
        vec![
            rule("r1", "Magic", RuleScope::Universal, "magic, mana"),
            rule("r2", "Fire", RuleScope::Regional, "fire"),
            rule("r3", "Cost", RuleScope::Situational, r#"["cost"]"#),
        ],
    );
    let a = story_server::continuity::AttributeAssertion {
        character_id: "ana".to_string(),
        attribute: "Spell_Cost".to_string(),
        value: "free".to_string(),
        scene_id: "s1".to_string(),
        position: NarrativePosition { act: 1, chapter: 1, scene: 1 },
        recorded_at: String::new(),
    };
    assert_eq!(matching_rules(&st, &a), vec![1, 2]);
}

#[test]
fn stored_alerts_with_two_open_copies_are_refused() {
    let st = jin_store();
    let mut log = AlertLog::new();
    scan_project(&st, &mut log, &ScanConfig::default());
    let mut copy = AlertLog::new();
    scan_project(&st, &mut copy, &ScanConfig::default());
    let mut both = log.alerts;
    both.append(&mut copy.alerts);
    assert!(matches!(AlertLog::from_alerts(both), Err(StoryError::InvalidState(_))));
    assert!(AlertLog::from_alerts(Vec::new()).is_ok());
}
