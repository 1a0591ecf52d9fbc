use story_server::models::{
    CharacterRole, ProjectLength, ProjectStatus, RelationshipType, RuleScope, SceneStatus,
    StructureType,
};
use story_server::validation::check_name_length;
use story_server::StoryError;

#[test]
fn test_library_loads() {
    assert!(true);
}

#[test]
fn test_relationship_type_from_str() {
    assert_eq!(RelationshipType::from_str("ally"), Some(RelationshipType::Ally));
    assert_eq!(RelationshipType::from_str("enemy"), Some(RelationshipType::Enemy));
    assert_eq!(RelationshipType::from_str("invalid"), None);
}

#[test]
fn test_project_status_from_str() {
    assert_eq!(ProjectStatus::from_str("draft"), Some(ProjectStatus::Draft));
    assert_eq!(ProjectStatus::from_str("in_progress"), Some(ProjectStatus::InProgress));
    assert_eq!(ProjectStatus::from_str("invalid"), None);
}

#[test]
fn test_structure_type_from_str() {
    assert_eq!(StructureType::from_str("three_act"), Some(StructureType::ThreeAct));
    assert_eq!(StructureType::from_str("hero_journey"), Some(StructureType::HeroJourney));
    assert_eq!(StructureType::from_str("invalid"), None);
}

#[test]
fn character_role_names_round_trip() {
    for role in [
        CharacterRole::Protagonist,
        CharacterRole::Antagonist,
        CharacterRole::Supporting,
        CharacterRole::Minor,
    ] {
        assert_eq!(CharacterRole::from_str(&role.to_string()), Some(role));
    }
    assert_eq!(CharacterRole::Protagonist.to_string(), "protagonist");
    assert_eq!(CharacterRole::from_str("Protagonist"), None);
}

#[test]
fn project_length_names() {
    assert_eq!(ProjectLength::from_str("short_story"), Some(ProjectLength::ShortStory));
    assert_eq!(ProjectLength::Novel.to_string(), "novel");
    assert_eq!(ProjectLength::from_str(""), None);
}

#[test]
fn scene_status_names() {
    assert_eq!(SceneStatus::from_str("needs_revision"), Some(SceneStatus::NeedsRevision));
    assert_eq!(SceneStatus::Draft.to_string(), "draft");
    assert_eq!(SceneStatus::from_str("drafted"), None);
}

#[test]
fn rule_scope_names() {
    assert_eq!(RuleScope::from_str("universal"), Some(RuleScope::Universal));
    assert_eq!(RuleScope::from_str("situational"), Some(RuleScope::Situational));
    assert_eq!(RuleScope::Regional.to_string(), "regional");
    assert_eq!(RuleScope::from_str("global"), None);
}

#[test]
fn relationship_type_all_names() {
    for (name, t) in [
        ("family", RelationshipType::Family),
        ("romantic", RelationshipType::Romantic),
        ("mentor", RelationshipType::Mentor),
        ("rival", RelationshipType::Rival),
        ("neutral", RelationshipType::Neutral),
        ("unknown", RelationshipType::Unknown),
    ] {
        assert_eq!(RelationshipType::from_str(name), Some(t.clone()));
        assert_eq!(t.to_string(), name);
    }
}

#[test]
fn default_acts_follow_structure_type() {
    let three = StructureType::ThreeAct.default_acts();
    assert_eq!(
        three,
        vec![
            ("Act 1: Setup".to_string(), 1),
            ("Act 2: Confrontation".to_string(), 2),
            ("Act 3: Resolution".to_string(), 3)
        ]
    );
    let journey = StructureType::HeroJourney.default_acts();
    assert_eq!(journey.len(), 5);
    assert_eq!(journey[2], ("Part 3: Tests & Trials".to_string(), 3));
    assert_eq!(StructureType::FiveAct.default_acts()[4], ("Act 5: Resolution".to_string(), 5));
    assert!(StructureType::Custom.default_acts().is_empty());
}

#[test]
fn name_length_limit_is_one_hundred_bytes() {
    assert!(check_name_length(&"a".repeat(100)).is_ok());
    assert!(matches!(check_name_length(&"a".repeat(101)), Err(StoryError::ValidationError(_))));
    assert!(check_name_length("").is_ok());
    // fifty two-byte characters are exactly one hundred bytes
    assert!(check_name_length(&"é".repeat(50)).is_ok());
    assert!(check_name_length(&"é".repeat(51)).is_err());
}
