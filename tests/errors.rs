use story_server::StoryError;

#[test]
fn test_error_creation() {
    let err = StoryError::not_found("Project not found");
    assert!(matches!(err, StoryError::NotFound(_)));

    let err = StoryError::validation("Invalid title");
    assert!(matches!(err, StoryError::ValidationError(_)));
}

#[test]
fn test_error_display() {
    let err = StoryError::not_found("Character not found");
    assert_eq!(err.to_string(), "Not found: Character not found");
}

#[test]
fn error_texts_name_their_kind() {
    assert_eq!(StoryError::duplicate("Rule").to_string(), "Duplicate entry: Rule");
    assert_eq!(StoryError::invalid_state("closed").to_string(), "Invalid state: closed");
    assert_eq!(StoryError::validation("x").to_string(), "Validation error: x");
}
