use pdf_translator::config::Config;

#[test]
fn test_save_config() {
    let mut dummy_config = Config::new(
        "dummy_key".to_string(),
        "dummy_project".to_string(),
        "dummy_token".to_string(),
    );
    // A fully populated candidate passes the save-time checks and none of
    // its fields is replaced by a previously stored record.
    assert!(!dummy_config.all_empty());
    let previous = Config::new(
        "old_key".to_string(),
        "old_project".to_string(),
        "old_token".to_string(),
    );
    dummy_config.merge_previous(&previous);
    assert_eq!(dummy_config.get_api_key(), "dummy_key");
    assert_eq!(dummy_config.get_project_id(), "dummy_project");
    assert_eq!(dummy_config.get_access_token(), "dummy_token");
}

#[test]
fn saving_only_access_token_keeps_stored_key_and_project() {
    // A prior save stored an api key and a project id.
    let previous = Config::new(
        "stored_key".to_string(),
        "stored_project".to_string(),
        String::new(),
    );
    // The new candidate populates only the access token.
    let mut candidate = Config::new(String::new(), String::new(), "new_token".to_string());
    candidate.merge_previous(&previous);
    assert_eq!(candidate.get_api_key(), "stored_key");
    assert_eq!(candidate.get_project_id(), "stored_project");
    assert_eq!(candidate.get_access_token(), "new_token");
}

#[test]
fn all_empty_candidate_is_rejected() {
    let empty = Config::new(String::new(), String::new(), String::new());
    assert!(empty.all_empty());
    let partial = Config::new(String::new(), String::new(), "t".to_string());
    assert!(!partial.all_empty());
}

#[test]
fn empty_fields_never_overwrite_stored_values() {
    // Even if an all-empty candidate reached the merge, every stored value
    // would survive it.
    let previous = Config::new("k".to_string(), "p".to_string(), "t".to_string());
    let mut candidate = Config::new(String::new(), String::new(), String::new());
    candidate.merge_previous(&previous);
    assert_eq!(candidate.get_api_key(), "k");
    assert_eq!(candidate.get_project_id(), "p");
    assert_eq!(candidate.get_access_token(), "t");
}
