use finance::knowledge::{affinity_days, draw_step, is_knowledge_file, review_window_days, topics_available, DrawStep};

#[test]
fn zero_affinity_means_none() {
    assert_eq!(affinity_days(0), None);
    assert_eq!(affinity_days(3), Some(3));
}

#[test]
fn review_window_defaults_to_a_week() {
    assert_eq!(review_window_days(None), 7);
    assert_eq!(review_window_days(Some(30)), 30);
}

#[test]
fn yaml_files_only() {
    assert!(is_knowledge_file(Some("yaml")));
    assert!(is_knowledge_file(Some("yml")));
    assert!(!is_knowledge_file(Some("YAML")));
    assert!(!is_knowledge_file(None));
}

#[test]
fn draw_resets_once_then_fails() {
    assert!(matches!(draw_step(true, false), DrawStep::Serve));
    assert!(matches!(draw_step(false, false), DrawStep::ResetAndRetry));
    match draw_step(false, true) {
        DrawStep::Fail(e) => assert_eq!(e, "Entries exist but failed to fetch after resetting review status"),
        _ => panic!("expected failure"),
    }
    assert_eq!(topics_available(0).unwrap_err(), "No topics are available");
    assert!(topics_available(2).is_ok());
}
