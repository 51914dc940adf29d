use guildstore::moderation_service::ModerationService;

#[test]
fn empty_history_lists_empty_and_latest_is_not_found() {
    let service = ModerationService::new();
    assert!(service.get_warns(1, 2).is_empty());
    assert!(service.get_warn(1, 2).unwrap_err().is_not_found());
}

#[test]
fn created_records_list_in_creation_order() {
    let mut service = ModerationService::new();
    assert!(service.create_warn(1, 10, 20, "first".to_string()).is_ok());
    assert!(service.create_warn(1, 11, 20, "second".to_string()).is_ok());
    assert!(service.create_warn(1, 12, 20, "third".to_string()).is_ok());
    let warns = service.get_warns(1, 20);
    assert_eq!(warns.len(), 3);
    assert_eq!(warns[0].reason, "first");
    assert_eq!(warns[1].reason, "second");
    assert_eq!(warns[2].reason, "third");
    assert!(warns[0].created_at < warns[1].created_at);
    assert!(warns[1].created_at < warns[2].created_at);
    assert_eq!(warns[0].id, 1);
    assert_eq!(warns[1].id, 2);
    assert_eq!(warns[2].id, 3);
}

#[test]
fn listing_is_capped_at_five_most_recent_in_ascending_order() {
    let mut service = ModerationService::new();
    for n in 1..=7 {
        let reason = format!("warn {}", n);
        assert!(service.create_warn(9, 100, 200, reason).is_ok());
    }
    let warns = service.get_warns(9, 200);
    assert_eq!(warns.len(), 5);
    assert_eq!(warns[0].reason, "warn 3");
    assert_eq!(warns[1].reason, "warn 4");
    assert_eq!(warns[2].reason, "warn 5");
    assert_eq!(warns[3].reason, "warn 6");
    assert_eq!(warns[4].reason, "warn 7");
    for pair in warns.windows(2) {
        assert!(pair[0].created_at < pair[1].created_at);
    }
}

#[test]
fn latest_record_is_the_most_recent_one() {
    let mut service = ModerationService::new();
    assert!(service.create_warn(1, 10, 20, "old".to_string()).is_ok());
    assert!(service.create_warn(1, 11, 20, "new".to_string()).is_ok());
    let latest = service.get_warn(1, 20).unwrap();
    assert_eq!(latest.reason, "new");
    assert_eq!(latest.staff_member_id, 11);
    assert_eq!(latest.created_at, 1);
}

#[test]
fn delete_latest_removes_exactly_the_newest() {
    let mut service = ModerationService::new();
    assert!(service.create_warn(1, 10, 20, "first".to_string()).is_ok());
    assert!(service.create_warn(1, 11, 20, "second".to_string()).is_ok());
    assert!(service.delete_warn(1, 20).is_ok());
    let warns = service.get_warns(1, 20);
    assert_eq!(warns.len(), 1);
    assert_eq!(warns[0].reason, "first");
    let latest = service.get_warn(1, 20).unwrap();
    assert_eq!(latest.reason, "first");
}

#[test]
fn delete_latest_on_empty_history_is_not_found_and_changes_nothing() {
    let mut service = ModerationService::new();
    assert!(service.create_warn(1, 10, 20, "kept".to_string()).is_ok());
    let err = service.delete_warn(1, 999).unwrap_err();
    assert!(err.is_not_found());
    let warns = service.get_warns(1, 20);
    assert_eq!(warns.len(), 1);
    assert_eq!(warns[0].reason, "kept");
}

#[test]
fn histories_of_different_subjects_are_independent() {
    let mut service = ModerationService::new();
    assert!(service.create_warn(1, 10, 20, "for twenty".to_string()).is_ok());
    assert!(service.create_warn(1, 10, 21, "for twenty-one".to_string()).is_ok());
    assert!(service.create_warn(2, 10, 20, "other guild".to_string()).is_ok());
    assert!(service.delete_warn(1, 20).is_ok());
    let other_subject = service.get_warns(1, 21);
    assert_eq!(other_subject.len(), 1);
    assert_eq!(other_subject[0].reason, "for twenty-one");
    let other_guild = service.get_warns(2, 20);
    assert_eq!(other_guild.len(), 1);
    assert_eq!(other_guild[0].reason, "other guild");
    assert!(service.get_warns(1, 20).is_empty());
}

#[test]
fn delete_then_create_assigns_a_fresh_stamp() {
    let mut service = ModerationService::new();
    assert!(service.create_warn(1, 10, 20, "a".to_string()).is_ok());
    assert!(service.create_warn(1, 10, 20, "b".to_string()).is_ok());
    assert!(service.delete_warn(1, 20).is_ok());
    assert!(service.create_warn(1, 10, 20, "c".to_string()).is_ok());
    let warns = service.get_warns(1, 20);
    assert_eq!(warns.len(), 2);
    assert_eq!(warns[0].reason, "a");
    assert_eq!(warns[1].reason, "c");
    assert!(warns[0].created_at < warns[1].created_at);
}
