use guildstore::logs_service::LogsService;
use guildstore::models::{AutomodSettings, LogsSettings, TicketsSettings};
use guildstore::moderation_service::ModerationService;
use guildstore::tickets_service::TicketsService;

#[test]
fn logs_settings_absent_is_not_found() {
    let service = LogsService::new();
    let err = service.get_settings(1).unwrap_err();
    assert!(err.is_not_found());
}

#[test]
fn logs_settings_upsert_then_get_round_trips() {
    let mut service = LogsService::new();
    let row = LogsSettings { guild_id: 1, enabled: true, channel_id: 99 };
    assert!(service.create_or_update_settings(row).is_ok());
    let got = service.get_settings(1).unwrap();
    assert_eq!(got, row);
}

#[test]
fn logs_settings_upsert_twice_same_input_is_idempotent() {
    let mut service = LogsService::new();
    let row = LogsSettings { guild_id: 1, enabled: false, channel_id: 5 };
    assert!(service.create_or_update_settings(row).is_ok());
    let first = service.get_settings(1).unwrap();
    assert!(service.create_or_update_settings(row).is_ok());
    let second = service.get_settings(1).unwrap();
    assert_eq!(first, row);
    assert_eq!(second, row);
}

#[test]
fn logs_settings_upsert_overwrites_whole_row() {
    let mut service = LogsService::new();
    let a = LogsSettings { guild_id: 1, enabled: true, channel_id: 10 };
    let b = LogsSettings { guild_id: 1, enabled: false, channel_id: 20 };
    assert!(service.create_or_update_settings(a).is_ok());
    assert!(service.create_or_update_settings(b).is_ok());
    let got = service.get_settings(1).unwrap();
    assert_eq!(got, b);
}

#[test]
fn logs_settings_guilds_are_independent() {
    let mut service = LogsService::new();
    let a = LogsSettings { guild_id: 1, enabled: true, channel_id: 10 };
    let b = LogsSettings { guild_id: 2, enabled: false, channel_id: 20 };
    assert!(service.create_or_update_settings(a).is_ok());
    assert!(service.create_or_update_settings(b).is_ok());
    assert_eq!(service.get_settings(1).unwrap(), a);
    assert_eq!(service.get_settings(2).unwrap(), b);
    assert!(service.get_settings(3).unwrap_err().is_not_found());
}

#[test]
fn automod_settings_absent_is_not_found() {
    let service = ModerationService::new();
    let err = service.get_settings(77).unwrap_err();
    assert!(err.is_not_found());
}

#[test]
fn automod_settings_upsert_then_get_round_trips() {
    let mut service = ModerationService::new();
    let row = AutomodSettings {
        guild_id: 77,
        autoban_enabled: true,
        autoban_threshold: 5,
        autokick_enabled: false,
        autokick_threshold: 3,
    };
    assert!(service.create_or_update_settings(row).is_ok());
    let got = service.get_settings(77).unwrap();
    assert_eq!(got, row);
}

#[test]
fn automod_settings_upsert_twice_same_input_is_idempotent() {
    let mut service = ModerationService::new();
    let row = AutomodSettings {
        guild_id: 4,
        autoban_enabled: true,
        autoban_threshold: 2,
        autokick_enabled: true,
        autokick_threshold: 1,
    };
    assert!(service.create_or_update_settings(row).is_ok());
    let first = service.get_settings(4).unwrap();
    assert!(service.create_or_update_settings(row).is_ok());
    let second = service.get_settings(4).unwrap();
    assert_eq!(first, row);
    assert_eq!(second, row);
}

#[test]
fn automod_settings_upsert_overwrites_whole_row_no_merge() {
    let mut service = ModerationService::new();
    let a = AutomodSettings {
        guild_id: 4,
        autoban_enabled: true,
        autoban_threshold: 9,
        autokick_enabled: false,
        autokick_threshold: 7,
    };
    let b = AutomodSettings {
        guild_id: 4,
        autoban_enabled: false,
        autoban_threshold: 1,
        autokick_enabled: true,
        autokick_threshold: 2,
    };
    assert!(service.create_or_update_settings(a).is_ok());
    assert!(service.create_or_update_settings(b).is_ok());
    let got = service.get_settings(4).unwrap();
    assert_eq!(got, b);
}

#[test]
fn tickets_settings_absent_is_not_found() {
    let service = TicketsService::new();
    let err = service.get_settings(3).unwrap_err();
    assert!(err.is_not_found());
}

#[test]
fn tickets_settings_upsert_then_overwrite() {
    let mut service = TicketsService::new();
    let a = TicketsSettings { guild_id: 3, enabled: true, channel_id: 41 };
    let b = TicketsSettings { guild_id: 3, enabled: false, channel_id: 42 };
    assert!(service.create_or_update_settings(a).is_ok());
    assert_eq!(service.get_settings(3).unwrap(), a);
    assert!(service.create_or_update_settings(b).is_ok());
    assert_eq!(service.get_settings(3).unwrap(), b);
}
