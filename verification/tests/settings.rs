//! The settings of the whole installation.
use aionui_db::settings::{SettingsStore, SystemSettings};

fn setup() -> SettingsStore {
    SettingsStore::new(SystemSettings {
        id: 1,
        language: "en-US".into(),
        notification_enabled: true,
        cron_notification_enabled: false,
        command_queue_enabled: false,
        save_upload_to_workspace: false,
        app_operations_model_mode: "auto".into(),
        app_operations_provider_id: None,
        app_operations_model_id: None,
        updated_at: 0,
    })
}

#[test]
fn get_settings_returns_none_when_empty() {
    let repo = setup();
    assert!(repo.get_settings().is_none());
}

#[test]
fn app_operations_defaults_to_auto_when_settings_are_empty() {
    let repo = setup();
    let setting = repo.get_app_operations_model();
    assert_eq!(setting.mode, "auto");
    assert_eq!(setting.provider_id, None);
    assert_eq!(setting.model_id, None);
}

#[test]
fn fixed_app_operations_setting_round_trips_without_overwriting_language() {
    let mut repo = setup();
    repo.upsert_settings("ja-JP", true, false, false, false, 10);
    repo.upsert_app_operations_model("fixed", Some("provider-1"), Some("model-1"), 11);

    let app_model = repo.get_app_operations_model();
    let system = repo.get_settings().unwrap();
    assert_eq!(app_model.mode, "fixed");
    assert_eq!(app_model.provider_id.as_deref(), Some("provider-1"));
    assert_eq!(app_model.model_id.as_deref(), Some("model-1"));
    assert_eq!(system.language, "ja-JP");
}

#[test]
fn upsert_settings_returns_existing_fixed_app_operations_model() {
    let mut repo = setup();
    repo.upsert_app_operations_model("fixed", Some("provider-1"), Some("model-1"), 10);

    let system = repo.upsert_settings("ja-JP", true, false, false, false, 11);

    assert_eq!(system.app_operations_model_mode, "fixed");
    assert_eq!(system.app_operations_provider_id.as_deref(), Some("provider-1"));
    assert_eq!(system.app_operations_model_id.as_deref(), Some("model-1"));
}

#[test]
fn upsert_creates_settings() {
    let mut repo = setup();
    let s = repo.upsert_settings("zh-CN", false, true, true, false, 10);

    assert_eq!(s.id, 1);
    assert_eq!(s.language, "zh-CN");
    assert!(!s.notification_enabled);
    assert!(s.cron_notification_enabled);
    assert!(s.command_queue_enabled);
    assert!(!s.save_upload_to_workspace);
    assert!(s.updated_at > 0);
}

#[test]
fn upsert_then_get_returns_same() {
    let mut repo = setup();
    repo.upsert_settings("en-US", true, false, false, true, 10);

    let s = repo.get_settings().unwrap();
    assert_eq!(s.language, "en-US");
    assert!(s.notification_enabled);
    assert!(!s.cron_notification_enabled);
    assert!(!s.command_queue_enabled);
    assert!(s.save_upload_to_workspace);
}

#[test]
fn upsert_overwrites_existing() {
    let mut repo = setup();
    repo.upsert_settings("en-US", true, false, false, false, 10);
    let s = repo.upsert_settings("ja-JP", false, true, true, true, 11);

    assert_eq!(s.language, "ja-JP");
    assert!(!s.notification_enabled);
    assert!(s.cron_notification_enabled);
    assert!(s.command_queue_enabled);
    assert!(s.save_upload_to_workspace);

    // Verify persisted via get
    let fetched = repo.get_settings().unwrap();
    assert_eq!(fetched.language, "ja-JP");
}

#[test]
fn a_first_model_leaves_the_other_columns_to_the_table() {
    let mut repo = setup();
    repo.upsert_app_operations_model("fixed", None, Some("model-1"), 12);
    let row = repo.get_settings().unwrap();
    assert_eq!(row.id, 1);
    assert_eq!(row.language, "en-US");
    assert!(row.notification_enabled);
    assert_eq!(row.app_operations_provider_id, None);
    assert_eq!(row.updated_at, 12);
}
