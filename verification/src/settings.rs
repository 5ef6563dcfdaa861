//! The settings of the whole installation: one row, written in two halves.
use crate::table::{found, Record};
use crate::text::{copy_opt, opt_str, opt_text, own_opt};
use vstd::prelude::*;

verus! {

/// The settings of the whole installation.
#[derive(Debug, Clone, PartialEq, Eq)]
pub struct SystemSettings<T = String> {
    pub id: i64,
    pub language: T,
    pub notification_enabled: bool,
    pub cron_notification_enabled: bool,
    pub command_queue_enabled: bool,
    pub save_upload_to_workspace: bool,
    pub app_operations_model_mode: T,
    pub app_operations_provider_id: Option<T>,
    pub app_operations_model_id: Option<T>,
    pub updated_at: i64,
}

impl View for SystemSettings<String> {
    type V = SystemSettings<Seq<char>>;

    open spec fn view(&self) -> SystemSettings<Seq<char>> {
        SystemSettings {
            id: self.id,
            language: self.language@,
            notification_enabled: self.notification_enabled,
            cron_notification_enabled: self.cron_notification_enabled,
            command_queue_enabled: self.command_queue_enabled,
            save_upload_to_workspace: self.save_upload_to_workspace,
            app_operations_model_mode: self.app_operations_model_mode@,
            app_operations_provider_id: opt_text(self.app_operations_provider_id),
            app_operations_model_id: opt_text(self.app_operations_model_id),
            updated_at: self.updated_at,
        }
    }
}

impl Record for SystemSettings<String> {
    fn duplicate(&self) -> (copy: Self) {
        SystemSettings {
            id: self.id,
            language: self.language.clone(),
            notification_enabled: self.notification_enabled,
            cron_notification_enabled: self.cron_notification_enabled,
            command_queue_enabled: self.command_queue_enabled,
            save_upload_to_workspace: self.save_upload_to_workspace,
            app_operations_model_mode: self.app_operations_model_mode.clone(),
            app_operations_provider_id: copy_opt(&self.app_operations_provider_id),
            app_operations_model_id: copy_opt(&self.app_operations_model_id),
            updated_at: self.updated_at,
        }
    }
}

/// The model of the settings.
pub type Settings = SystemSettings<Seq<char>>;

/// Which model runs the operations of the application.
#[derive(Debug, Clone, PartialEq, Eq)]
pub struct AppOperationsModelSettingRow<T = String> {
    pub mode: T,
    pub provider_id: Option<T>,
    pub model_id: Option<T>,
}

impl View for AppOperationsModelSettingRow<String> {
    type V = AppOperationsModelSettingRow<Seq<char>>;

    open spec fn view(&self) -> AppOperationsModelSettingRow<Seq<char>> {
        AppOperationsModelSettingRow {
            mode: self.mode@,
            provider_id: opt_text(self.provider_id),
            model_id: opt_text(self.model_id),
        }
    }
}

impl Record for AppOperationsModelSettingRow<String> {
    fn duplicate(&self) -> (copy: Self) {
        AppOperationsModelSettingRow {
            mode: self.mode.clone(),
            provider_id: copy_opt(&self.provider_id),
            model_id: copy_opt(&self.model_id),
        }
    }
}

/// The model of that choice.
pub type OperationsModel = AppOperationsModelSettingRow<Seq<char>>;

/// The settings, where they were ever written, and what the columns of a new
/// row hold that are not written with it.
#[derive(Debug, Clone, PartialEq, Eq)]
pub struct SettingsStore {
    pub row: Option<SystemSettings>,
    pub defaults: SystemSettings,
}

/// The model of the settings.
pub struct SettingsModel {
    pub row: Option<Settings>,
    pub defaults: Settings,
}

impl View for SettingsStore {
    type V = SettingsModel;

    open spec fn view(&self) -> SettingsModel {
        SettingsModel { row: found(self.row), defaults: self.defaults@ }
    }
}

/// What the user chooses.
pub struct Choices {
    pub language: Seq<char>,
    pub notification_enabled: bool,
    pub cron_notification_enabled: bool,
    pub command_queue_enabled: bool,
    pub save_upload_to_workspace: bool,
}

impl SettingsModel {
    /// The row that a write starts from.
    pub open spec fn base(self) -> Settings {
        match self.row {
            Some(row) => row,
            None => self.defaults,
        }
    }

    /// The settings after the user has chosen. The model of the operations stays.
    pub open spec fn chosen(self, choices: Choices, now: i64) -> Settings {
        SystemSettings {
            id: 1,
            language: choices.language,
            notification_enabled: choices.notification_enabled,
            cron_notification_enabled: choices.cron_notification_enabled,
            command_queue_enabled: choices.command_queue_enabled,
            save_upload_to_workspace: choices.save_upload_to_workspace,
            updated_at: now,
            ..self.base()
        }
    }

    /// The settings after a model was set for the operations. What the user has
    /// chosen stays.
    pub open spec fn operated(self, setting: OperationsModel, now: i64) -> Settings {
        SystemSettings {
            id: 1,
            app_operations_model_mode: setting.mode,
            app_operations_provider_id: setting.provider_id,
            app_operations_model_id: setting.model_id,
            updated_at: now,
            ..self.base()
        }
    }

    /// The model of the operations; `auto` where nothing was ever written.
    pub open spec fn operations(self) -> OperationsModel {
        match self.row {
            Some(row) => AppOperationsModelSettingRow {
                mode: row.app_operations_model_mode,
                provider_id: row.app_operations_provider_id,
                model_id: row.app_operations_model_id,
            },
            None => AppOperationsModelSettingRow {
                mode: "auto"@,
                provider_id: None,
                model_id: None,
            },
        }
    }

    /// The settings with another row.
    pub open spec fn with_row(self, row: Settings) -> SettingsModel {
        SettingsModel { row: Some(row), ..self }
    }
}

impl SettingsStore {
    /// Nothing written yet.
    pub fn new(defaults: SystemSettings) -> (store: Self)
        ensures
            store@ == (SettingsModel { row: None, defaults: defaults@ }),
    {
        SettingsStore { row: None, defaults }
    }

    /// The settings, where they were ever written.
    pub fn get_settings(&self) -> (row: Option<SystemSettings>)
        ensures
            found(row) == self@.row,
    {
        match &self.row {
            Some(row) => Some(row.duplicate()),
            None => None,
        }
    }

    /// The model of the operations; `auto` where nothing was ever written.
    pub fn get_app_operations_model(&self) -> (setting: AppOperationsModelSettingRow)
        ensures
            setting@ == self@.operations(),
    {
        match &self.row {
            Some(row) => AppOperationsModelSettingRow {
                mode: row.app_operations_model_mode.clone(),
                provider_id: copy_opt(&row.app_operations_provider_id),
                model_id: copy_opt(&row.app_operations_model_id),
            },
            None => AppOperationsModelSettingRow {
                mode: "auto".to_owned(),
                provider_id: None,
                model_id: None,
            },
        }
    }

    fn start(&self) -> (row: SystemSettings)
        ensures
            row@ == self@.base(),
    {
        match &self.row {
            Some(row) => row.duplicate(),
            None => self.defaults.duplicate(),
        }
    }

    /// Writes what the user has chosen, and gives the settings back.
    pub fn upsert_settings(
        &mut self,
        language: &str,
        notification_enabled: bool,
        cron_notification_enabled: bool,
        command_queue_enabled: bool,
        save_upload_to_workspace: bool,
        now: i64,
    ) -> (row: SystemSettings)
        ensures
            row@ == old(self)@.chosen(
                (Choices {
                    language: language@,
                    notification_enabled,
                    cron_notification_enabled,
                    command_queue_enabled,
                    save_upload_to_workspace,
                }),
                now,
            ),
            final(self)@ == old(self)@.with_row(row@),
    {
        let base = self.start();
        let row = SystemSettings {
            id: 1,
            language: language.to_owned(),
            notification_enabled,
            cron_notification_enabled,
            command_queue_enabled,
            save_upload_to_workspace,
            updated_at: now,
            ..base
        };
        self.row = Some(row.duplicate());
        row
    }

    /// Writes the model of the operations, and gives it back.
    pub fn upsert_app_operations_model(
        &mut self,
        mode: &str,
        provider_id: Option<&str>,
        model_id: Option<&str>,
        now: i64,
    ) -> (setting: AppOperationsModelSettingRow)
        ensures
            setting@ == (AppOperationsModelSettingRow {
                mode: mode@,
                provider_id: opt_str(provider_id),
                model_id: opt_str(model_id),
            }),
            final(self)@ == old(self)@.with_row(old(self)@.operated(setting@, now)),
    {
        let base = self.start();
        let row = SystemSettings {
            id: 1,
            app_operations_model_mode: mode.to_owned(),
            app_operations_provider_id: own_opt(provider_id),
            app_operations_model_id: own_opt(model_id),
            updated_at: now,
            ..base
        };
        self.row = Some(row);
        AppOperationsModelSettingRow {
            mode: mode.to_owned(),
            provider_id: own_opt(provider_id),
            model_id: own_opt(model_id),
        }
    }
}

// ----------------------------------------------------------------------------
// What the settings promise
// ----------------------------------------------------------------------------

/// The model of the operations is read as it was written, whatever the user
/// chooses afterwards.
pub proof fn law_operations_model_is_kept(
    store: SettingsModel,
    setting: OperationsModel,
    choices: Choices,
    now: i64,
    later: i64,
)
    ensures
        ({
            let after = store.with_row(store.operated(setting, now));
            &&& after.operations() == setting
            &&& after.with_row(after.chosen(choices, later)).operations() == setting
        }),
{
}

/// What the user has chosen stays when the model of the operations is set.
pub proof fn law_choices_are_kept(
    store: SettingsModel,
    setting: OperationsModel,
    choices: Choices,
    now: i64,
    later: i64,
)
    ensures
        ({
            let after = store.with_row(store.chosen(choices, now));
            let row = after.operated(setting, later);
            &&& row.language == choices.language
            &&& row.notification_enabled == choices.notification_enabled
            &&& row.cron_notification_enabled == choices.cron_notification_enabled
            &&& row.command_queue_enabled == choices.command_queue_enabled
            &&& row.save_upload_to_workspace == choices.save_upload_to_workspace
        }),
{
}

/// What the user chooses is what the settings then say, and when; the model of the
/// operations stays as it was, or as it is by default.
pub proof fn law_choices_are_read(store: SettingsModel, choices: Choices, now: i64)
    ensures
        ({
            let row = store.chosen(choices, now);
            let before = if store.row is Some {
                store.row->0
            } else {
                store.defaults
            };
            &&& store.with_row(row).row == Some(row)
            &&& store.with_row(row).defaults == store.defaults
            &&& row.language == choices.language
            &&& row.notification_enabled == choices.notification_enabled
            &&& row.cron_notification_enabled == choices.cron_notification_enabled
            &&& row.command_queue_enabled == choices.command_queue_enabled
            &&& row.save_upload_to_workspace == choices.save_upload_to_workspace
            &&& row.updated_at == now
            &&& row.app_operations_model_mode == before.app_operations_model_mode
            &&& row.app_operations_provider_id == before.app_operations_provider_id
            &&& row.app_operations_model_id == before.app_operations_model_id
        }),
{
}

/// The model that is set for the operations is what the settings then say, and
/// when; what the user has chosen stays as it was, or as it is by default. Where
/// nothing was ever written, the model is chosen automatically.
pub proof fn law_operations_model_is_read(
    store: SettingsModel,
    setting: OperationsModel,
    now: i64,
)
    ensures
        ({
            let row = store.operated(setting, now);
            let before = if store.row is Some {
                store.row->0
            } else {
                store.defaults
            };
            &&& row.app_operations_model_mode == setting.mode
            &&& row.app_operations_provider_id == setting.provider_id
            &&& row.app_operations_model_id == setting.model_id
            &&& row.updated_at == now
            &&& row.language == before.language
            &&& row.notification_enabled == before.notification_enabled
            &&& row.cron_notification_enabled == before.cron_notification_enabled
            &&& row.command_queue_enabled == before.command_queue_enabled
            &&& row.save_upload_to_workspace == before.save_upload_to_workspace
        }),
        store.row is None ==> store.operations().mode == "auto"@
            && store.operations().provider_id is None && store.operations().model_id is None,
{
}

} // verus!
