//! The settings. There is one value of them, and an update replaces it whole.

use crate::models::config::{Settings, SettingsView, SortConfig};
use crate::repository::model::AppConfigView;
use crate::repository::store::DataStore;
use vstd::prelude::*;

verus! {

/// What differs between the settings in force and new ones, as far as other
/// parts of the program must act on it.
#[derive(Clone, Copy, Debug, PartialEq, Eq, Structural)]
pub struct SettingsChange {
    /// The proxy was switched on or off, or its address changed.
    pub proxy_changed: bool,
    /// The preference for the lightweight API changed.
    pub lightweight_api_changed: bool,
}

/// What differs between `old` and `new`.
pub open spec fn settings_change_spec(old: SettingsView, new: SettingsView) -> SettingsChange {
    SettingsChange {
        proxy_changed: old.proxy_enabled != new.proxy_enabled || old.proxy_url != new.proxy_url,
        lightweight_api_changed: old.use_lightweight_api != new.use_lightweight_api,
    }
}

/// Whether two optional texts are the same.
pub fn same_optional_text(a: &Option<String>, b: &Option<String>) -> (same: bool)
    ensures
        same == (a.deep_view() == b.deep_view()),
{
    match (a, b) {
        (Some(x), Some(y)) => crate::repository::names::same_text(x, y),
        (None, None) => true,
        _ => false,
    }
}

/// Compares the settings in force with new ones.
pub fn settings_change(old: &Settings, new: &Settings) -> (change: SettingsChange)
    ensures
        change == settings_change_spec(old@, new@),
{
    SettingsChange {
        proxy_changed: old.proxy_enabled != new.proxy_enabled || !same_optional_text(
            &old.proxy_url,
            &new.proxy_url,
        ),
        lightweight_api_changed: old.use_lightweight_api != new.use_lightweight_api,
    }
}

impl DataStore {
    /// A copy of the settings.
    pub fn get_settings(&self) -> (settings: Settings)
        ensures
            settings@ == self@.settings,
    {
        self.config().settings.clone()
    }

    /// Replaces the settings by `settings`, and says what changed.
    pub fn update_settings(&mut self, settings: Settings) -> (change: SettingsChange)
        ensures
            final(self)@ == (AppConfigView { settings: settings@, ..old(self)@ }),
            change == settings_change_spec(old(self)@.settings, settings@),
    {
        let mut config = self.take();
        let change = settings_change(&config.settings, &settings);
        config.settings = settings;
        self.put(config);
        change
    }

    /// How listings of accounts are ordered.
    pub fn get_sort_config(&self) -> (sort_config: SortConfig)
        ensures
            sort_config == self@.settings.sort_config,
    {
        self.config().settings.sort_config
    }

    /// Changes how listings of accounts are ordered, and nothing else of the
    /// settings.
    pub fn update_sort_config(&mut self, sort_config: SortConfig)
        ensures
            final(self)@ == (AppConfigView {
                settings: SettingsView { sort_config, ..old(self)@.settings },
                ..old(self)@
            }),
    {
        let mut config = self.take();
        config.settings.sort_config = sort_config;
        self.put(config);
    }
}

} // verus!
