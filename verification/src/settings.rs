use vstd::prelude::*;

verus! {

/// The user's display preferences.
#[derive(PartialEq, Eq, Structural, Clone, Copy, Debug)]
pub struct Settings {
    pub expand_diffs: bool,
    pub animate_trace_entries: bool,
}

/// The preferences of a user who chose none.
pub open spec fn default_settings() -> Settings {
    Settings { expand_diffs: true, animate_trace_entries: true }
}

impl Default for Settings {
    fn default() -> (r: Self)
        ensures
            r == default_settings(),
    {
        Settings { expand_diffs: true, animate_trace_entries: true }
    }
}

/// The settings as they are stored: with the version of the format.
#[derive(PartialEq, Eq, Structural, Clone, Copy, Debug)]
pub struct SettingsFile {
    pub version: u8,
    pub settings: Settings,
}

/// The version of the stored format that this client reads and writes.
pub const SETTINGS_VERSION: u8 = 1;

/// The value a preference missing from the stored settings takes.
pub fn enabled() -> (r: bool)
    ensures
        r,
{
    true
}

/// The settings that a stored file gives: its settings when it is of the
/// current version, the defaults when it is missing, unreadable (`None`) or
/// of another version.
pub open spec fn loaded(file: Option<SettingsFile>) -> Settings {
    match file {
        Some(f) => if f.version == SETTINGS_VERSION {
            f.settings
        } else {
            default_settings()
        },
        None => default_settings(),
    }
}

/// The file that saving the settings writes.
pub open spec fn stored_file(settings: Settings) -> SettingsFile {
    SettingsFile { version: SETTINGS_VERSION, settings }
}

pub fn load(file: Option<SettingsFile>) -> (r: Settings)
    ensures
        r == loaded(file),
{
    match file {
        Some(f) => if f.version == SETTINGS_VERSION {
            f.settings
        } else {
            Settings::default()
        },
        None => Settings::default(),
    }
}

pub fn stored(settings: Settings) -> (r: SettingsFile)
    ensures
        r == stored_file(settings),
{
    SettingsFile { version: SETTINGS_VERSION, settings }
}

/// Saved settings load back unchanged.
pub proof fn law_saved_settings_load_back(settings: Settings)
    ensures
        loaded(Some(stored_file(settings))) == settings,
{
}

} // verus!
