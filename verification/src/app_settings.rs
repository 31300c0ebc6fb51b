//! Application-wide settings: the colour theme.

use vstd::prelude::*;

verus! {

/// The colour theme of the interface.
#[derive(Clone, Copy, Debug, PartialEq, Eq, Structural)]
pub enum ThemeMode {
    Light,
    Dark,
}

/// The other theme.
pub open spec fn opposite(theme: ThemeMode) -> ThemeMode {
    match theme {
        ThemeMode::Light => ThemeMode::Dark,
        ThemeMode::Dark => ThemeMode::Light,
    }
}

/// Application-wide settings.
#[derive(Clone, Copy, Debug, PartialEq, Eq, Structural)]
pub struct AppSettings {
    pub theme: ThemeMode,
}

impl AppSettings {
    /// Settings with the light theme.
    pub fn default() -> (settings: AppSettings)
        ensures
            settings.theme == ThemeMode::Light,
    {
        AppSettings { theme: ThemeMode::Light }
    }

    /// Switches to the dark theme.
    pub fn set_dark_theme(&mut self)
        ensures
            final(self).theme == ThemeMode::Dark,
    {
        self.theme = ThemeMode::Dark;
    }

    /// Switches to the light theme.
    pub fn set_light_theme(&mut self)
        ensures
            final(self).theme == ThemeMode::Light,
    {
        self.theme = ThemeMode::Light;
    }

    /// Switches between the light and the dark theme.
    pub fn toggle_theme(&mut self)
        ensures
            final(self).theme == opposite(old(self).theme),
    {
        self.theme = match self.theme {
            ThemeMode::Light => ThemeMode::Dark,
            ThemeMode::Dark => ThemeMode::Light,
        };
    }
}

/// Toggling the theme twice gives back the theme one started with, and a
/// single toggle always changes it.
pub proof fn lemma_toggle_twice(theme: ThemeMode)
    ensures
        opposite(opposite(theme)) == theme,
        opposite(theme) != theme,
{
}

} // verus!
