//! The control panel's settings model and the theme choice.
use config::Config;
use vstd::prelude::*;

use crate::cfg::{config_strings, get_api, get_theme, setting_or};
use crate::persistence::{DEFAULT_API_URL, DEFAULT_THEME};

verus! {

/// Initializes the panel module.
pub fn init() {
}

/// The theme that the interface follows.
#[derive(Debug, Clone, Copy, PartialEq, Eq, Structural)]
pub enum ThemePreference {
    System,
    Light,
    Dark,
}

/// The preference for a configured theme name: `system` follows the
/// system, `light` is light, anything else is dark.
pub fn theme_preference(theme: &str) -> (r: ThemePreference)
    ensures
        r == if theme@ == "system"@ {
            ThemePreference::System
        } else if theme@ == "light"@ {
            ThemePreference::Light
        } else {
            ThemePreference::Dark
        },
{
    let t = String::from_str(theme);
    if t == String::from_str("system") {
        ThemePreference::System
    } else if t == String::from_str("light") {
        ThemePreference::Light
    } else {
        ThemePreference::Dark
    }
}

/// Whether a window styled by theme name uses light visuals (`light`) or
/// dark ones (anything else).
pub fn uses_light_visuals(theme: &str) -> (r: bool)
    ensures
        r == (theme@ == "light"@),
{
    String::from_str(theme) == String::from_str("light")
}

/// The settings shown in the control panel.
#[derive(Debug, Clone)]
pub struct PanelApp {
    api_url: String,
    theme: String,
}

impl PanelApp {
    pub closed spec fn api_url_spec(self) -> Seq<char> {
        self.api_url@
    }

    pub closed spec fn theme_spec(self) -> Seq<char> {
        self.theme@
    }

    /// The panel for the current settings: the API URL and the theme, each
    /// with its default.
    pub fn from_settings(settings: &Config) -> (p: Self)
        ensures
            p.api_url_spec() == setting_or(config_strings(*settings), "api"@, DEFAULT_API_URL@),
            p.theme_spec() == setting_or(
                config_strings(*settings),
                "window.theme"@,
                DEFAULT_THEME@,
            ),
    {
        PanelApp { api_url: get_api(settings), theme: get_theme(settings) }
    }

    /// The translation API URL shown.
    pub fn api_url(&self) -> (r: &str)
        ensures
            r@ == self.api_url_spec(),
    {
        self.api_url.as_str()
    }

    /// The theme shown.
    pub fn theme(&self) -> (r: &str)
        ensures
            r@ == self.theme_spec(),
    {
        self.theme.as_str()
    }
}

} // verus!
