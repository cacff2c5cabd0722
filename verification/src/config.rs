//! Which theme the player starts with, from its stored configuration.

use vstd::prelude::*;

use crate::models::AppTheme;

verus! {

/// The configuration manager of the player.
pub struct ConfigManager;

/// The theme of a default configuration.
pub open spec fn spec_default_config_theme() -> AppTheme {
    AppTheme::GruvboxLight
}

impl ConfigManager {
    /// The theme of a default configuration: Gruvbox Light. (A theme on
    /// its own defaults to Tokyo Night.)
    pub fn default_config_theme() -> (theme: AppTheme)
        ensures
            theme == spec_default_config_theme(),
    {
        AppTheme::GruvboxLight
    }

    /// The theme the player starts with, given the theme of the stored
    /// configuration: that theme, or, where no configuration could be read
    /// and the defaults are used, the default configuration's theme.
    pub fn load_theme(stored: Option<AppTheme>) -> (theme: AppTheme)
        ensures
            theme == match stored {
                Some(t) => t,
                None => spec_default_config_theme(),
            },
    {
        match stored {
            Some(theme) => theme,
            None => ConfigManager::default_config_theme(),
        }
    }
}

} // verus!
