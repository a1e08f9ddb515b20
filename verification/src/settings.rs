//! Launcher settings and the game's command-line arguments.
use vstd::prelude::*;

verus! {

use vstd::string::StringExecFns;

/// The launcher's own settings.
pub struct LauncherSettings {
    pub language: String,
    pub keep_launcher_open: bool,
    pub launch_with_console: bool,
}

impl Default for LauncherSettings {
    fn default() -> (s: Self)
        ensures
            s.language@ == "English"@,
            s.keep_launcher_open,
            !s.launch_with_console,
    {
        LauncherSettings { language: String::from_str("English"), keep_launcher_open: true, launch_with_console: false }
    }
}

/// The arguments the launcher starts the game with.
pub struct LaunchArgs {
    pub username: Option<String>,
    pub uuid: Option<String>,
    pub access_token: Option<String>,
    pub server: Option<String>,
    pub assets_dir: Option<String>,
    pub game_dir: Option<String>,
    pub version: Option<String>,
    pub launch_token: Option<String>,
}

/// The player name used when the launcher gave none.
pub fn username_or_default(username: &Option<String>) -> (r: String)
    ensures
        username matches Some(u) ==> r == u,
        username is None ==> r@ == "Steve"@,
{
    match username {
        Some(u) => u.clone(),
        None => String::from_str("Steve"),
    }
}

} // verus!
