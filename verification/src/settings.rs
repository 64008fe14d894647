//! The settings of an application window.

use vstd::prelude::*;

verus! {

/// The title of the window and its size in logical pixels.
pub struct AppSettings {
    pub title: String,
    pub width: u32,
    pub height: u32,
}

impl Default for AppSettings {
    /// A window of 800 by 600 with the title "App".
    fn default() -> (settings: Self)
        ensures
            settings.title@ == "App"@,
            settings.width == 800,
            settings.height == 600,
    {
        AppSettings { title: "App".to_string(), width: 800, height: 600 }
    }
}

} // verus!
