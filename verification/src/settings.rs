//! What the user has chosen for the application.

use vstd::prelude::*;

verus! {

/// The application's settings.
pub struct Settings {
    pub use_light_mode: bool,
}

impl Settings {
    /// Switches between the light and the dark theme.
    pub fn toggle_theme(&mut self)
        ensures
            final(self).use_light_mode == !old(self).use_light_mode,
    {
        self.use_light_mode = !self.use_light_mode;
    }
}

impl Default for Settings {
    /// The light theme.
    fn default() -> (r: Settings)
        ensures
            r.use_light_mode,
    {
        Settings { use_light_mode: true }
    }
}

} // verus!
