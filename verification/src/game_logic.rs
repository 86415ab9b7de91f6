//! What a client keeps besides the world: the screen it shows, its
//! settings, and what a frame's key presses mean.

pub mod input;
pub mod settings_state;
pub mod ui_state;

pub use input::{input_handler, server_delay, stamp_command, KeyState};
pub use settings_state::SettingsState;
pub use ui_state::{Screen, UiState};
