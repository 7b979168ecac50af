//! The logic of the WeckPilot alarm clock's native side: the interface
//! language, the labels and layout of the macOS menu bar, the wake helper's
//! paths, status and installation answers, the wake schedule, and the
//! commands that keep the Mac awake.
pub mod text;
pub mod language;
pub mod menu;
pub mod schedule;
pub mod power;
pub mod helper;

pub use helper::{
    active_helper_paths, current_helper_installed, is_wake_helper_installed,
    legacy_helper_installed, log_tail, wake_helper_status, InstallProbe, WakeHelperStatus,
};
pub use language::{normalize_language, parse_apple_languages, system_language};
pub use menu::{menu_labels, menu_layout, MenuLabels};
pub use schedule::{plan_wake, schedule_update, WakeSchedule};
