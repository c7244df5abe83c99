//! Verified core of the bulletty feed reader: list navigation and scrolling
//! for the feed tree and the entry list, theme handling, dialog key handling
//! and mouse hit-testing.

pub mod dirs;
pub mod feed;
pub mod feedentrystate;
pub mod feedtreestate;
pub mod helpdialog;
pub mod input;
pub mod instructions;
pub mod list_state;
pub mod mouse;
pub mod text;
pub mod theme;
pub mod usersettings;
pub mod welcomedialog;
