//! Verified core of the BridgeScope / fadb ADB desktop toolbox: the text,
//! parsing, calendar and panel state-machine logic behind the GUI.

pub mod text;
pub mod calendar;
pub mod device;
pub mod i18n;
pub mod quick_commands;
pub mod shell;
pub mod logcat;
pub mod window;
pub mod files;
pub mod applications;
pub mod connection;
pub mod wireless;
pub mod overview;
pub mod mirror;
pub mod screenshot;
pub mod assistant;
pub mod avd;
pub mod processes;
pub mod performance;
pub mod webview;
pub mod layout;
pub mod selection;
pub mod backend;
