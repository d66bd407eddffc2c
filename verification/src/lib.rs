//! The logic of the Endless Sky launcher: plug-in bookkeeping, archive handling,
//! GitHub API bookkeeping, instance state and the decisions of the launcher window.

pub mod text;
pub mod plugins;
pub mod unzip;
pub mod github;
pub mod instance;
pub mod install_frame;
pub mod install;
pub mod archive;
pub mod logger;
pub mod launcher;
pub mod plugins_frame;
pub mod frames;
pub mod style;
pub mod settings;
