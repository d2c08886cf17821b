//! Verified core of a Minecraft launcher: the decisions and text handling
//! behind instance configuration, mod-loader catalogues, log colouring,
//! mod indexes, presets and imported instance packs.
pub mod text;
pub mod mods;
pub mod presets;
pub mod fabric;
pub mod version_list;
pub mod instance_config;
pub mod read_log;
pub mod auth;
pub mod request;
pub mod java;
pub mod multimc;
pub mod neoforge;
pub mod clean;
pub mod mclogs;
pub mod store;
pub mod launcher_state;
pub mod edit_instance;
pub mod export;
pub mod startup;
pub mod backend_fabric;
pub mod cli;
pub mod mods_menu;
pub mod screens;
pub mod fabric_install;
pub mod server_run;
pub mod launch_error;
