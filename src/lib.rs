//! Browsing and editing a GRUB boot configuration: the boot-menu tree and its parser, path
//! addressing, search, the interactive screen state machine, and the settings file model.

pub mod backup_manager;
pub mod colorprint;
pub mod custom_names;
pub mod grub_config;
pub mod grub_validate;
pub mod interaction;
pub mod kernel_cleanup;
pub mod kernel_info;
pub mod nav;
pub mod ordering;
pub mod parser;
pub mod path;
pub mod prompts;
pub mod records;
pub mod search;
pub mod sizes;
pub mod text;
pub mod tree;
