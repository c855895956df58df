//! Verified core of the TemperPaw daemon: request authentication rules,
//! account bookkeeping, startup policy decisions and agent tool repair.

pub mod accounts;
pub mod agent_config;
pub mod agents;
pub mod auth;
pub mod bootstrap;
pub mod default_tools;
pub mod entity;
pub mod genesis;
pub mod keys;
pub mod os_apps;
pub mod plan_approval;
pub mod secrets;
pub mod settings;
pub mod spec_restore;
pub mod startup;
pub mod text;
pub mod workspace_fs;
