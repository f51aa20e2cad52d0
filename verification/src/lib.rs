//! Verified core of puppetterm: the pure decisions behind SSH targeting,
//! agent installation, AI provider configuration, OAuth login and the
//! approval/audit bookkeeping.

pub mod text;
pub mod paths;
pub mod ssh;
pub mod ssh_config;
pub mod crypto;
pub mod json;
pub mod ai;
pub mod chat;
pub mod registry;
pub mod oauth;
pub mod auth;
pub mod agent;
pub mod install;
pub mod retry;
pub mod audit;
pub mod chat_history;
pub mod sessions;
pub mod web;
