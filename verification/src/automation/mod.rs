//! Automation: hooks run on events, cron jobs and webhooks, their runs and
//! the replay of failed runs.
pub mod replay;
pub mod registry;
pub mod hooks;
pub mod cron;
pub mod webhooks;
pub mod events;
