//! Core of a building-security alerting system: the alert dispatch engine.
//!
//! Monitors and webhooks produce [`alerts::AlertInfo`] values; the engine
//! decides for each one whether it is dispatched or suppressed (alarm
//! cooldown), bounds how many dispatches run at once, drives a per-provider
//! retry protocol over each provider's recipients, aggregates the outcome
//! across providers, and frames in-flight alerts as durable records so a
//! crash before delivery starts loses nothing. Every decision lives here
//! as a verified function; the surrounding process supplies clocks,
//! channels and network transports.

pub mod alerts;
pub mod codec;
pub mod config;
pub mod cooldown;
pub mod dispatch;
pub mod limiter;
pub mod manager;
pub mod monitor;
pub mod providers;
pub mod recipients;
pub mod registry;
pub mod retry;
pub mod text;
