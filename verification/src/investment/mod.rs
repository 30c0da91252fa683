//! Dzengi trading: data model, symbol handling, watches and alert delivery.
pub mod alert_evaluator;
pub mod config;
pub mod debug;
pub mod kline;
pub mod model;
pub mod quotes;
pub mod rest;
pub mod routes;
pub mod secret;
pub mod signing;
pub mod telegram_commands;
pub mod telegram_outbox;
pub mod watches;
pub mod ws;
