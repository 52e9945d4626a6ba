//! Core logic of a chat-to-agent broker: scheduling, routing, admission and
//! configuration rules, stated as contracts and proved.

pub mod adapter;
pub mod bot_login;
pub mod bot_turns;
pub mod commands;
pub mod config;
pub mod context_mcp;
pub mod cronjobs;
pub mod discord;
pub mod discord_gate;
pub mod export;
pub mod format;
pub mod gateway;
pub mod handoff;
pub mod json;
pub mod laws;
pub mod patterns;
pub mod pool;
pub mod scheduler;
pub mod startup;
pub mod table;
pub mod text;
pub mod turn;
pub mod validate;
pub mod wizard;
