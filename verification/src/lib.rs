//! Decision logic of the Kaku terminal: command catalogue, AI tools, inline AI
//! jobs, chat state and window bookkeeping, with machine-checked contracts.
#![allow(unused_imports)]

pub mod text;
pub mod keys;
pub mod key_assignment;
pub mod commands;
pub mod order;
pub mod palette;
pub mod menubar;
pub mod json;
pub mod paths;
pub mod registry;
pub mod code_search;
pub mod net;
pub mod web;
pub mod web_search;
pub mod reading;
pub mod shell;
pub mod tools;
pub mod codex_connection;
pub mod inline_ai_control;
pub mod local_hostname;
pub mod inline_ai;
pub mod chat_prompt;
pub mod chat_input;
pub mod chat_stream;
pub mod chat_models;
pub mod chat_history;
pub mod chat_app;
pub mod chat_display;
pub mod frontend;
pub mod updates;
pub mod app_events;
pub mod startup;
pub mod renderstate;
pub mod confirm;
pub mod laws;
