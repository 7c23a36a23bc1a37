//! Process-aware network observability: decoding of kernel packet events,
//! filtering, flow tracking, and the presentation logic of the terminal,
//! desktop and web front ends.

pub mod text;
pub mod units;
pub mod event;
pub mod process;
pub mod filter;
pub mod flow;
pub mod collector;
pub mod tui;
pub mod tui_view;
pub mod gui;
pub mod web_models;
pub mod web_dummy;
pub mod web_api;
pub mod icons;
pub mod web_server;
pub mod web_ui;
pub mod web_tables;
