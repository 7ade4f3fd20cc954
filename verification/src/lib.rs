//! Verified core of a window usage time tracker for Hyprland.

pub mod text;
pub mod ipc;
pub mod time;
pub mod models;
pub mod chart_data;
pub mod color;
pub mod service;
pub mod navigation;
pub mod theme;
pub mod dialogs;
pub mod aggregation;
pub mod duration;
pub mod cache;
pub mod stores;
pub mod icons;
pub mod details;
pub mod stacked_bar;
pub mod statistics;
pub mod categories;
pub mod refresh;
pub mod dashboard;
pub mod time_range;
