//! A terminal player for Navidrome / OpenSubsonic servers: the state of the
//! player, what every key and every engine event does to it, how lyrics, server
//! addresses and request URLs are read and written, and what goes where on screen.
//!
//! Nothing here touches a terminal, a socket, a file or a clock. What has to be
//! asked of the outside world comes back as a list of [`effects::Effect`]s, and
//! what the outside world answered is handed in as plain values.

pub mod text;

pub mod sorting;
pub mod lyrics;
pub mod config;
pub mod tasks;
pub mod models;
pub mod input;
pub mod theme;
pub mod login_modal;
pub mod subsonic;
pub mod effects;
pub mod ui;
pub mod finding;
pub mod app;
pub mod behaviour;
pub mod engine;
pub mod events;
pub mod laws;
pub mod visualizer;
