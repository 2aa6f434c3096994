//! The core of a Vim-style terminal Telegram client.
//!
//! Keys, ticks and events of the Telegram actor go in; commands for the actor,
//! tasks for the outside and styled lines for the screen come out.

pub mod app;
pub mod backend;
pub mod backend_laws;
pub mod clock;
pub mod config;
pub mod config_laws;
pub mod event;
pub mod event_laws;
pub mod fuzzy;
pub mod fuzzy_laws;
pub mod input;
pub mod key_laws;
pub mod keymap;
pub mod laws;
pub mod mock;
pub mod mock_laws;
pub mod model;
pub mod score;
pub mod screen_laws;
pub mod telegram;
pub mod text;
pub mod text_laws;
pub mod textmap;
pub mod ui;
pub mod view_laws;
pub mod wrap;
