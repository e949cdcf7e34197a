//! Work-time tracking: day records split into sessions of Go / Pause / Stop
//! events, named tasks inside sessions, the arithmetic on them, and the text
//! the tracker shows about them.

pub mod text;
pub mod clock;
pub mod date;
pub mod model;
pub mod timer;
pub mod actions;
pub mod tasks;
pub mod legacy;
pub mod config;
pub mod commands;
pub mod editor;
pub mod smartcard;
pub mod app;
pub mod view;
pub mod launch;
pub mod report;
