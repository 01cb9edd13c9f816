//! grabit: selection-triggered actions for Wayland desktops.
//!
//! Highlight text anywhere, get a small bar of actions over it. This library
//! decides everything that happens between the selection and the action, and
//! proves what it decides; drawing, buses, pipes and files are left to the
//! program around it.
//!
//! * What a selection is: `selection`, `classify`, `watcher`.
//! * What actions there are: `config`, `manifest`, `catalog`, `install`.
//! * What an action does: `actions`, `engine`.
//! * What the front-ends do: `bar`, `gnome`, `control`, `focus`, `inject`.
//! * What the settings window does: `window`, `settings`, `readback`.
//! * What a session can do, and what is printed of it: `detect`, `report`.
//!
//! `text`, `sorted`, `pattern`, `document` and `edit` are what the others
//! stand on. Other crates are called in the last three, and once each in
//! `actions` and `report`.

pub mod actions;
pub mod bar;
pub mod catalog;
pub mod classify;
pub mod config;
pub mod control;
pub mod dates;
pub mod declaration;
pub mod detect;
pub mod document;
pub mod edit;
pub mod engine;
pub mod focus;
pub mod gnome;
pub mod inject;
pub mod install;
pub mod manifest;
pub mod pattern;
pub mod readback;
pub mod report;
pub mod selection;
pub mod settings;
pub mod sorted;
pub mod text;
pub mod watcher;
pub mod window;
