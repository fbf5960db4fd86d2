//! Rules of the "Svoyak" quiz game service: the game schedule of sixteen
//! players, scoring and standings, registration for announced games, the
//! question-pack rules, the Telegram dialogue of a player and the
//! decisions of the organiser's web pages.

pub mod schedule;
pub mod web;
pub mod standings;
pub mod questions;
pub mod scoring;
pub mod registration;
pub mod text;
pub mod dialogue;
pub mod conversation;
pub mod invites;
pub mod navigation;
pub mod auth;
pub mod announce;
