//! The logic of Rode, a native control plane for Codex: what it reads, decides and shows.
//!
//! The library performs nothing itself. Where something has to be done outside, a function gives
//! the next step, or the effects that are asked for, and takes what came of them as an argument.
//!
//! - Text and data: [`text`], [`path`], [`json`], [`wire`], [`views`], [`clock`], [`hashing`],
//!   [`perf`].
//! - Repositories: [`command`], [`git`], [`snapshot`], [`diff`], [`project`].
//! - Codex: [`agent`], [`codex`], [`session`], [`codex_auth`].
//! - What is kept: [`conversation`], [`persistence`], [`store`].
//! - Input and terminals: [`actions`], [`editor`], [`keys`], [`terminal`], [`worker`], [`grid`].
//! - The application: [`app`], and what happens to it in [`navigation`], [`sign_in`], [`turns`],
//!   [`threads`], [`projects`], [`renaming`] and [`publishing`].
//! - What is shown: [`theme`], [`routes`], [`controls`], [`toast`], [`notifications`],
//!   [`onboarding`], [`sidebar`], [`workspace`], [`diff_view`], [`message_card`].

pub mod actions;
pub mod agent;
pub mod app;
pub mod clock;
pub mod codex;
pub mod codex_auth;
pub mod command;
pub mod controls;
pub mod conversation;
pub mod diff;
pub mod diff_view;
pub mod editor;
pub mod git;
pub mod grid;
pub mod hashing;
pub mod json;
pub mod keys;
pub mod message_card;
pub mod navigation;
pub mod notifications;
pub mod onboarding;
pub mod path;
pub mod perf;
pub mod persistence;
pub mod project;
pub mod projects;
pub mod publishing;
pub mod renaming;
pub mod routes;
pub mod session;
pub mod sidebar;
pub mod sign_in;
pub mod snapshot;
pub mod store;
pub mod terminal;
pub mod text;
pub mod theme;
pub mod threads;
pub mod toast;
pub mod turns;
pub mod views;
pub mod wire;
pub mod worker;
pub mod workspace;
