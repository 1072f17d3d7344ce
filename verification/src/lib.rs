//! Puzzle lists the windows of a shared Codex app-server, shows the client of one of them beside
//! the list, and keeps a short summary of what each of them did last. Here is what it decides and
//! computes; files, sockets, processes and the terminal are the business of the program around it.

pub mod app;
pub mod bridge;
pub mod bridge_laws;
pub mod browser;
pub mod browser_laws;
pub mod cache;
pub mod chars;
pub mod claude;
pub mod config;
pub mod drawing_laws;
pub mod easement;
pub mod editing_laws;
pub mod exchange;
pub mod file_laws;
pub mod frame;
pub mod fresh;
pub mod history;
pub mod json;
pub mod keys;
pub mod loading;
pub mod look;
pub mod markdown;
pub mod message_laws;
pub mod model;
pub mod outbox;
pub mod parser;
pub mod patch;
pub mod patch_laws;
pub mod paths;
pub mod render;
pub mod screen;
pub mod sessions;
pub mod strmap;
pub mod summary;
pub mod tailer;
pub mod text_laws;
pub mod textarea;
pub mod tmux;
pub mod tmux_laws;
pub mod transcript;
pub mod view;
pub mod wicket;
pub mod window;
pub mod window_laws;
