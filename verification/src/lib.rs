//! Core logic of the YuukiPS launcher backend: version handling, file-name
//! and path text rules, the download queue manager, patch bookkeeping, proxy
//! domain rules and process-list parsing, each with its contract.
pub mod text;
pub mod utils;
pub mod download;
pub mod download_flow;
pub mod transfer;
pub mod proxy;
pub mod game;
pub mod digest;
pub mod patch;
pub mod hoyoplay;
pub mod system;
pub mod update;
