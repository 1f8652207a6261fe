//! Core library of an IPTV client: playlist (M3U) and programme guide (XMLTV)
//! parsing, Xtream Codes request building, and the channel database.

/// Records shared by the parsers, the database and the callers.
pub mod models;
/// Character-level text operations and their specifications.
pub mod text;
/// Bounded batches of records.
pub mod batch;
/// M3U playlists.
pub mod m3u;
/// XMLTV programme guides.
pub mod epg;
/// Xtream Codes panels.
pub mod xtream;
/// The SQLite channel database.
pub mod storage;
/// What the application passes in and is answered.
pub mod api;
