//! The DSM HTTP API: what is sent and how an answer is read.
//!
//! * [`client`]: the response envelope, API discovery, the session and the
//!   re-login-once retry.
//! * [`auth`]: `SYNO.API.Auth` login and logout.
//! * [`download_station`]: `SYNO.DownloadStation.Task`.
//! * [`file_station`]: `SYNO.FileStation.List` and `SYNO.FileStation.Delete`.

pub mod auth;
pub mod client;
pub mod download_station;
pub mod file_station;
