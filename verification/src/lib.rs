//! Port-knocking and single-packet-authorization client logic: knock planning,
//! SPA packet construction, encrypted value storage and SSH/browser launch plans.

pub mod text;
pub mod hexcodec;
pub mod crypto;
pub mod crypto_store;
pub mod models;
pub mod knock;
pub mod json;
pub mod knockpass;
pub mod launcher;
pub mod commands;
pub mod native;
