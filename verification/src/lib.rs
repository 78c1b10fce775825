//! Verified core of a bridge that lets Malody V clients browse, search and
//! download osu! beatmaps: request models, configuration rules, the `.osu`
//! file scanner, cache keys and caches, client authentication and the
//! decisions behind the store endpoints.

pub mod cache;
pub mod config;
pub mod models;
pub mod osu_parser;
pub mod services;
pub mod text;
