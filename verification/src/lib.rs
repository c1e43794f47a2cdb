//! Message store, Bilibili live-room protocol framing and configuration rules
//! of a desktop danmaku overlay, verified with Verus.

pub mod app_config;
pub mod clock;
pub mod connect;
pub mod events;
pub mod json;
pub mod link;
pub mod models;
pub mod probe;
pub mod protocol;
pub mod runtime;
pub mod store;
pub mod store_laws;
pub mod store_model;
pub mod text;
pub mod tray;
pub mod viewport;
