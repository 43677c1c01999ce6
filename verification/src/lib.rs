pub mod codec;
pub mod config;
pub mod convert;
pub mod items;
pub mod json;
pub mod measure;
pub mod outside;
pub mod report;
pub mod router;
pub mod server;
pub mod sessions;
pub mod state;
pub mod stream;
pub mod tally;
pub mod text;
pub mod tier;
pub mod trainlog;
