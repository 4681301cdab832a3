pub mod builder;
pub mod config;
pub mod headers;
pub mod laws;
pub mod layer;
pub mod lists;
pub mod request;
pub mod service;
pub mod text;
pub mod valid;
pub mod wire;
