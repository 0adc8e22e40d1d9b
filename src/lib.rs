pub mod auth;
pub mod config;
pub mod emoji;
pub mod manager;
pub mod requests;
pub mod text;
pub mod token;
pub mod token_file;
pub mod types;
