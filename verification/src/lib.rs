pub mod account;
pub mod cipher;
pub mod codec;
pub mod config;
pub mod credential;
pub mod directory;
pub mod entity;
pub mod errors;
pub mod keystore;
pub mod ledger;
pub mod models;
pub mod numbers;
pub mod portability;
pub mod principal;
pub mod text;
pub mod token;
