//! The decisions of the HTTP conversion service: configuration, request
//! fields, response naming, limits and error answers.
pub mod config;
pub mod conversion;
pub mod error;
pub mod request;
pub mod response;
