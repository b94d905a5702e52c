//! The rules of the command line around the library: the chat prompt,
//! configuration keys, model listings and shell completion.
pub mod chat;
pub mod browser;
pub mod models;
pub mod configure;
pub mod completion;
pub mod doctor;
pub mod dashboard;
pub mod discovery;
pub mod qr;
pub mod devices;
pub mod laws;
