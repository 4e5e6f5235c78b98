//! A chat bot core that turns short text commands into captioned images.
//!
//! The library covers the logic of the bot: extracting a command from a raw
//! message, expanding mention tokens into display text, loading the template
//! catalog from a configuration document, laying text out over a template
//! image, and the session state that gates the two privileged commands.
//! Delivery, the gateway connection, and file reading stay outside; they hand
//! the library plain values and take plain values back.

pub mod bitmap;
pub mod catalog;
pub mod command;
pub mod config;
pub mod font;
pub mod handler;
pub mod layout;
pub mod mentions;
pub mod session;
pub mod text;
