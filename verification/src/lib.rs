//! LocalPass core: password generation, clipboard lease lifecycle, window
//! coordination and sensitive session state, with their contracts.

pub mod generator;
pub mod clipboard;
pub mod window_service;
pub mod session;
pub mod x11;
pub mod shell;
