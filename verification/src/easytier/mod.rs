//! The network engine as the application sees it: the intents from which a
//! session is configured, the settings and the document they amount to, and
//! the session itself.

pub mod argument;
pub mod config;
pub mod document;
pub mod session;

pub use argument::{Argument, PortForward, Proto};
pub use session::{create, EasyTierTunRequest, Easytier, EasytierFactory};
