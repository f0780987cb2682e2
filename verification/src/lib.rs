//! Verified core of the BypaxDPI desktop helper: the proxy auto-config
//! (PAC) documents, the small HTTP responder that serves them, the state of
//! the PAC server, the choice of the LAN address, the Windows registry
//! procedures that switch the system proxy on and off, and the decisions
//! behind the tray icon.

pub mod text;
pub mod unicode;
pub mod pac;
pub mod http;
pub mod server;
pub mod netif;
pub mod sysproxy;
pub mod system;
pub mod tray;
