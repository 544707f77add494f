//! A verified core for a master-stack tiling window manager.
//!
//! The library models the state a window manager keeps for a display
//! server session: the managed windows, the per-monitor layout that
//! assigns each window a screen rectangle, and the registry of monitors
//! with their absolute origins.  Every decision the manager takes in
//! response to a display-server event is computed here and handed back
//! as a list of gateway commands; the unverified shell around the
//! library performs the actual protocol I/O.

pub mod client;
pub mod config;
pub mod dispatch;
pub mod layout;
pub mod monitor;
