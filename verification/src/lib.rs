//! WebDesk core library: the verified logic of a desktop host for web apps.
//!
//! The modules hold the data model of an app configuration, the merge and
//! defaulting rules of the configuration store, the running-app table, the
//! command-authorization store, the hook planning and result shaping, the
//! tray-menu and shortcut naming rules, the icon container conversion, the
//! per-app identity directories, the request/response decisions of the
//! local management API, and the rules of the command-line client.
//! Everything that touches the disk, the network, processes or the window
//! system lives outside this crate and hands plain values in.


pub mod text;
pub mod json;
pub mod types;
pub mod util;
pub mod store;
pub mod keyed;
pub mod auth;
pub mod scheduler;
pub mod app_state;
pub mod platform;
pub mod icons;
pub mod hooks;
pub mod server;
pub mod cli;
pub mod identity;
