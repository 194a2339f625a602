//! Decision logic of a small status and control helper for a VPN tunnel.
//!
//! The helper reports whether a tunnel is up, toggles the selected tunnel
//! configuration on and off, and cycles the selection through the available
//! configurations.  Reading files, listing directories and running the
//! privileged tunnel tool are left to the caller, who is told what to do
//! next by a [`session::Session`] and hands back what came of it.  The one
//! thing that the library looks up itself is the user's cache directory,
//! for [`state::state_path`].

pub mod configs;
pub mod cycle;
pub mod error;
pub mod session;
pub mod state;
pub mod status;
pub mod text;
pub mod tunnel;
