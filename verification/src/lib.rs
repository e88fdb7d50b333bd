//! Client-side session services for a container image build daemon.
//!
//! The daemon calls back into the client over one multiplexed stream. This
//! library holds the rules of those callbacks as verified functions from
//! plain values to plain values: the file-mode mapping, the packet wire
//! format, the ordered enumeration of a build context, the file-sync state
//! machine, the routing of tunnelled calls, and the credential and secret
//! lookups.

pub mod auth;
pub mod diffcopy;
pub mod diffcopy_laws;
pub mod error;
pub mod filemode;
pub mod frame;
pub mod messages;
pub mod packet;
pub mod packet_laws;
pub mod progress;
pub mod secrets;
pub mod session;
pub mod solve;
pub mod text;
pub mod tunnel;
pub mod walker;
pub mod walker_laws;
pub mod wire;
