//! Session synchronization core for a peer-to-peer collaborative text editor.
//!
//! The crate covers the session lifecycle state machine, the gossip wire
//! protocol with its byte-level codec, the presence cache with last-write-wins
//! merge and time-to-live eviction, and the boundary to the mergeable document
//! replica. Networking, clocks and rendering live outside the library and hand
//! it plain values.

pub mod awareness;
pub mod gossip_message;
pub mod replica;
pub mod lifecycle;
pub mod session;
