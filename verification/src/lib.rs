//! Peer discovery records, capture-frame conversion and the media session
//! state machines of the Kagami video-call client.

pub mod text;
pub mod net;
pub mod sankaku;
pub mod nezumi;
pub mod render;
pub mod discovery;
pub mod directory;
pub mod naming;
pub mod session;
pub mod manager;
