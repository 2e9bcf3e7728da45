//! The views of a chat client that runs inside a host application: which
//! views there are for the guilds, channels and conversations of a remote chat
//! service, what each of them shows, and how they are kept in step with what
//! the service says.
//!
//! The library holds no connection and draws nothing. It is given snapshots
//! of the remote state as plain values, decides, and leaves a registry of
//! views for the host to show.

pub mod autojoin;
pub mod buffer;
pub mod buffers;
pub mod create;
pub mod flat;
pub mod hierarchy;
pub mod history;
pub mod keyed;
pub mod keys;
pub mod laws;
pub mod manager;
pub mod model;
pub mod nicklist;
pub mod permissions;
pub mod settings;
pub mod text;
pub mod unique;
pub mod unread;
