//! Authorization and realtime fan-out core of a multi-tenant chat backend.
//!
//! The library decides who may do what (organization-wide capabilities and
//! per-channel read/write grants), which users must hear of a change, and to
//! which live connections an event is handed. It holds no sockets and no
//! database handles: callers load the relevant rows into an [`AccessModel`]
//! and carry out the deliveries that the library computes.
pub mod chat;
pub mod connection;
pub mod error;
pub mod event;
pub mod fanout;
pub mod media;
pub mod message;
pub mod model;
pub mod permissions;

pub use error::ErrorKind;
pub use model::{
    AccessModel, ChannelRoleAccessRow, ChannelRow, RoleRow, UserRoleAccessRow, UserRow,
};
pub use permissions::{ChatPermission, Permission};
