//! A privileged-operation broker for storage inspection.
//!
//! An unprivileged frontend obtains information about block devices through a
//! small, typed request/response protocol served by a separate (possibly
//! privilege-elevated) backend process. This crate holds the verified core:
//!
//! - [`protocol`]: the request and response schema and the data it carries;
//! - [`codec`]: the byte encoding of the schema, with proved round trips;
//! - [`client`]: the typed session handle's decisions — which request each
//!   call sends, what each arrival on the channel means;
//! - [`dispatch`]: the backend's dispatch state machine and reply builders;
//! - [`session`]: the mathematical model of one session and the laws of the
//!   protocol — pairing, ordering, shutdown, idempotence;
//! - [`devices`]: building and filtering device listings;
//! - [`menu`]: the frontend's action menu entries.
//!
//! Process spawning, privilege elevation, the byte channel, and the two
//! device-reading collaborators live in the surrounding application, which
//! hands this crate plain values and takes plain values back.

pub mod client;
pub mod codec;
pub mod devices;
pub mod dispatch;
pub mod menu;
pub mod protocol;
pub mod session;
