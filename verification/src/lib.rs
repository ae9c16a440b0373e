//! Delivery of short-lived text and image updates from a backend
//! repository to a small fixed-memory display device over an unreliable
//! network link.
//!
//! The crate holds the system's verified core: the length-prefixed
//! binary wire protocol shared by device and backend ([`protocol`]), the
//! device's fixed-capacity message cache with its eviction and
//! display-rotation algorithms ([`messagebuf`]), the fetch session state
//! machine that drives one poll cycle over one connection ([`fetch`]),
//! the display scheduler and the latest-wins priority mailbox that lets
//! status messages preempt the rotation ([`scheduler`], [`signal`]), and
//! the backend's message model, repository and per-connection session
//! handler ([`message`], [`message_db`], [`device_handler`]).
//!
//! Everything here is a function of its arguments: time arrives as an
//! explicit tick count, payloads as byte buffers, and network events as
//! values. The surrounding runtime owns the sockets, timers and panels,
//! performs the actions these functions decide on, and feeds the
//! outcomes back in.
pub mod consts;
pub mod device_handler;
pub mod error;
pub mod fetch;
pub mod message;
pub mod message_db;
pub mod messagebuf;
pub mod protocol;
pub mod scheduler;
pub mod signal;
pub mod static_data;
pub mod types;
pub mod uf2;
