//! An onion-routing overlay for anonymous point-to-point messages.
//!
//! A sender wraps a payload in one encrypted layer per hop; every relay peels
//! one layer, learns only where to hand the remainder, and the last relay
//! recovers the payload. Nodes find each other through a directory that
//! publishes each member's address and public key.
//!
//! - [`crypto`] wraps and unwraps one layer, [`onion`] builds a packet of
//!   many; [`keys`] and [`encoding`] hold the RSA keys and their directory
//!   text.
//! - [`directory`] is the membership list, on the node's side and on the
//!   directory's; [`path`] picks relays from it.
//! - [`relay`] decides what happens to a packet and keeps the delivery log;
//!   [`node`] holds the state of one node; [`shell`] reads the operator's
//!   commands.
//! - [`ipv4`] and [`text`] read and write addresses and strings.
//!
//! The library computes; it opens no socket and reads no clock. Whoever
//! runs a node hands it what arrived and when, and does what it answers.

pub mod error;
pub mod directory;
pub mod keys;
pub mod crypto;
pub mod onion;
pub mod text;
pub mod ipv4;
pub mod encoding;
pub mod path;
pub mod relay;
pub mod node;
pub mod shell;
