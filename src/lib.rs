//! A keyserver: signed, timestamped metadata records stored by address.
//!
//! - `address`, `network`: address texts (legacy Base58Check and CashAddr)
//!   and the raw 20-byte addresses they stand for.
//! - `crypto`, `hashes`: the signature scheme and digests records rely on.
//! - `record`, `wire`: the wire form of records and payloads.
//! - `authentication`: whether a record may be published for an address.
//! - `db`: what a stored value is at a given instant (live or expired), and
//!   whether a write may replace it.
//! - `peer`: re-checking records fetched from peers before storing them.
//! - `bitcoin`, `bip70`, `payments`, `token`: the paid-write flow and the
//!   on-chain announcements that point peers at new records.
//! - `server`: request routing and configuration.
use vstd::prelude::*;

pub mod address;
pub mod authentication;
pub mod bip70;
pub mod bitcoin;
pub mod crypto;
pub mod db;
pub mod hashes;
pub mod network;
pub mod payments;
pub mod peer;
pub mod record;
pub mod server;
pub mod token;
pub mod wire;

verus! {

} // verus!
