//! Client-side codec for the block-device filesystem control protocol.
//!
//! The library covers the binary query layer an administration client uses to
//! talk to the filesystem engine over a device-control file descriptor: wire
//! number derivation, growable flexible-array queries, version fallback
//! between request generations, and the decoders for accounting keys,
//! device usage and snapshot dirent records.  The single system call at the
//! bottom of every query is abstracted as a [`port::ControlPort`]; everything
//! above it is verified.

pub mod accounting;
pub mod attrs;
pub mod bytes;
pub mod counters;
pub mod devices;
pub mod error;
pub mod flex;
pub mod fmt;
pub mod handle;
pub mod inodes;
pub mod ioctl;
pub mod iostats;
pub mod keys;
pub mod port;
pub mod printbuf;
pub mod snapshots;
pub mod usage;
pub mod versioned;
