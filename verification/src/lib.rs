//! Verified core of a file watcher that backs a file up whenever its
//! content changes.
//!
//! The library holds the logic of the watcher: fingerprinting file content,
//! deciding on each poll tick whether a backup is due, and formatting the
//! timestamps and fingerprints that name and describe each backup. Reading
//! the watched file, copying it, and scheduling the ticks are left to the
//! surrounding program, which hands this library plain values.

pub mod detector;
pub mod fingerprint;
pub mod hex;
pub mod timestamp;
