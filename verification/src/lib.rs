//! Verified core of a fan-control daemon for server hardware managed over
//! IPMI.
//!
//! The library holds the logic that is worth proving: the duty-cycle
//! interpolation curve, temperature aggregation with its retry policy,
//! configuration validation, the hardware-session lifecycle (force full
//! airflow on acquisition, restore the original state on release), and the
//! supervisor that shuts every zone loop down on the first terminal event.
//! The surrounding process — configuration parsing, signal handling, the
//! hardware transport itself — is ordinary unverified code that hands this
//! library plain values and carries out the commands it computes.

pub mod aggregate;
pub mod config;
pub mod curve;
pub mod duration;
pub mod error;
pub mod session;
pub mod supervisor;
pub mod validate;
