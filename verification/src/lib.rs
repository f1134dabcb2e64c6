//! A version manager for the Sui toolchain binary.
//!
//! The library models the version lifecycle: the set of locally installed
//! versions, the single active-version pointer, and the install, uninstall
//! and activate operations that keep them consistent. All filesystem and
//! network work is performed by the surrounding application, which reads
//! the on-disk state into plain values, calls the verified logic here, and
//! carries out the actions the logic hands back.

pub mod catalog;
pub mod error;
pub mod laws;
pub mod manager;
pub mod platform;
pub mod store;
pub mod text;
