//! Android package assembly as verified planning logic.
//!
//! The library resolves the SDK/NDK toolchain environment, maps build
//! targets to their ABI names and triples, stages native libraries under a
//! debug-symbol policy, sequences the resource/alignment/signing pipeline as
//! explicit command plans, and resolves signing credentials per build
//! profile.  All file-system probing and process spawning is left to the
//! caller, which hands the library plain values (paths as strings, directory
//! listings, captured tool output, existence flags) and executes the plans
//! the library returns.

pub mod apk;

pub mod cmd;

pub mod error;

pub mod manifest;

pub mod ndk;

pub mod signing;

pub mod strutil;

pub mod target;
