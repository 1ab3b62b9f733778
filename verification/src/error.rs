//! The library's error type.
//!
//! Every fallible function of this crate states in its contract exactly
//! which variant it returns on which inputs.  File-system and process
//! errors are the caller's to report; the `CmdFailed` variant is provided
//! so that a caller can carry the failing invocation back through code that
//! works with this type.

use vstd::prelude::*;

verus! {

use crate::cmd::Cmd;

#[derive(Clone, Debug)]
pub enum NdkError {
    /// The SDK root could not be discovered.
    SdkNotFound,
    /// No toolchain root was configured and the bundled fallback is absent.
    NdkNotFound,
    /// Neither the GNU-named nor the LLVM-named binary exists.
    ToolchainBinaryNotFound { toolchain_path: String, gnu_bin: String, llvm_bin: String },
    /// A path handed to the library does not exist.
    PathNotFound(String),
    /// A required tool is missing from its conventional directory.
    CmdNotFound(String),
    /// The SDK has no usable build-tools directory entry.
    BuildToolsNotFound,
    /// No installed platform falls within the supported range.
    NoPlatformFound,
    /// The requested platform level is not installed.
    PlatformNotFound(u32),
    /// The ABI or triple names no supported target.
    UnsupportedTarget,
    /// The host platform is not one of the supported families.
    UnsupportedHost(String),
    /// An external tool exited with a non-zero status.
    CmdFailed(Cmd),
    /// A toolchain metadata file could not be parsed.
    MalformedMetadata(String),
    /// The device query returned a uid field that is not a number.
    NotAUid(String),
    /// The device package listing holds no exact match for the package.
    PackageNotInOutput { package: String, output: String },
    /// The matching listing line carries no uid field.
    UidNotInOutput(String),
    /// A non-development profile was left without a complete keystore.
    MissingReleaseKey(String),
}

} // verus!
