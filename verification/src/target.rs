//! The closed set of supported build targets and their name mappings.
//!
//! Each target maps to an ABI identifier, a portable (Rust) triple, a
//! toolchain-naming triple and an LLVM-style triple.  The mappings are
//! total by construction; the two inverse mappings round-trip, which is
//! stated and proved below.

use vstd::prelude::*;

verus! {

use crate::error::NdkError;
use crate::strutil::str_eq;

broadcast use vstd::string::group_string_axioms;

/// A supported instruction-set ABI.
#[derive(Clone, Copy, Debug, PartialEq, Eq, Structural)]
pub enum Target {
    ArmV7a,
    Arm64V8a,
    X86,
    X86_64,
}

/// The ABI identifier of a target.
pub open spec fn spec_android_abi(t: Target) -> Seq<char> {
    match t {
        Target::Arm64V8a => "arm64-v8a"@,
        Target::ArmV7a => "armeabi-v7a"@,
        Target::X86 => "x86"@,
        Target::X86_64 => "x86_64"@,
    }
}

/// The target named by an ABI identifier, if any.
pub open spec fn spec_from_android_abi(s: Seq<char>) -> Option<Target> {
    if s == "arm64-v8a"@ {
        Some(Target::Arm64V8a)
    } else if s == "armeabi-v7a"@ {
        Some(Target::ArmV7a)
    } else if s == "x86"@ {
        Some(Target::X86)
    } else if s == "x86_64"@ {
        Some(Target::X86_64)
    } else {
        None
    }
}

/// The portable triple of a target, as the build system names it.
pub open spec fn spec_rust_triple(t: Target) -> Seq<char> {
    match t {
        Target::Arm64V8a => "aarch64-linux-android"@,
        Target::ArmV7a => "armv7-linux-androideabi"@,
        Target::X86 => "i686-linux-android"@,
        Target::X86_64 => "x86_64-linux-android"@,
    }
}

/// The target named by a portable triple, if any.
pub open spec fn spec_from_rust_triple(s: Seq<char>) -> Option<Target> {
    if s == "aarch64-linux-android"@ {
        Some(Target::Arm64V8a)
    } else if s == "armv7-linux-androideabi"@ {
        Some(Target::ArmV7a)
    } else if s == "i686-linux-android"@ {
        Some(Target::X86)
    } else if s == "x86_64-linux-android"@ {
        Some(Target::X86_64)
    } else {
        None
    }
}

/// The LLVM-style triple of a target.
pub open spec fn spec_ndk_llvm_triple(t: Target) -> Seq<char> {
    match t {
        Target::Arm64V8a => "aarch64-linux-android"@,
        Target::ArmV7a => "armv7a-linux-androideabi"@,
        Target::X86 => "i686-linux-android"@,
        Target::X86_64 => "x86_64-linux-android"@,
    }
}

/// The triple used by the non-LLVM parts of the toolchain.
pub open spec fn spec_ndk_triple(t: Target) -> Seq<char> {
    match t {
        Target::Arm64V8a => "aarch64-linux-android"@,
        Target::ArmV7a => "arm-linux-androideabi"@,
        Target::X86 => "i686-linux-android"@,
        Target::X86_64 => "x86_64-linux-android"@,
    }
}

impl Target {
    /// The identifier the toolchain uses for this ABI.
    pub fn android_abi(self) -> (r: &'static str)
        ensures
            r@ == spec_android_abi(self),
    {
        match self {
            Self::Arm64V8a => "arm64-v8a",
            Self::ArmV7a => "armeabi-v7a",
            Self::X86 => "x86",
            Self::X86_64 => "x86_64",
        }
    }

    /// The target of an ABI identifier; every other string is rejected.
    pub fn from_android_abi(abi: &str) -> (r: Result<Target, NdkError>)
        ensures
            (match spec_from_android_abi(abi@) {
                Some(t) => r == Ok::<Target, NdkError>(t),
                None => r matches Err(NdkError::UnsupportedTarget),
            }),
    {
        if str_eq(abi, "arm64-v8a") {
            Ok(Self::Arm64V8a)
        } else if str_eq(abi, "armeabi-v7a") {
            Ok(Self::ArmV7a)
        } else if str_eq(abi, "x86") {
            Ok(Self::X86)
        } else if str_eq(abi, "x86_64") {
            Ok(Self::X86_64)
        } else {
            Err(NdkError::UnsupportedTarget)
        }
    }

    /// The triple the portable build tools use for this target.
    pub fn rust_triple(self) -> (r: &'static str)
        ensures
            r@ == spec_rust_triple(self),
    {
        match self {
            Self::Arm64V8a => "aarch64-linux-android",
            Self::ArmV7a => "armv7-linux-androideabi",
            Self::X86 => "i686-linux-android",
            Self::X86_64 => "x86_64-linux-android",
        }
    }

    /// The target of a portable triple; every other string is rejected.
    pub fn from_rust_triple(triple: &str) -> (r: Result<Target, NdkError>)
        ensures
            (match spec_from_rust_triple(triple@) {
                Some(t) => r == Ok::<Target, NdkError>(t),
                None => r matches Err(NdkError::UnsupportedTarget),
            }),
    {
        if str_eq(triple, "aarch64-linux-android") {
            Ok(Self::Arm64V8a)
        } else if str_eq(triple, "armv7-linux-androideabi") {
            Ok(Self::ArmV7a)
        } else if str_eq(triple, "i686-linux-android") {
            Ok(Self::X86)
        } else if str_eq(triple, "x86_64-linux-android") {
            Ok(Self::X86_64)
        } else {
            Err(NdkError::UnsupportedTarget)
        }
    }

    /// The LLVM-style triple of this target.
    pub fn ndk_llvm_triple(self) -> (r: &'static str)
        ensures
            r@ == spec_ndk_llvm_triple(self),
    {
        match self {
            Self::Arm64V8a => "aarch64-linux-android",
            Self::ArmV7a => "armv7a-linux-androideabi",
            Self::X86 => "i686-linux-android",
            Self::X86_64 => "x86_64-linux-android",
        }
    }

    /// The triple used by the non-LLVM parts of the toolchain.
    pub fn ndk_triple(self) -> (r: &'static str)
        ensures
            r@ == spec_ndk_triple(self),
    {
        match self {
            Self::Arm64V8a => "aarch64-linux-android",
            Self::ArmV7a => "arm-linux-androideabi",
            Self::X86 => "i686-linux-android",
            Self::X86_64 => "x86_64-linux-android",
        }
    }
}

/// The ABI mapping round-trips: mapping any target to its ABI identifier
/// and back yields the same target.
pub proof fn lemma_abi_round_trip(t: Target)
    ensures
        spec_from_android_abi(spec_android_abi(t)) == Some(t),
{
    reveal_strlit("arm64-v8a");
    reveal_strlit("armeabi-v7a");
    reveal_strlit("x86");
    reveal_strlit("x86_64");
    assert("arm64-v8a"@.len() == 9);
    assert("armeabi-v7a"@.len() == 11);
    assert("x86"@.len() == 3);
    assert("x86_64"@.len() == 6);
}

/// The portable-triple mapping round-trips: mapping any target to its
/// triple and back yields the same target.
pub proof fn lemma_rust_triple_round_trip(t: Target)
    ensures
        spec_from_rust_triple(spec_rust_triple(t)) == Some(t),
{
    reveal_strlit("aarch64-linux-android");
    reveal_strlit("armv7-linux-androideabi");
    reveal_strlit("i686-linux-android");
    reveal_strlit("x86_64-linux-android");
    assert("aarch64-linux-android"@.len() == 21);
    assert("armv7-linux-androideabi"@.len() == 23);
    assert("i686-linux-android"@.len() == 18);
    assert("x86_64-linux-android"@.len() == 20);
}

} // verus!
