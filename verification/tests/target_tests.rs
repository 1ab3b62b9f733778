use ndk_build2::error::NdkError;
use ndk_build2::target::Target;

#[test]
fn android_abi_names_all_targets() {
    assert_eq!(Target::Arm64V8a.android_abi(), "arm64-v8a");
    assert_eq!(Target::ArmV7a.android_abi(), "armeabi-v7a");
    assert_eq!(Target::X86.android_abi(), "x86");
    assert_eq!(Target::X86_64.android_abi(), "x86_64");
}

#[test]
fn rust_triples_name_all_targets() {
    assert_eq!(Target::Arm64V8a.rust_triple(), "aarch64-linux-android");
    assert_eq!(Target::ArmV7a.rust_triple(), "armv7-linux-androideabi");
    assert_eq!(Target::X86.rust_triple(), "i686-linux-android");
    assert_eq!(Target::X86_64.rust_triple(), "x86_64-linux-android");
}

#[test]
fn ndk_triples_name_all_targets() {
    assert_eq!(Target::Arm64V8a.ndk_triple(), "aarch64-linux-android");
    assert_eq!(Target::ArmV7a.ndk_triple(), "arm-linux-androideabi");
    assert_eq!(Target::X86.ndk_triple(), "i686-linux-android");
    assert_eq!(Target::X86_64.ndk_triple(), "x86_64-linux-android");
}

#[test]
fn ndk_llvm_triples_name_all_targets() {
    assert_eq!(Target::Arm64V8a.ndk_llvm_triple(), "aarch64-linux-android");
    assert_eq!(Target::ArmV7a.ndk_llvm_triple(), "armv7a-linux-androideabi");
    assert_eq!(Target::X86.ndk_llvm_triple(), "i686-linux-android");
    assert_eq!(Target::X86_64.ndk_llvm_triple(), "x86_64-linux-android");
}

#[test]
fn abi_mapping_round_trips() {
    for t in [Target::ArmV7a, Target::Arm64V8a, Target::X86, Target::X86_64] {
        assert_eq!(Target::from_android_abi(t.android_abi()).unwrap(), t);
    }
}

#[test]
fn rust_triple_mapping_round_trips() {
    for t in [Target::ArmV7a, Target::Arm64V8a, Target::X86, Target::X86_64] {
        assert_eq!(Target::from_rust_triple(t.rust_triple()).unwrap(), t);
    }
}

#[test]
fn unknown_abi_is_rejected() {
    assert!(matches!(
        Target::from_android_abi("mips"),
        Err(NdkError::UnsupportedTarget)
    ));
    assert!(matches!(
        Target::from_android_abi(""),
        Err(NdkError::UnsupportedTarget)
    ));
}

#[test]
fn unknown_triple_is_rejected() {
    assert!(matches!(
        Target::from_rust_triple("wasm32-unknown-unknown"),
        Err(NdkError::UnsupportedTarget)
    ));
    // An ABI name is not a triple and the other way round.
    assert!(matches!(
        Target::from_rust_triple("arm64-v8a"),
        Err(NdkError::UnsupportedTarget)
    ));
    assert!(matches!(
        Target::from_android_abi("aarch64-linux-android"),
        Err(NdkError::UnsupportedTarget)
    ));
}
