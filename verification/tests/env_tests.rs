use ndk_build2::cmd::Step;
use ndk_build2::error::NdkError;
use ndk_build2::ndk::{
    filter_platforms, host_arch, parse_build_tag, parse_platform_bounds, parse_platform_level,
    resolve_ndk_root, resolve_user_home, select_build_tools_version, Ndk,
};
use ndk_build2::strutil::{
    dwarf_path, ends_with_str, file_name_of, lines, normalize_slashes, parse_u32, path_join,
    split_char, str_lex_le, trim, u32_string,
};
use ndk_build2::target::Target;

fn ndk(platforms: Vec<u32>) -> Ndk {
    Ndk::new(
        "/sdk".to_string(),
        "/ndk".to_string(),
        "/home/user/.android".to_string(),
        "29.0.2".to_string(),
        6528147,
        platforms,
    )
    .unwrap()
}

#[test]
fn parse_u32_accepts_plain_decimals_only() {
    assert_eq!(parse_u32("0"), Some(0));
    assert_eq!(parse_u32("29"), Some(29));
    assert_eq!(parse_u32("0029"), Some(29));
    assert_eq!(parse_u32("4294967295"), Some(u32::MAX));
    assert_eq!(parse_u32("4294967296"), None);
    assert_eq!(parse_u32(""), None);
    assert_eq!(parse_u32("12a"), None);
    assert_eq!(parse_u32("+12"), None);
    assert_eq!(parse_u32(" 12"), None);
}

#[test]
fn u32_string_renders_decimals() {
    assert_eq!(u32_string(0), "0");
    assert_eq!(u32_string(36), "36");
    assert_eq!(u32_string(6528147), "6528147");
    assert_eq!(u32_string(u32::MAX), "4294967295");
}

#[test]
fn string_helpers_behave() {
    assert_eq!(trim("  a b\t\r\n"), "a b");
    assert_eq!(trim(""), "");
    assert_eq!(split_char("a,b,,c", ','), vec!["a", "b", "", "c"]);
    assert_eq!(split_char("abc", ','), vec!["abc"]);
    assert_eq!(lines("a\r\nb\nc"), vec!["a", "b", "c"]);
    assert_eq!(path_join("/sdk", "build-tools"), "/sdk/build-tools");
    assert_eq!(path_join("", "x"), "x");
    assert_eq!(path_join("/sdk/", "x"), "/sdk/x");
    assert_eq!(file_name_of("/a/b/libfoo.so"), "libfoo.so");
    assert_eq!(file_name_of("libfoo.so"), "libfoo.so");
    assert_eq!(file_name_of("a\\b\\c.so"), "c.so");
    assert_eq!(normalize_slashes("lib\\arm64-v8a\\x.so"), "lib/arm64-v8a/x.so");
    assert_eq!(dwarf_path("/out/libfoo.so"), "/out/libfoo.dwarf");
    assert_eq!(dwarf_path("/out/libfoo"), "/out/libfoo.dwarf");
    assert!(ends_with_str("libfoo.so", ".so"));
    assert!(!ends_with_str("libfoo.txt", ".so"));
    assert!(str_lex_le("28.0.3", "29.0.2"));
    assert!(!str_lex_le("29.0.2", "28.0.3"));
}

#[test]
fn build_tools_version_is_the_lexicographic_maximum() {
    let names = vec![
        "28.0.3".to_string(),
        "29.0.2".to_string(),
        "debugkeystore".to_string(),
        "25.0.0".to_string(),
    ];
    assert_eq!(select_build_tools_version(&names).unwrap(), "29.0.2");
}

#[test]
fn build_tools_version_ignores_non_digit_entries() {
    let names = vec!["tools".to_string(), ".hidden".to_string(), "".to_string()];
    assert_eq!(select_build_tools_version(&names), None);
}

#[test]
fn build_tools_version_is_a_raw_string_maximum() {
    // The selection is deliberately a raw lexicographic maximum, not a
    // semantic-version comparison: a two-digit major version sorts below
    // a larger single digit.
    let names = vec!["10.0.0".to_string(), "9.0.0".to_string()];
    assert_eq!(select_build_tools_version(&names).unwrap(), "9.0.0");
}

#[test]
fn build_tag_comes_from_the_revision_patch_field() {
    let text = "Pkg.Desc = Android NDK\nPkg.Revision = 21.3.6528147\n";
    assert_eq!(parse_build_tag(text).unwrap(), 6528147);
}

#[test]
fn build_tag_strips_a_beta_suffix() {
    let text = "Pkg.Revision = 23.1.7779620-beta1\n";
    assert_eq!(parse_build_tag(text).unwrap(), 7779620);
}

#[test]
fn build_tag_requires_a_revision_line() {
    assert!(matches!(
        parse_build_tag("Pkg.Desc = Android NDK\n"),
        Err(NdkError::MalformedMetadata(_))
    ));
    assert!(matches!(
        parse_build_tag("Pkg.Revision = 21.3\n"),
        Err(NdkError::MalformedMetadata(_))
    ));
    assert!(matches!(
        parse_build_tag("Pkg.Revision = a.b.c\n"),
        Err(NdkError::MalformedMetadata(_))
    ));
}

#[test]
fn platform_bounds_come_from_the_constants_text() {
    let text = "NDK_MIN_PLATFORM_LEVEL := 21\nNDK_MAX_PLATFORM_LEVEL := 33\n";
    assert_eq!(parse_platform_bounds(text).unwrap(), (21, 33));
}

#[test]
fn platform_bounds_require_both_keys() {
    assert!(matches!(
        parse_platform_bounds("NDK_MIN_PLATFORM_LEVEL := 21\n"),
        Err(NdkError::MalformedMetadata(_))
    ));
    assert!(matches!(
        parse_platform_bounds("NDK_MIN_PLATFORM_LEVEL := x\nNDK_MAX_PLATFORM_LEVEL := 33\n"),
        Err(NdkError::MalformedMetadata(_))
    ));
}

#[test]
fn platform_entries_parse_by_prefix() {
    assert_eq!(parse_platform_level("android-29"), Some(29));
    assert_eq!(parse_platform_level("android-"), None);
    assert_eq!(parse_platform_level("android-x"), None);
    assert_eq!(parse_platform_level("platforms"), None);
}

#[test]
fn platforms_within_bounds_are_kept() {
    let levels = vec![28, 29, 30];
    assert_eq!(filter_platforms(&levels, 21, 33), vec![28, 29, 30]);
}

#[test]
fn platforms_outside_bounds_leave_nothing() {
    let levels = vec![28, 29, 30];
    let kept = filter_platforms(&levels, 31, 33);
    assert!(kept.is_empty());
    assert!(matches!(
        Ndk::new(
            "/sdk".to_string(),
            "/ndk".to_string(),
            "/home/user/.android".to_string(),
            "29.0.2".to_string(),
            1,
            kept,
        ),
        Err(NdkError::NoPlatformFound)
    ));
}

#[test]
fn default_target_platform_is_capped_at_36() {
    assert_eq!(ndk(vec![28, 29]).default_target_platform(), 29);
    assert_eq!(ndk(vec![36]).default_target_platform(), 36);
    assert_eq!(ndk(vec![35, 40]).default_target_platform(), 36);
    assert_eq!(ndk(vec![29, 28]).highest_supported_platform(), 29);
}

#[test]
fn environment_getters_report_the_resolved_parts() {
    let n = ndk(vec![28, 29]);
    assert_eq!(n.ndk(), "/ndk");
    assert_eq!(n.android_sdk(), "/sdk");
    assert_eq!(n.build_tools_version(), "29.0.2");
    assert_eq!(n.build_tag(), 6528147);
    assert_eq!(n.platforms(), &vec![28, 29]);
    assert_eq!(n.build_tools(), "/sdk/build-tools/29.0.2");
    assert_eq!(n.adb_path(true).unwrap(), "/sdk/platform-tools/adb");
    assert!(matches!(n.adb_path(false), Err(NdkError::CmdNotFound(t)) if t == "adb"));
    assert_eq!(n.platform_dir(29, true).unwrap(), "/sdk/platforms/android-29");
    assert!(matches!(
        n.platform_dir(31, false),
        Err(NdkError::PlatformNotFound(31))
    ));
}

#[test]
fn host_override_wins_over_the_build_platform() {
    assert_eq!(
        host_arch(&Some("x86_64-unknown-linux-gnu".to_string()), "macos").unwrap(),
        "linux"
    );
    assert_eq!(host_arch(&Some("aarch64-apple-macos".to_string()), "linux").unwrap(), "darwin");
    assert_eq!(host_arch(&None, "linux").unwrap(), "linux");
    assert_eq!(host_arch(&None, "macos").unwrap(), "darwin");
    assert_eq!(host_arch(&None, "windows").unwrap(), "windows");
    assert!(matches!(
        host_arch(&Some("powerpc-ibm-aix".to_string()), "solaris"),
        Err(NdkError::UnsupportedHost(h)) if h == "powerpc-ibm-aix"
    ));
    assert!(matches!(
        host_arch(&None, "solaris"),
        Err(NdkError::UnsupportedTarget)
    ));
}

#[test]
fn toolchain_dir_falls_back_once() {
    let n = ndk(vec![29]);
    assert_eq!(
        n.toolchain_dir("linux", true, false).unwrap(),
        "/ndk/toolchains/llvm/prebuilt/linux-x86_64"
    );
    assert_eq!(
        n.toolchain_dir("linux", false, true).unwrap(),
        "/ndk/toolchains/llvm/prebuilt/linux"
    );
    assert!(matches!(
        n.toolchain_dir("linux", false, false),
        Err(NdkError::PathNotFound(p)) if p == "/ndk/toolchains/llvm/prebuilt/linux"
    ));
}

#[test]
fn toolchain_bin_prefers_the_gnu_name() {
    let n = ndk(vec![29]);
    let tc = "/ndk/toolchains/llvm/prebuilt/linux-x86_64";
    assert_eq!(
        n.toolchain_bin("objcopy", Target::Arm64V8a, tc, "", true, true).unwrap(),
        "/ndk/toolchains/llvm/prebuilt/linux-x86_64/bin/aarch64-linux-android-objcopy"
    );
    assert_eq!(
        n.toolchain_bin("objcopy", Target::Arm64V8a, tc, "", false, true).unwrap(),
        "/ndk/toolchains/llvm/prebuilt/linux-x86_64/bin/llvm-objcopy"
    );
    match n.toolchain_bin("objcopy", Target::ArmV7a, tc, ".exe", false, false) {
        Err(NdkError::ToolchainBinaryNotFound { toolchain_path, gnu_bin, llvm_bin }) => {
            assert_eq!(toolchain_path, "/ndk/toolchains/llvm/prebuilt/linux-x86_64/bin");
            assert_eq!(gnu_bin, "arm-linux-androideabi-objcopy.exe");
            assert_eq!(llvm_bin, "llvm-objcopy.exe");
        }
        other => panic!("unexpected result: {:?}", other.map(|_| ())),
    }
}

#[test]
fn sysroot_search_goes_down_then_up() {
    let n = ndk(vec![29]);
    let tc = "/tc";
    let lib = "/tc/sysroot/usr/lib/aarch64-linux-android";
    let existing = vec![24, 30];
    assert_eq!(
        n.sysroot_platform_lib_dir(Target::Arm64V8a, tc, 26, &existing, true).unwrap(),
        format!("{}/24", lib)
    );
    let only_above = vec![30];
    assert_eq!(
        n.sysroot_platform_lib_dir(Target::Arm64V8a, tc, 26, &only_above, true).unwrap(),
        format!("{}/30", lib)
    );
    let none: Vec<u32> = vec![];
    assert!(matches!(
        n.sysroot_platform_lib_dir(Target::Arm64V8a, tc, 26, &none, true),
        Err(NdkError::PlatformNotFound(26))
    ));
}

#[test]
fn ndk_root_resolution_orders_its_candidates() {
    let candidates = vec![None, Some("/opt/ndk".to_string()), Some("/other".to_string())];
    assert_eq!(resolve_ndk_root(&candidates, "/sdk", false).unwrap(), "/opt/ndk");
    let none: Vec<Option<String>> = vec![None, None];
    assert_eq!(resolve_ndk_root(&none, "/sdk", true).unwrap(), "/sdk/ndk-bundle");
    assert!(matches!(
        resolve_ndk_root(&none, "/sdk", false),
        Err(NdkError::NdkNotFound)
    ));
}

#[test]
fn user_home_resolution_orders_its_candidates() {
    assert_eq!(
        resolve_user_home(&Some("/legacy".to_string()), &Some("/u".to_string()), &None).unwrap(),
        "/legacy/.android"
    );
    assert_eq!(
        resolve_user_home(&None, &Some("/u".to_string()), &Some("/h".to_string())).unwrap(),
        "/u"
    );
    assert_eq!(resolve_user_home(&None, &None, &Some("/h".to_string())).unwrap(), "/h/.android");
    assert!(matches!(
        resolve_user_home(&None, &None, &None),
        Err(NdkError::PathNotFound(p)) if p == "$HOME"
    ));
}

#[test]
fn compiler_paths_depend_on_the_toolchain_directory() {
    let n = ndk(vec![29]);
    let tc = "/ndk/toolchains/llvm/prebuilt/linux-x86_64";
    let (clang, clang_pp) = n.clang(tc, "", true, true).unwrap();
    assert_eq!(clang, format!("{}/bin/clang", tc));
    assert_eq!(clang_pp, format!("{}/bin/clang++", tc));
    assert!(matches!(
        n.clang(tc, ".exe", false, true),
        Err(NdkError::PathNotFound(p)) if p.ends_with("clang.exe")
    ));
    assert!(matches!(
        n.clang(tc, "", true, false),
        Err(NdkError::PathNotFound(p)) if p.ends_with("clang++")
    ));
    assert_eq!(n.prebuilt_dir("linux", true).unwrap(), "/ndk/prebuilt/linux-x86_64");
    assert_eq!(
        n.sysroot_lib_dir(Target::X86, tc, true).unwrap(),
        format!("{}/sysroot/usr/lib/i686-linux-android", tc)
    );
}

#[test]
fn tool_commands_carry_their_programs() {
    let n = ndk(vec![29]);
    let aapt = n.build_tool("aapt", true).unwrap();
    assert_eq!(aapt.prog, "/sdk/build-tools/29.0.2/aapt");
    assert!(aapt.args.is_empty());
    assert!(aapt.cwd.is_none());
    let adb = n.platform_tool("adb", true).unwrap();
    assert_eq!(adb.prog, "/sdk/platform-tools/adb");
    assert!(matches!(
        n.build_tool("zipalign", false),
        Err(NdkError::CmdNotFound(t)) if t == "zipalign"
    ));
}

#[test]
fn abi_detection_trims_and_parses_the_query_output() {
    let n = ndk(vec![29]);
    let query = n.detect_abi_cmd(Some("emulator-5554"), true).unwrap();
    assert_eq!(query.prog, "/sdk/platform-tools/adb");
    assert_eq!(
        query.args,
        vec!["-s", "emulator-5554", "shell", "getprop", "ro.product.cpu.abi"]
    );
    assert_eq!(n.detect_abi("arm64-v8a\n").unwrap(), Target::Arm64V8a);
    assert_eq!(n.detect_abi("  x86_64 \r\n").unwrap(), Target::X86_64);
    assert!(matches!(n.detect_abi("mips\n"), Err(NdkError::UnsupportedTarget)));
}

#[test]
fn debugger_sessions_record_the_abi_and_launch_the_script() {
    let n = ndk(vec![29]);
    let steps = n
        .ndk_gdb("/launch", "android.app.NativeActivity", Some("serial1"), Target::Arm64V8a, "linux", true, true)
        .unwrap();
    assert_eq!(steps.len(), 3);
    assert!(matches!(&steps[0], Step::MakeDir(d) if d == "/launch/jni"));
    match &steps[1] {
        Step::WriteFile(path, contents) => {
            assert_eq!(path, "/launch/jni/Android.mk");
            assert_eq!(contents, "APP_ABI=arm64-v8a\nTARGET_OUT=\n");
        }
        other => panic!("unexpected step: {:?}", other),
    }
    match &steps[2] {
        Step::Run(cmd) => {
            assert_eq!(cmd.prog, "/ndk/prebuilt/linux-x86_64/bin/ndk-gdb");
            assert_eq!(
                cmd.args,
                vec![
                    "-s",
                    "serial1",
                    "--adb",
                    "/sdk/platform-tools/adb",
                    "--launch",
                    "android.app.NativeActivity",
                ]
            );
            assert_eq!(cmd.cwd.as_deref(), Some("/launch"));
        }
        other => panic!("unexpected step: {:?}", other),
    }
    assert!(matches!(
        n.ndk_gdb("/launch", "a", None, Target::X86, "linux", false, true),
        Err(NdkError::PathNotFound(p)) if p == "/ndk/prebuilt/linux-x86_64"
    ));
    assert!(matches!(
        n.ndk_gdb("/launch", "a", None, Target::X86, "linux", true, false),
        Err(NdkError::CmdNotFound(t)) if t == "adb"
    ));
}

#[test]
fn debug_key_is_created_only_when_absent() {
    let n = ndk(vec![29]);
    let (key, steps) = n.debug_key("/usr/bin/keytool", false);
    assert_eq!(key.path, "/home/user/.android/debug.keystore");
    assert_eq!(key.password, "android");
    assert_eq!(steps.len(), 2);
    assert!(matches!(&steps[0], Step::MakeDir(d) if d == "/home/user/.android"));
    match &steps[1] {
        Step::Run(c) => {
            assert_eq!(c.prog, "/usr/bin/keytool");
            assert_eq!(
                c.args,
                vec![
                    "-genkey",
                    "-v",
                    "-keystore",
                    "/home/user/.android/debug.keystore",
                    "-storepass",
                    "android",
                    "-alias",
                    "androiddebugkey",
                    "-keypass",
                    "android",
                    "-dname",
                    "CN=Android Debug,O=Android,C=US",
                    "-keyalg",
                    "RSA",
                    "-keysize",
                    "2048",
                    "-validity",
                    "10000",
                ]
            );
        }
        other => panic!("unexpected step: {:?}", other),
    }
    // A second resolution with the keystore present plans no generation.
    let (_, steps) = n.debug_key("/usr/bin/keytool", true);
    assert_eq!(steps.len(), 1);
    assert!(matches!(&steps[0], Step::MakeDir(_)));
}
