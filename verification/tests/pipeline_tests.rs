use ndk_build2::apk::{ApkConfig, StripConfig};
use ndk_build2::cmd::Step;
use ndk_build2::error::NdkError;
use ndk_build2::manifest::AndroidManifest;
use ndk_build2::ndk::Ndk;
use ndk_build2::signing::{resolve_signing_key, Signing};
use ndk_build2::target::Target;

fn ndk() -> Ndk {
    Ndk::new(
        "/sdk".to_string(),
        "/ndk".to_string(),
        "/home/user/.android".to_string(),
        "29.0.2".to_string(),
        6528147,
        vec![29],
    )
    .unwrap()
}

fn config(use_aapt2: bool, debuggable: Option<bool>, strip: StripConfig) -> ApkConfig {
    let mut manifest = AndroidManifest::default();
    manifest.package = "rust.demo".to_string();
    manifest.application.debuggable = debuggable;
    ApkConfig {
        ndk: ndk(),
        build_dir: "/build".to_string(),
        apk_name: "demo".to_string(),
        use_aapt2,
        assets: None,
        resources: Some("/proj/res".to_string()),
        java_classes: "/build/classes".to_string(),
        manifest,
        disable_aapt_compression: false,
        strip,
        reverse_port_forward: vec![],
    }
}

#[test]
fn archive_paths_are_deterministic() {
    let c = config(true, None, StripConfig::Default);
    assert_eq!(c.unaligned_apk(), "/build/demo-unaligned.apk");
    assert_eq!(c.apk(), "/build/demo.apk");
}

#[test]
fn creation_writes_the_manifest_then_compiles_links_and_optimizes() {
    let c = config(true, None, StripConfig::Default);
    let (_apk, steps) = c.create_apk("/sdk/platforms/android-29/android.jar", true).unwrap();
    assert_eq!(steps.len(), 6);
    assert!(matches!(&steps[0], Step::MakeDir(d) if d == "/build"));
    match &steps[1] {
        Step::WriteFile(path, contents) => {
            assert_eq!(path, "/build/AndroidManifest.xml");
            assert_eq!(contents, &c.manifest.to_xml());
        }
        other => panic!("unexpected step: {:?}", other),
    }
    match &steps[2] {
        Step::Run(cmd) => {
            assert_eq!(cmd.prog, "/sdk/build-tools/29.0.2/aapt2");
            assert_eq!(cmd.cwd.as_deref(), Some("/build"));
            assert_eq!(
                cmd.args,
                vec!["compile", "-o", "/build/compiled_rust.demo_resource", "--dir", "/proj/res"]
            );
        }
        other => panic!("unexpected step: {:?}", other),
    }
    match &steps[3] {
        Step::Run(cmd) => {
            assert_eq!(
                cmd.args,
                vec![
                    "link",
                    "-o",
                    "/build/demo-unaligned.apk",
                    "--manifest",
                    "AndroidManifest.xml",
                    "-I",
                    "/sdk/platforms/android-29/android.jar",
                ]
            );
        }
        other => panic!("unexpected step: {:?}", other),
    }
    // Not debuggable: the optimizer reads from a staging rename and the
    // staging file is removed on both outcomes.
    match &steps[4] {
        Step::Rename(from, to) => {
            assert_eq!(from, "/build/demo-unaligned.apk");
            assert_eq!(to, "/build/rust.demo");
        }
        other => panic!("unexpected step: {:?}", other),
    }
    match &steps[5] {
        Step::RunWithCleanup(cmd, cleanup) => {
            assert_eq!(cleanup, "/build/rust.demo");
            assert_eq!(
                cmd.args,
                vec![
                    "optimize",
                    "-o",
                    "/build/demo-unaligned.apk",
                    "/build/rust.demo",
                    "--enable-sparse-encoding",
                ]
            );
        }
        other => panic!("unexpected step: {:?}", other),
    }
    // The intermediate compiled-resources entry is a caller-owned
    // byproduct: no step removes it.
    assert!(!steps.iter().any(|s| matches!(s, Step::RemoveFile(_))));
}

#[test]
fn creation_skips_optimization_for_debuggable_packages() {
    let c = config(true, Some(true), StripConfig::Default);
    let (_apk, steps) = c.create_apk("/jar", true).unwrap();
    assert_eq!(steps.len(), 4);
    assert!(matches!(&steps[3], Step::Run(cmd) if cmd.args.first().map(|a| a.as_str()) == Some("link")));
    assert!(!steps.iter().any(|s| matches!(s, Step::Rename(_, _) | Step::RunWithCleanup(_, _))));
}

#[test]
fn creation_uses_the_legacy_packer_when_asked() {
    let mut c = config(false, None, StripConfig::Default);
    c.disable_aapt_compression = true;
    c.assets = Some("/proj/assets".to_string());
    let (_apk, steps) = c.create_apk("/jar", true).unwrap();
    assert_eq!(steps.len(), 3);
    match &steps[2] {
        Step::Run(cmd) => {
            assert_eq!(cmd.prog, "/sdk/build-tools/29.0.2/aapt");
            assert_eq!(
                cmd.args,
                vec![
                    "package",
                    "-f",
                    "-F",
                    "/build/demo-unaligned.apk",
                    "-M",
                    "AndroidManifest.xml",
                    "-I",
                    "/jar",
                    "-0",
                    "",
                    "-S",
                    "/proj/res",
                    "-A",
                    "/proj/assets",
                ]
            );
        }
        other => panic!("unexpected step: {:?}", other),
    }
}

#[test]
fn creation_requires_the_resource_tool() {
    let c = config(true, None, StripConfig::Default);
    assert!(matches!(
        c.create_apk("/jar", false),
        Err(NdkError::CmdNotFound(t)) if t == "aapt2"
    ));
    let legacy = config(false, None, StripConfig::Default);
    assert!(matches!(
        legacy.create_apk("/jar", false),
        Err(NdkError::CmdNotFound(t)) if t == "aapt"
    ));
}

#[test]
fn adding_a_library_copies_it_under_its_abi() {
    let c = config(true, Some(true), StripConfig::Default);
    let (mut apk, _) = c.create_apk("/jar", true).unwrap();
    let steps = apk.add_lib("/t/libdemo.so", Target::Arm64V8a, true, "/objcopy").unwrap();
    assert_eq!(steps.len(), 2);
    assert!(matches!(&steps[0], Step::MakeDir(d) if d == "/build/lib/arm64-v8a"));
    match &steps[1] {
        Step::CopyFile(from, to) => {
            assert_eq!(from, "/t/libdemo.so");
            assert_eq!(to, "/build/lib/arm64-v8a/libdemo.so");
        }
        other => panic!("unexpected step: {:?}", other),
    }
    assert_eq!(apk.pending_libs, vec!["lib/arm64-v8a/libdemo.so"]);
}

#[test]
fn adding_a_missing_library_fails() {
    let c = config(true, Some(true), StripConfig::Default);
    let (mut apk, _) = c.create_apk("/jar", true).unwrap();
    assert!(matches!(
        apk.add_lib("/t/libdemo.so", Target::X86, false, "/objcopy"),
        Err(NdkError::PathNotFound(p)) if p == "/t/libdemo.so"
    ));
    assert!(apk.pending_libs.is_empty());
}

#[test]
fn adding_the_same_library_twice_leaves_the_set_unchanged() {
    let c = config(true, Some(true), StripConfig::Default);
    let (mut apk, _) = c.create_apk("/jar", true).unwrap();
    apk.add_lib("/t/libdemo.so", Target::Arm64V8a, true, "/objcopy").unwrap();
    let before = apk.pending_libs.len();
    apk.add_lib("/t/libdemo.so", Target::Arm64V8a, true, "/objcopy").unwrap();
    assert_eq!(apk.pending_libs.len(), before);
    // A different ABI gives a different in-archive path.
    apk.add_lib("/t/libdemo.so", Target::X86, true, "/objcopy").unwrap();
    assert_eq!(apk.pending_libs.len(), before + 1);
}

#[test]
fn split_policy_strips_extracts_and_embeds_the_link() {
    let c = config(true, Some(true), StripConfig::Split);
    let (mut apk, _) = c.create_apk("/jar", true).unwrap();
    let steps = apk.add_lib("/t/libdemo.so", Target::Arm64V8a, true, "/objcopy").unwrap();
    assert_eq!(steps.len(), 4);
    let stripped = "/build/lib/arm64-v8a/libdemo.so";
    let debug_file = "/build/lib/arm64-v8a/libdemo.dwarf";
    match &steps[1] {
        Step::Run(cmd) => {
            assert_eq!(cmd.prog, "/objcopy");
            assert_eq!(cmd.args, vec!["--strip-debug", "/t/libdemo.so", stripped]);
        }
        other => panic!("unexpected step: {:?}", other),
    }
    match &steps[2] {
        Step::Run(cmd) => {
            assert_eq!(cmd.args, vec!["--only-keep-debug", "/t/libdemo.so", debug_file]);
        }
        other => panic!("unexpected step: {:?}", other),
    }
    // The stripped library receives an embedded reference to the debug
    // sibling's file name; the invocation runs in the destination
    // directory so the tool finds the sibling there.
    match &steps[3] {
        Step::Run(cmd) => {
            assert_eq!(
                cmd.args,
                vec!["--add-gnu-debuglink=libdemo.dwarf".to_string(), stripped.to_string()]
            );
            assert_eq!(cmd.cwd.as_deref(), Some("/build/lib/arm64-v8a"));
        }
        other => panic!("unexpected step: {:?}", other),
    }
    let _ = debug_file;
}

#[test]
fn strip_policy_rewrites_in_one_invocation() {
    let c = config(true, Some(true), StripConfig::Strip);
    let (mut apk, _) = c.create_apk("/jar", true).unwrap();
    let steps = apk.add_lib("/t/libdemo.so", Target::X86_64, true, "/objcopy").unwrap();
    assert_eq!(steps.len(), 2);
    match &steps[1] {
        Step::Run(cmd) => {
            assert_eq!(
                cmd.args,
                vec!["--strip-debug", "/t/libdemo.so", "/build/lib/x86_64/libdemo.so"]
            );
        }
        other => panic!("unexpected step: {:?}", other),
    }
}

#[test]
fn runtime_libraries_stage_their_resolved_closures() {
    let c = config(true, Some(true), StripConfig::Default);
    let (mut apk, _) = c.create_apk("/jar", true).unwrap();
    let entries = vec!["liba.so".to_string(), "notes.txt".to_string(), "libb.so".to_string()];
    // The suffix selection names the libraries the resolver is asked about.
    let libs = ndk_build2::apk::runtime_lib_paths("/proj/runtime", Target::Arm64V8a, &entries);
    assert_eq!(
        libs,
        vec!["/proj/runtime/arm64-v8a/liba.so", "/proj/runtime/arm64-v8a/libb.so"]
    );
    // The resolver returned one transitive closure per selected library.
    let closures = vec![
        vec![libs[0].clone(), "/deps/libshared.so".to_string()],
        vec![libs[1].clone()],
    ];
    let steps = apk
        .add_runtime_libs("/proj/runtime", Target::Arm64V8a, &entries, &closures, "/objcopy")
        .unwrap();
    // Three libraries staged, two steps each under the default policy.
    assert_eq!(steps.len(), 6);
    assert_eq!(
        apk.pending_libs,
        vec![
            "lib/arm64-v8a/liba.so",
            "lib/arm64-v8a/libshared.so",
            "lib/arm64-v8a/libb.so",
        ]
    );
    match &steps[1] {
        Step::CopyFile(from, _) => assert_eq!(from, "/proj/runtime/arm64-v8a/liba.so"),
        other => panic!("unexpected step: {:?}", other),
    }
    match &steps[3] {
        Step::CopyFile(from, _) => assert_eq!(from, "/deps/libshared.so"),
        other => panic!("unexpected step: {:?}", other),
    }
}

#[test]
fn class_conversion_plans_both_converters() {
    let c = config(true, Some(true), StripConfig::Default);
    let (apk, _) = c.create_apk("/jar", true).unwrap();
    assert!(apk
        .add_java_classes(&vec![], "/jar", false, true, true)
        .unwrap()
        .is_none());
    // An existing but empty class directory also plans nothing.
    assert!(apk
        .add_java_classes(&vec![], "/jar", true, true, true)
        .unwrap()
        .is_none());
    let files = vec!["/build/classes/A.class".to_string(), "/build/classes/B.class".to_string()];
    let plan = apk.add_java_classes(&files, "/jar", true, true, true).unwrap().unwrap();
    assert_eq!(plan.d8.prog, "/sdk/build-tools/29.0.2/d8");
    assert_eq!(
        plan.d8.args,
        vec![
            "--output",
            "/build",
            "--lib",
            "/jar",
            "/build/classes/A.class",
            "/build/classes/B.class",
        ]
    );
    assert_eq!(plan.dx.prog, "dx");
    assert_eq!(plan.dx.args, vec!["--dex", "--output", "/build/classes.dex", "/build/classes"]);
    assert_eq!(plan.aapt_add.args, vec!["add", "/build/demo-unaligned.apk", "classes.dex"]);
    assert!(matches!(
        apk.add_java_classes(&files, "/jar", true, false, true),
        Err(NdkError::CmdNotFound(t)) if t == "d8"
    ));
}

#[test]
fn aligning_batches_the_pending_paths_and_consumes_the_stage() {
    let mut c = config(true, Some(true), StripConfig::Default);
    c.disable_aapt_compression = true;
    let (mut apk, _) = c.create_apk("/jar", true).unwrap();
    apk.add_lib("/t/liba.so", Target::Arm64V8a, true, "/objcopy").unwrap();
    apk.add_lib("/t/libb.so", Target::Arm64V8a, true, "/objcopy").unwrap();
    let (unsigned, cmds) = apk.add_pending_libs_and_align(true, true).unwrap();
    assert_eq!(cmds.len(), 2);
    assert_eq!(
        cmds[0].args,
        vec![
            "add",
            "-0",
            "",
            "/build/demo-unaligned.apk",
            "lib/arm64-v8a/liba.so",
            "lib/arm64-v8a/libb.so",
        ]
    );
    assert_eq!(
        cmds[1].args,
        vec!["-f", "-v", "4", "/build/demo-unaligned.apk", "/build/demo.apk"]
    );
    // The pending set went with the consumed stage; signing is all that
    // is left.
    let key = ndk_build2::ndk::Key { path: "/ks".to_string(), password: "pw".to_string() };
    let (handle, sign_cmd) = unsigned.sign(key, true).unwrap();
    assert_eq!(
        sign_cmd.args,
        vec!["sign", "--ks", "/ks", "--ks-pass", "pass:pw", "/build/demo.apk"]
    );
    assert_eq!(handle.path, "/build/demo.apk");
    assert_eq!(handle.package_name, "rust.demo");
}

#[test]
fn aligning_requires_both_tools() {
    let c = config(true, Some(true), StripConfig::Default);
    let (apk, _) = c.create_apk("/jar", true).unwrap();
    assert!(matches!(
        apk.add_pending_libs_and_align(false, true),
        Err(NdkError::CmdNotFound(t)) if t == "aapt"
    ));
    let (apk2, _) = c.create_apk("/jar", true).unwrap();
    assert!(matches!(
        apk2.add_pending_libs_and_align(true, false),
        Err(NdkError::CmdNotFound(t)) if t == "zipalign"
    ));
}

#[test]
fn device_operations_address_the_package() {
    let mut c = config(true, Some(true), StripConfig::Default);
    c.reverse_port_forward = vec![
        ("tcp:8080".to_string(), "tcp:8081".to_string()),
        ("tcp:9000".to_string(), "tcp:9001".to_string()),
    ];
    let apk = ndk_build2::apk::Apk::from_config(&c);
    let install = apk.install(Some("serial1"), true).unwrap();
    assert_eq!(install.prog, "/sdk/platform-tools/adb");
    assert_eq!(install.args, vec!["-s", "serial1", "install", "-r", "/build/demo.apk"]);
    let start = apk.start(None, None, true).unwrap();
    assert_eq!(
        start.args,
        vec![
            "shell",
            "am",
            "start",
            "-a",
            "android.intent.action.MAIN",
            "-n",
            "rust.demo/android.app.NativeActivity",
        ]
    );
    let named = apk.start(None, Some("rust.demo.Main"), true).unwrap();
    assert_eq!(named.args[6], "rust.demo/rust.demo.Main");
    let uid_query = apk.uidof_cmd(None, true).unwrap();
    assert_eq!(uid_query.args, vec!["shell", "pm", "list", "package", "-U", "rust.demo"]);
    let forwards = apk.reverse_port_forwarding(None, true).unwrap();
    assert_eq!(forwards.len(), 2);
    assert_eq!(forwards[0].args, vec!["reverse", "tcp:8080", "tcp:8081"]);
    assert_eq!(forwards[1].args, vec!["reverse", "tcp:9000", "tcp:9001"]);
    assert!(matches!(
        apk.install(None, false),
        Err(NdkError::CmdNotFound(t)) if t == "adb"
    ));
}

#[test]
fn log_streaming_is_filtered_by_the_resolved_uid() {
    let c = config(true, Some(true), StripConfig::Default);
    let apk = ndk_build2::apk::Apk::from_config(&c);
    let clear = apk.logcat_clear_cmd(None, true).unwrap();
    assert_eq!(clear.prog, "/sdk/platform-tools/adb");
    assert_eq!(clear.args, vec!["logcat", "-c"]);
    let brief = apk.logcat_cmd(None, 10123, false, true).unwrap();
    assert_eq!(brief.args, vec!["logcat", "-v", "brief", "color", "--uid", "10123"]);
    let timed = apk.logcat_cmd(Some("serial1"), 10123, true, true).unwrap();
    assert_eq!(
        timed.args,
        vec!["-s", "serial1", "logcat", "-v", "time", "color", "--uid", "10123"]
    );
    assert!(matches!(
        apk.logcat_cmd(None, 1, false, false),
        Err(NdkError::CmdNotFound(t)) if t == "adb"
    ));
}

#[test]
fn uid_parsing_selects_the_exact_package() {
    let mut c = config(true, Some(true), StripConfig::Default);
    c.manifest.package = "com.example.app".to_string();
    let apk = ndk_build2::apk::Apk::from_config(&c);
    let output = "package:com.example.app uid:10123\npackage:com.example.app2 uid:10456\n";
    assert_eq!(apk.uidof(output).unwrap(), 10123);
    // The same listing, reversed: the substring trap must not bite.
    let reversed = "package:com.example.app2 uid:10456\npackage:com.example.app uid:10123\n";
    assert_eq!(apk.uidof(reversed).unwrap(), 10123);
}

#[test]
fn uid_parsing_reports_each_failure_exactly() {
    let mut c = config(true, Some(true), StripConfig::Default);
    c.manifest.package = "com.nomatch".to_string();
    let apk = ndk_build2::apk::Apk::from_config(&c);
    let output = "package:com.example.app uid:10123\npackage:com.example.app2 uid:10456\n";
    assert!(matches!(
        apk.uidof(output),
        Err(NdkError::PackageNotInOutput { package, .. }) if package == "com.nomatch"
    ));
    let mut c2 = config(true, Some(true), StripConfig::Default);
    c2.manifest.package = "com.example.app".to_string();
    let apk2 = ndk_build2::apk::Apk::from_config(&c2);
    assert!(matches!(
        apk2.uidof("package:com.example.app name:foo\n"),
        Err(NdkError::UidNotInOutput(_))
    ));
    assert!(matches!(
        apk2.uidof("package:com.example.app uid:ten\n"),
        Err(NdkError::NotAUid(u)) if u == "ten"
    ));
}

#[test]
fn signing_uses_a_complete_external_pair_directly() {
    let r = resolve_signing_key(
        &Some("/ks/release.keystore".to_string()),
        &Some("example-password".to_string()),
        "release",
        &None,
        "/proj",
        &ndk(),
        "/keytool",
        true,
    )
    .unwrap();
    assert_eq!(r.key.path, "/ks/release.keystore");
    assert_eq!(r.key.password, "example-password");
    assert!(!r.used_default_password);
    assert!(r.steps.is_empty());
}

#[test]
fn signing_substitutes_the_default_password_only_for_dev() {
    let r = resolve_signing_key(
        &Some("/ks/dev.keystore".to_string()),
        &None,
        "dev",
        &None,
        "/proj",
        &ndk(),
        "/keytool",
        true,
    )
    .unwrap();
    assert_eq!(r.key.password, "android");
    assert!(r.used_default_password);
    assert!(matches!(
        resolve_signing_key(
            &Some("/ks/release.keystore".to_string()),
            &None,
            "release",
            &None,
            "/proj",
            &ndk(),
            "/keytool",
            true,
        ),
        Err(NdkError::MissingReleaseKey(p)) if p == "release"
    ));
}

#[test]
fn signing_falls_back_to_the_configured_entry() {
    let entry = Signing {
        path: "keys/app.keystore".to_string(),
        keystore_password: "example-password".to_string(),
    };
    let r = resolve_signing_key(
        &None,
        &None,
        "release",
        &Some(entry),
        "/proj",
        &ndk(),
        "/keytool",
        true,
    )
    .unwrap();
    assert_eq!(r.key.path, "/proj/keys/app.keystore");
    assert_eq!(r.key.password, "example-password");
    assert!(!r.used_default_password);
}

#[test]
fn signing_creates_the_debug_keystore_once() {
    let first = resolve_signing_key(
        &None,
        &None,
        "dev",
        &None,
        "/proj",
        &ndk(),
        "/keytool",
        false,
    )
    .unwrap();
    assert_eq!(first.key.path, "/home/user/.android/debug.keystore");
    assert_eq!(first.key.password, "android");
    assert!(first.steps.iter().any(|s| matches!(s, Step::Run(_))));
    // A later resolution in the same run sees the keystore and plans no
    // generation, so the keystore is not rewritten.
    let second = resolve_signing_key(
        &None,
        &None,
        "dev",
        &None,
        "/proj",
        &ndk(),
        "/keytool",
        true,
    )
    .unwrap();
    assert!(!second.steps.iter().any(|s| matches!(s, Step::Run(_))));
    assert!(matches!(
        resolve_signing_key(&None, &None, "release", &None, "/proj", &ndk(), "/keytool", true),
        Err(NdkError::MissingReleaseKey(p)) if p == "release"
    ));
}
