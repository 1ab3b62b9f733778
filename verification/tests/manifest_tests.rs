use ndk_build2::manifest::{
    default_activity_name, default_config_changes, default_namespace, Activity, AndroidManifest,
    Feature, IntentFilter, IntentFilterData, MetaData, Package, Permission, Queries,
    QueryProvider, Sdk,
};

#[test]
fn defaults_are_the_documented_ones() {
    assert_eq!(default_namespace(), "http://schemas.android.com/apk/res/android");
    assert_eq!(default_activity_name(), "android.app.NativeActivity");
    assert_eq!(default_config_changes().unwrap(), "orientation|keyboardHidden|screenSize");
    let sdk = Sdk::default();
    assert_eq!(sdk.min_sdk_version, Some(24));
    assert_eq!(sdk.target_sdk_version, None);
    assert_eq!(sdk.max_sdk_version, None);
    let a = Activity::default();
    assert_eq!(a.name, "android.app.NativeActivity");
    assert_eq!(a.config_changes.unwrap(), "orientation|keyboardHidden|screenSize");
}

#[test]
fn effective_sdk_versions_apply_their_bounds() {
    let mut sdk = Sdk::default();
    assert_eq!(sdk.effective_min_sdk_version(), 24);
    sdk.min_sdk_version = Some(19);
    assert_eq!(sdk.effective_min_sdk_version(), 23);
    sdk.min_sdk_version = None;
    assert_eq!(sdk.effective_min_sdk_version(), 23);
    assert_eq!(sdk.effective_target_sdk_version(34), 34);
    sdk.target_sdk_version = Some(30);
    assert_eq!(sdk.effective_target_sdk_version(34), 30);
}

#[test]
fn default_manifest_renders_exactly() {
    let mut m = AndroidManifest::default();
    m.package = "rust.example".to_string();
    let mut expected = String::new();
    expected.push_str("<manifest xmlns:android=\"http://schemas.android.com/apk/res/android\"");
    expected.push_str(" package=\"rust.example\">");
    expected.push_str("<uses-sdk android:minSdkVersion=\"24\"/>");
    expected.push_str("<application android:hasCode=\"false\" android:label=\"\">");
    expected.push_str("<activity android:configChanges=\"orientation|keyboardHidden|screenSize\"");
    expected.push_str(" android:name=\"android.app.NativeActivity\">");
    expected.push_str("</activity></application></manifest>");
    assert_eq!(m.to_xml(), expected);
}

#[test]
fn attribute_values_are_escaped() {
    let mut m = AndroidManifest::default();
    m.package = "a&b<c>\"d\"'e'".to_string();
    let xml = m.to_xml();
    assert!(xml.contains("package=\"a&amp;b&lt;c&gt;&quot;d&quot;&apos;e&apos;\""));
}

#[test]
fn version_attributes_render_when_set() {
    let mut m = AndroidManifest::default();
    m.package = "p".to_string();
    m.version_code = Some(101);
    m.version_name = Some("1.0.1".to_string());
    m.shared_user_id = Some("shared".to_string());
    let xml = m.to_xml();
    assert!(xml.contains(" android:sharedUserId=\"shared\""));
    assert!(xml.contains(" android:versionCode=\"101\""));
    assert!(xml.contains(" android:versionName=\"1.0.1\""));
}

#[test]
fn features_and_permissions_render_in_order() {
    let mut m = AndroidManifest::default();
    m.package = "p".to_string();
    m.uses_feature.push(Feature {
        name: Some("android.hardware.vulkan.level".to_string()),
        required: Some(true),
        version: Some(1),
        opengles_version: None,
    });
    m.uses_feature.push(Feature {
        name: None,
        required: None,
        version: None,
        opengles_version: Some((3, 2)),
    });
    m.uses_permission.push(Permission {
        name: "android.permission.INTERNET".to_string(),
        max_sdk_version: Some(30),
    });
    let xml = m.to_xml();
    let mut feature = String::new();
    feature.push_str("<uses-feature android:name=\"android.hardware.vulkan.level\"");
    feature.push_str(" android:required=\"true\" android:version=\"1\"/>");
    assert!(xml.contains(&feature));
    assert!(xml.contains("<uses-feature android:glEsVersion=\"0x00030002\"/>"));
    let mut permission = String::new();
    permission.push_str("<uses-permission android:name=\"android.permission.INTERNET\"");
    permission.push_str(" android:maxSdkVersion=\"30\"/>");
    assert!(xml.contains(&permission));
}

#[test]
fn activity_children_render_inside_the_application() {
    let mut m = AndroidManifest::default();
    m.package = "p".to_string();
    m.application.debuggable = Some(true);
    m.application.label = "demo".to_string();
    m.application.meta_data.push(MetaData {
        name: "android.app.lib_name".to_string(),
        value: "demo_lib".to_string(),
    });
    m.application.activity.exported = Some(true);
    m.application.activity.intent_filter.push(IntentFilter {
        actions: vec!["android.intent.action.MAIN".to_string()],
        categories: vec!["android.intent.category.LAUNCHER".to_string()],
        data: vec![IntentFilterData {
            scheme: Some("https".to_string()),
            host: Some("example.com".to_string()),
            port: None,
            path: None,
            path_pattern: None,
            path_prefix: None,
            mime_type: None,
        }],
    });
    let xml = m.to_xml();
    assert!(xml.contains(" android:debuggable=\"true\""));
    assert!(xml.contains(
        "<meta-data android:name=\"android.app.lib_name\" android:value=\"demo_lib\"/>"
    ));
    assert!(xml.contains(" android:exported=\"true\""));
    let mut filter = String::new();
    filter.push_str("<intent-filter><action android:name=\"android.intent.action.MAIN\"/>");
    filter.push_str("<category android:name=\"android.intent.category.LAUNCHER\"/>");
    filter.push_str("<data android:scheme=\"https\" android:host=\"example.com\"/></intent-filter>");
    assert!(xml.contains(&filter));
}

#[test]
fn queries_render_all_three_kinds() {
    let mut m = AndroidManifest::default();
    m.package = "p".to_string();
    m.queries = Some(Queries {
        package: vec![Package { name: "other.app".to_string() }],
        intent: vec![IntentFilter {
            actions: vec!["android.intent.action.VIEW".to_string()],
            categories: vec![],
            data: vec![],
        }],
        provider: vec![QueryProvider {
            authorities: "auth".to_string(),
            name: "prov".to_string(),
        }],
    });
    let xml = m.to_xml();
    assert!(xml.contains("<queries><package android:name=\"other.app\"/>"));
    assert!(xml.contains(
        "<intent-filter><action android:name=\"android.intent.action.VIEW\"/></intent-filter>"
    ));
    assert!(xml.contains(
        "<provider android:authorities=\"auth\" android:name=\"prov\"/></queries>"
    ));
}
