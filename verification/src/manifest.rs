//! The package manifest model and its XML rendering.
//!
//! The manifest is an ordinary data type; rendering it to the descriptor
//! document is a pure function whose output is pinned down, element by
//! element and attribute by attribute, by the spec functions below.  The
//! caller writes the rendered text into the build directory.

use vstd::prelude::*;

verus! {

use vstd::string::StrSliceExecFns;
use vstd::string::StringExecFns;

use crate::strutil::spec_dec;
use crate::strutil::u32_string;

/// Android `manifest` element, containing an [`Application`] element.
#[derive(Clone, Debug)]
pub struct AndroidManifest {
    pub ns_android: String,
    pub package: String,
    pub shared_user_id: Option<String>,
    pub version_code: Option<u32>,
    pub version_name: Option<String>,
    pub sdk: Sdk,
    pub uses_feature: Vec<Feature>,
    pub uses_permission: Vec<Permission>,
    pub queries: Option<Queries>,
    pub application: Application,
}

/// Android `application` element, containing an [`Activity`] element.
#[derive(Clone, Debug)]
pub struct Application {
    pub debuggable: Option<bool>,
    pub theme: Option<String>,
    pub has_code: bool,
    pub icon: Option<String>,
    pub label: String,
    pub extract_native_libs: Option<bool>,
    pub uses_cleartext_traffic: Option<bool>,
    pub meta_data: Vec<MetaData>,
    pub activity: Activity,
}

/// Android `activity` element.
#[derive(Clone, Debug)]
pub struct Activity {
    pub config_changes: Option<String>,
    pub label: Option<String>,
    pub launch_mode: Option<String>,
    pub name: String,
    pub orientation: Option<String>,
    pub exported: Option<bool>,
    pub resizeable_activity: Option<bool>,
    pub always_retain_task_state: Option<bool>,
    pub meta_data: Vec<MetaData>,
    pub intent_filter: Vec<IntentFilter>,
}

/// Android `intent-filter` element.
#[derive(Clone, Debug)]
pub struct IntentFilter {
    pub actions: Vec<String>,
    pub categories: Vec<String>,
    pub data: Vec<IntentFilterData>,
}

/// Android intent filter `data` element.
#[derive(Clone, Debug)]
pub struct IntentFilterData {
    pub scheme: Option<String>,
    pub host: Option<String>,
    pub port: Option<String>,
    pub path: Option<String>,
    pub path_pattern: Option<String>,
    pub path_prefix: Option<String>,
    pub mime_type: Option<String>,
}

/// Android `meta-data` element.
#[derive(Clone, Debug)]
pub struct MetaData {
    pub name: String,
    pub value: String,
}

/// Android `uses-feature` element.
#[derive(Clone, Debug)]
pub struct Feature {
    pub name: Option<String>,
    pub required: Option<bool>,
    pub version: Option<u32>,
    pub opengles_version: Option<(u8, u8)>,
}

/// Android `uses-permission` element.
#[derive(Clone, Debug)]
pub struct Permission {
    pub name: String,
    pub max_sdk_version: Option<u32>,
}

/// Android queries `package` element.
#[derive(Clone, Debug)]
pub struct Package {
    pub name: String,
}

/// Android queries `provider` element.
#[derive(Clone, Debug)]
pub struct QueryProvider {
    pub authorities: String,
    pub name: String,
}

/// Android `queries` element.
#[derive(Clone, Debug)]
pub struct Queries {
    pub package: Vec<Package>,
    pub intent: Vec<IntentFilter>,
    pub provider: Vec<QueryProvider>,
}

/// Android `uses-sdk` element.
#[derive(Clone, Debug)]
pub struct Sdk {
    pub min_sdk_version: Option<u32>,
    pub target_sdk_version: Option<u32>,
    pub max_sdk_version: Option<u32>,
}

/// The namespace every manifest declares.
pub fn default_namespace() -> (r: String)
    ensures
        r@ == "http://schemas.android.com/apk/res/android"@,
{
    "http://schemas.android.com/apk/res/android".to_owned()
}

/// The activity the runtime launches when none is configured.
pub fn default_activity_name() -> (r: String)
    ensures
        r@ == "android.app.NativeActivity"@,
{
    "android.app.NativeActivity".to_owned()
}

/// The configuration changes a default activity handles itself.
pub fn default_config_changes() -> (r: Option<String>)
    ensures
        r matches Some(s) && s@ == "orientation|keyboardHidden|screenSize"@,
{
    Some("orientation|keyboardHidden|screenSize".to_owned())
}

impl Sdk {
    /// The required platform level used for compiler target selection,
    /// with a lower bound of 23 for compatibility.
    pub fn effective_min_sdk_version(&self) -> (r: u32)
        ensures
            r == (match self.min_sdk_version {
                Some(m) => if m > 23 {
                    m
                } else {
                    23u32
                },
                None => 23u32,
            }),
            r >= 23,
    {
        let m = match self.min_sdk_version {
            Some(m) => m,
            None => 23,
        };
        if m > 23 {
            m
        } else {
            23
        }
    }

    /// The targeted platform level: the configured one, else the
    /// environment's default.
    pub fn effective_target_sdk_version(&self, default_platform: u32) -> (r: u32)
        ensures
            r == (match self.target_sdk_version {
                Some(t) => t,
                None => default_platform,
            }),
    {
        match self.target_sdk_version {
            Some(t) => t,
            None => default_platform,
        }
    }
}

impl Default for Sdk {
    /// The default targets no explicit platform and requires level 24.
    fn default() -> (r: Sdk)
        ensures
            r.min_sdk_version == Some(24u32),
            r.target_sdk_version is None,
            r.max_sdk_version is None,
    {
        Sdk { min_sdk_version: Some(24), target_sdk_version: None, max_sdk_version: None }
    }
}

impl Default for Activity {
    /// The default activity carries the default name and configuration
    /// changes and nothing else.
    fn default() -> (r: Activity)
        ensures
            r.config_changes matches Some(c) && c@ == "orientation|keyboardHidden|screenSize"@,
            r.label is None,
            r.launch_mode is None,
            r.name@ == "android.app.NativeActivity"@,
            r.orientation is None,
            r.exported is None,
            r.resizeable_activity is None,
            r.always_retain_task_state is None,
            r.meta_data@ == Seq::<MetaData>::empty(),
            r.intent_filter@ == Seq::<IntentFilter>::empty(),
    {
        let r = Activity {
            config_changes: default_config_changes(),
            label: None,
            launch_mode: None,
            name: default_activity_name(),
            orientation: None,
            exported: None,
            resizeable_activity: None,
            always_retain_task_state: None,
            meta_data: Vec::new(),
            intent_filter: Vec::new(),
        };
        proof {
            assert(r.meta_data@ =~= Seq::<MetaData>::empty());
            assert(r.intent_filter@ =~= Seq::<IntentFilter>::empty());
        }
        r
    }
}

impl Default for Application {
    /// The default application is empty, carries no code and holds the
    /// default activity.
    fn default() -> (r: Application)
        ensures
            r.debuggable is None,
            r.theme is None,
            r.has_code == false,
            r.icon is None,
            r.label@ == Seq::<char>::empty(),
            r.extract_native_libs is None,
            r.uses_cleartext_traffic is None,
            r.meta_data@ == Seq::<MetaData>::empty(),
            r.activity.name@ == "android.app.NativeActivity"@,
    {
        let r = Application {
            debuggable: None,
            theme: None,
            has_code: false,
            icon: None,
            label: String::new(),
            extract_native_libs: None,
            uses_cleartext_traffic: None,
            meta_data: Vec::new(),
            activity: Activity::default(),
        };
        proof {
            assert(r.meta_data@ =~= Seq::<MetaData>::empty());
        }
        r
    }
}

impl Default for AndroidManifest {
    /// The default manifest declares the namespace, an empty package name,
    /// the default targeting and the default application.
    fn default() -> (r: AndroidManifest)
        ensures
            r.ns_android@ == "http://schemas.android.com/apk/res/android"@,
            r.package@ == Seq::<char>::empty(),
            r.shared_user_id is None,
            r.version_code is None,
            r.version_name is None,
            r.sdk.min_sdk_version == Some(24u32),
            r.sdk.target_sdk_version is None,
            r.sdk.max_sdk_version is None,
            r.uses_feature@ == Seq::<Feature>::empty(),
            r.uses_permission@ == Seq::<Permission>::empty(),
            r.queries is None,
            r.application.activity.name@ == "android.app.NativeActivity"@,
    {
        let r = AndroidManifest {
            ns_android: default_namespace(),
            package: String::new(),
            shared_user_id: None,
            version_code: None,
            version_name: None,
            sdk: Sdk::default(),
            uses_feature: Vec::new(),
            uses_permission: Vec::new(),
            queries: None,
            application: Application::default(),
        };
        proof {
            assert(r.uses_feature@ =~= Seq::<Feature>::empty());
            assert(r.uses_permission@ =~= Seq::<Permission>::empty());
        }
        r
    }
}

/// Rendering of one character in attribute position: the five markup
/// characters become entities, everything else stands for itself.
pub open spec fn esc_char(c: char) -> Seq<char> {
    if c == '&' {
        "&amp;"@
    } else if c == '<' {
        "&lt;"@
    } else if c == '>' {
        "&gt;"@
    } else if c == '"' {
        "&quot;"@
    } else if c == '\'' {
        "&apos;"@
    } else {
        seq![c]
    }
}

pub open spec fn spec_escape(s: Seq<char>) -> Seq<char>
    decreases s.len(),
{
    if s.len() == 0 {
        Seq::empty()
    } else {
        spec_escape(s.drop_last()) + esc_char(s.last())
    }
}

/// Escapes a string for attribute position.
pub fn xml_escape(s: &str) -> (r: String)
    ensures
        r@ == spec_escape(s@),
{
    let n: usize = s.unicode_len();
    let mut out = String::new();
    let mut i: usize = 0;
    proof {
        assert(s@.take(0) =~= Seq::<char>::empty());
    }
    while i < n
        invariant
            n == s@.len(),
            0 <= i <= n,
            out@ == spec_escape(s@.take(i as int)),
        decreases n - i,
    {
        let c = s.get_char(i);
        if c == '&' {
            out.append("&amp;");
        } else if c == '<' {
            out.append("&lt;");
        } else if c == '>' {
            out.append("&gt;");
        } else if c == '"' {
            out.append("&quot;");
        } else if c == '\'' {
            out.append("&apos;");
        } else {
            let piece = s.substring_char(i, i + 1);
            proof {
                assert(piece@ =~= seq![s@[i as int]]);
            }
            out.append(piece);
        }
        proof {
            assert(s@.take(i as int + 1).drop_last() =~= s@.take(i as int));
            assert(s@.take(i as int + 1).last() == s@[i as int]);
        }
        i = i + 1;
    }
    proof {
        assert(s@.take(n as int) =~= s@);
    }
    out
}

/// One attribute: a leading space, the name, and the escaped value in
/// double quotes.
pub open spec fn spec_attr(name: Seq<char>, value: Seq<char>) -> Seq<char> {
    " "@ + name + "=\""@ + spec_escape(value) + "\""@
}

pub fn attr(name: &str, value: &str) -> (r: String)
    ensures
        r@ == spec_attr(name@, value@),
{
    let mut out = " ".to_owned();
    out.append(name);
    out.append("=\"");
    out.append(xml_escape(value).as_str());
    out.append("\"");
    proof {
        assert(out@ =~= spec_attr(name@, value@));
    }
    out
}

pub open spec fn spec_opt_attr(name: Seq<char>, v: Option<String>) -> Seq<char> {
    match v {
        Some(s) => spec_attr(name, s@),
        None => Seq::empty(),
    }
}

pub fn opt_attr(name: &str, v: &Option<String>) -> (r: String)
    ensures
        r@ == spec_opt_attr(name@, *v),
{
    match v {
        Some(s) => attr(name, s.as_str()),
        None => String::new(),
    }
}

pub open spec fn spec_u32_attr(name: Seq<char>, v: u32) -> Seq<char> {
    spec_attr(name, spec_dec(v as nat))
}

pub fn u32_attr(name: &str, v: u32) -> (r: String)
    ensures
        r@ == spec_u32_attr(name@, v),
{
    attr(name, u32_string(v).as_str())
}

pub open spec fn spec_opt_u32_attr(name: Seq<char>, v: Option<u32>) -> Seq<char> {
    match v {
        Some(n) => spec_u32_attr(name, n),
        None => Seq::empty(),
    }
}

pub fn opt_u32_attr(name: &str, v: &Option<u32>) -> (r: String)
    ensures
        r@ == spec_opt_u32_attr(name@, *v),
{
    match v {
        Some(n) => u32_attr(name, *n),
        None => String::new(),
    }
}

pub open spec fn spec_bool_str(b: bool) -> Seq<char> {
    if b {
        "true"@
    } else {
        "false"@
    }
}

pub fn bool_attr(name: &str, b: bool) -> (r: String)
    ensures
        r@ == spec_attr(name@, spec_bool_str(b)),
{
    if b {
        attr(name, "true")
    } else {
        attr(name, "false")
    }
}

pub open spec fn spec_opt_bool_attr(name: Seq<char>, v: Option<bool>) -> Seq<char> {
    match v {
        Some(b) => spec_attr(name, spec_bool_str(b)),
        None => Seq::empty(),
    }
}

pub fn opt_bool_attr(name: &str, v: &Option<bool>) -> (r: String)
    ensures
        r@ == spec_opt_bool_attr(name@, *v),
{
    match v {
        Some(b) => bool_attr(name, *b),
        None => String::new(),
    }
}

/// A component of a graphics-API version, zero-padded to four digits.
pub open spec fn spec_pad4(n: nat) -> Seq<char> {
    if n < 10 {
        "000"@ + spec_dec(n)
    } else if n < 100 {
        "00"@ + spec_dec(n)
    } else if n < 1000 {
        "0"@ + spec_dec(n)
    } else {
        spec_dec(n)
    }
}

pub fn pad4(n: u32) -> (r: String)
    ensures
        r@ == spec_pad4(n as nat),
{
    if n < 10 {
        "000".to_owned().concat(u32_string(n).as_str())
    } else if n < 100 {
        "00".to_owned().concat(u32_string(n).as_str())
    } else if n < 1000 {
        "0".to_owned().concat(u32_string(n).as_str())
    } else {
        u32_string(n)
    }
}

/// A graphics-API version attribute value: `0x` then each component
/// zero-padded to four digits.
pub open spec fn spec_gles_value(v: (u8, u8)) -> Seq<char> {
    "0x"@ + spec_pad4(v.0 as nat) + spec_pad4(v.1 as nat)
}

pub open spec fn spec_gles_attr(v: Option<(u8, u8)>) -> Seq<char> {
    match v {
        Some(p) => spec_attr("android:glEsVersion"@, spec_gles_value(p)),
        None => Seq::empty(),
    }
}

pub fn gles_attr(v: &Option<(u8, u8)>) -> (r: String)
    ensures
        r@ == spec_gles_attr(*v),
{
    match v {
        Some(p) => {
            let mut value = "0x".to_owned();
            value.append(pad4(p.0 as u32).as_str());
            value.append(pad4(p.1 as u32).as_str());
            proof {
                assert(value@ =~= spec_gles_value(*p));
            }
            attr("android:glEsVersion", value.as_str())
        },
        None => String::new(),
    }
}

pub open spec fn spec_sdk_xml(s: Sdk) -> Seq<char> {
    "<uses-sdk"@ + spec_opt_u32_attr("android:minSdkVersion"@, s.min_sdk_version)
        + spec_opt_u32_attr("android:targetSdkVersion"@, s.target_sdk_version)
        + spec_opt_u32_attr("android:maxSdkVersion"@, s.max_sdk_version) + "/>"@
}

pub fn sdk_xml(s: &Sdk) -> (r: String)
    ensures
        r@ == spec_sdk_xml(*s),
{
    let mut out = "<uses-sdk".to_owned();
    out.append(opt_u32_attr("android:minSdkVersion", &s.min_sdk_version).as_str());
    out.append(opt_u32_attr("android:targetSdkVersion", &s.target_sdk_version).as_str());
    out.append(opt_u32_attr("android:maxSdkVersion", &s.max_sdk_version).as_str());
    out.append("/>");
    proof {
        assert(out@ =~= spec_sdk_xml(*s));
    }
    out
}

pub open spec fn spec_metadata_xml(m: MetaData) -> Seq<char> {
    "<meta-data"@ + spec_attr("android:name"@, m.name@) + spec_attr("android:value"@, m.value@)
        + "/>"@
}

pub fn metadata_xml(m: &MetaData) -> (r: String)
    ensures
        r@ == spec_metadata_xml(*m),
{
    let mut out = "<meta-data".to_owned();
    out.append(attr("android:name", m.name.as_str()).as_str());
    out.append(attr("android:value", m.value.as_str()).as_str());
    out.append("/>");
    proof {
        assert(out@ =~= spec_metadata_xml(*m));
    }
    out
}

pub open spec fn spec_meta_list(s: Seq<MetaData>) -> Seq<char>
    decreases s.len(),
{
    if s.len() == 0 {
        Seq::empty()
    } else {
        spec_meta_list(s.drop_last()) + spec_metadata_xml(s.last())
    }
}

pub fn meta_list(v: &Vec<MetaData>) -> (r: String)
    ensures
        r@ == spec_meta_list(v@),
{
    let n: usize = v.len();
    let mut out = String::new();
    let mut i: usize = 0;
    proof {
        assert(v@.take(0) =~= Seq::<MetaData>::empty());
    }
    while i < n
        invariant
            n == v@.len(),
            0 <= i <= n,
            out@ == spec_meta_list(v@.take(i as int)),
        decreases n - i,
    {
        out.append(metadata_xml(&v[i]).as_str());
        proof {
            assert(v@.take(i as int + 1).drop_last() =~= v@.take(i as int));
            assert(v@.take(i as int + 1).last() == v@[i as int]);
        }
        i = i + 1;
    }
    proof {
        assert(v@.take(n as int) =~= v@);
    }
    out
}

pub open spec fn spec_feature_xml(f: Feature) -> Seq<char> {
    "<uses-feature"@ + spec_opt_attr("android:name"@, f.name) + spec_opt_bool_attr(
        "android:required"@,
        f.required,
    ) + spec_opt_u32_attr("android:version"@, f.version) + spec_gles_attr(f.opengles_version)
        + "/>"@
}

pub fn feature_xml(f: &Feature) -> (r: String)
    ensures
        r@ == spec_feature_xml(*f),
{
    let mut out = "<uses-feature".to_owned();
    out.append(opt_attr("android:name", &f.name).as_str());
    out.append(opt_bool_attr("android:required", &f.required).as_str());
    out.append(opt_u32_attr("android:version", &f.version).as_str());
    out.append(gles_attr(&f.opengles_version).as_str());
    out.append("/>");
    proof {
        assert(out@ =~= spec_feature_xml(*f));
    }
    out
}

pub open spec fn spec_feature_list(s: Seq<Feature>) -> Seq<char>
    decreases s.len(),
{
    if s.len() == 0 {
        Seq::empty()
    } else {
        spec_feature_list(s.drop_last()) + spec_feature_xml(s.last())
    }
}

pub fn feature_list(v: &Vec<Feature>) -> (r: String)
    ensures
        r@ == spec_feature_list(v@),
{
    let n: usize = v.len();
    let mut out = String::new();
    let mut i: usize = 0;
    proof {
        assert(v@.take(0) =~= Seq::<Feature>::empty());
    }
    while i < n
        invariant
            n == v@.len(),
            0 <= i <= n,
            out@ == spec_feature_list(v@.take(i as int)),
        decreases n - i,
    {
        out.append(feature_xml(&v[i]).as_str());
        proof {
            assert(v@.take(i as int + 1).drop_last() =~= v@.take(i as int));
            assert(v@.take(i as int + 1).last() == v@[i as int]);
        }
        i = i + 1;
    }
    proof {
        assert(v@.take(n as int) =~= v@);
    }
    out
}

pub open spec fn spec_permission_xml(p: Permission) -> Seq<char> {
    "<uses-permission"@ + spec_attr("android:name"@, p.name@) + spec_opt_u32_attr(
        "android:maxSdkVersion"@,
        p.max_sdk_version,
    ) + "/>"@
}

pub fn permission_xml(p: &Permission) -> (r: String)
    ensures
        r@ == spec_permission_xml(*p),
{
    let mut out = "<uses-permission".to_owned();
    out.append(attr("android:name", p.name.as_str()).as_str());
    out.append(opt_u32_attr("android:maxSdkVersion", &p.max_sdk_version).as_str());
    out.append("/>");
    proof {
        assert(out@ =~= spec_permission_xml(*p));
    }
    out
}

pub open spec fn spec_permission_list(s: Seq<Permission>) -> Seq<char>
    decreases s.len(),
{
    if s.len() == 0 {
        Seq::empty()
    } else {
        spec_permission_list(s.drop_last()) + spec_permission_xml(s.last())
    }
}

pub fn permission_list(v: &Vec<Permission>) -> (r: String)
    ensures
        r@ == spec_permission_list(v@),
{
    let n: usize = v.len();
    let mut out = String::new();
    let mut i: usize = 0;
    proof {
        assert(v@.take(0) =~= Seq::<Permission>::empty());
    }
    while i < n
        invariant
            n == v@.len(),
            0 <= i <= n,
            out@ == spec_permission_list(v@.take(i as int)),
        decreases n - i,
    {
        out.append(permission_xml(&v[i]).as_str());
        proof {
            assert(v@.take(i as int + 1).drop_last() =~= v@.take(i as int));
            assert(v@.take(i as int + 1).last() == v@[i as int]);
        }
        i = i + 1;
    }
    proof {
        assert(v@.take(n as int) =~= v@);
    }
    out
}

pub open spec fn spec_data_xml(d: IntentFilterData) -> Seq<char> {
    "<data"@ + spec_opt_attr("android:scheme"@, d.scheme) + spec_opt_attr("android:host"@, d.host)
        + spec_opt_attr("android:port"@, d.port) + spec_opt_attr("android:path"@, d.path)
        + spec_opt_attr("android:pathPattern"@, d.path_pattern) + spec_opt_attr(
        "android:pathPrefix"@,
        d.path_prefix,
    ) + spec_opt_attr("android:mimeType"@, d.mime_type) + "/>"@
}

pub fn data_xml(d: &IntentFilterData) -> (r: String)
    ensures
        r@ == spec_data_xml(*d),
{
    let mut out = "<data".to_owned();
    out.append(opt_attr("android:scheme", &d.scheme).as_str());
    out.append(opt_attr("android:host", &d.host).as_str());
    out.append(opt_attr("android:port", &d.port).as_str());
    out.append(opt_attr("android:path", &d.path).as_str());
    out.append(opt_attr("android:pathPattern", &d.path_pattern).as_str());
    out.append(opt_attr("android:pathPrefix", &d.path_prefix).as_str());
    out.append(opt_attr("android:mimeType", &d.mime_type).as_str());
    out.append("/>");
    proof {
        assert(out@ =~= spec_data_xml(*d));
    }
    out
}

pub open spec fn spec_data_list(s: Seq<IntentFilterData>) -> Seq<char>
    decreases s.len(),
{
    if s.len() == 0 {
        Seq::empty()
    } else {
        spec_data_list(s.drop_last()) + spec_data_xml(s.last())
    }
}

pub open spec fn spec_action_xml(a: Seq<char>) -> Seq<char> {
    "<action"@ + spec_attr("android:name"@, a) + "/>"@
}

pub open spec fn spec_action_list(s: Seq<Seq<char>>) -> Seq<char>
    decreases s.len(),
{
    if s.len() == 0 {
        Seq::empty()
    } else {
        spec_action_list(s.drop_last()) + spec_action_xml(s.last())
    }
}

pub open spec fn spec_category_xml(a: Seq<char>) -> Seq<char> {
    "<category"@ + spec_attr("android:name"@, a) + "/>"@
}

pub open spec fn spec_category_list(s: Seq<Seq<char>>) -> Seq<char>
    decreases s.len(),
{
    if s.len() == 0 {
        Seq::empty()
    } else {
        spec_category_list(s.drop_last()) + spec_category_xml(s.last())
    }
}

pub open spec fn spec_intent_filter_xml(f: IntentFilter) -> Seq<char> {
    "<intent-filter>"@ + spec_action_list(f.actions.deep_view()) + spec_category_list(
        f.categories.deep_view(),
    ) + spec_data_list(f.data@) + "</intent-filter>"@
}

pub fn intent_filter_xml(f: &IntentFilter) -> (r: String)
    ensures
        r@ == spec_intent_filter_xml(*f),
{
    let mut out = "<intent-filter>".to_owned();
    let na: usize = f.actions.len();
    let mut i: usize = 0;
    let ghost av = f.actions.deep_view();
    proof {
        assert(av.take(0) =~= Seq::<Seq<char>>::empty());
    }
    while i < na
        invariant
            na == av.len(),
            av == f.actions.deep_view(),
            0 <= i <= na,
            out@ == "<intent-filter>"@ + spec_action_list(av.take(i as int)),
        decreases na - i,
    {
        let mut piece = "<action".to_owned();
        piece.append(attr("android:name", f.actions[i].as_str()).as_str());
        piece.append("/>");
        proof {
            assert(av[i as int] == f.actions@[i as int]@);
            assert(piece@ =~= spec_action_xml(av[i as int]));
            assert(av.take(i as int + 1).drop_last() =~= av.take(i as int));
            assert(av.take(i as int + 1).last() == av[i as int]);
        }
        out.append(piece.as_str());
        i = i + 1;
    }
    proof {
        assert(av.take(na as int) =~= av);
    }
    let nc: usize = f.categories.len();
    let ghost cv = f.categories.deep_view();
    proof {
        assert(cv.take(0) =~= Seq::<Seq<char>>::empty());
    }
    let mut j: usize = 0;
    while j < nc
        invariant
            nc == cv.len(),
            cv == f.categories.deep_view(),
            0 <= j <= nc,
            out@ == "<intent-filter>"@ + spec_action_list(f.actions.deep_view())
                + spec_category_list(cv.take(j as int)),
        decreases nc - j,
    {
        let mut piece = "<category".to_owned();
        piece.append(attr("android:name", f.categories[j].as_str()).as_str());
        piece.append("/>");
        proof {
            assert(cv[j as int] == f.categories@[j as int]@);
            assert(piece@ =~= spec_category_xml(cv[j as int]));
            assert(cv.take(j as int + 1).drop_last() =~= cv.take(j as int));
            assert(cv.take(j as int + 1).last() == cv[j as int]);
        }
        out.append(piece.as_str());
        j = j + 1;
    }
    proof {
        assert(cv.take(nc as int) =~= cv);
    }
    let nd: usize = f.data.len();
    let mut k: usize = 0;
    proof {
        assert(f.data@.take(0) =~= Seq::<IntentFilterData>::empty());
    }
    while k < nd
        invariant
            nd == f.data@.len(),
            0 <= k <= nd,
            out@ == "<intent-filter>"@ + spec_action_list(f.actions.deep_view())
                + spec_category_list(f.categories.deep_view()) + spec_data_list(
                f.data@.take(k as int),
            ),
        decreases nd - k,
    {
        out.append(data_xml(&f.data[k]).as_str());
        proof {
            assert(f.data@.take(k as int + 1).drop_last() =~= f.data@.take(k as int));
            assert(f.data@.take(k as int + 1).last() == f.data@[k as int]);
        }
        k = k + 1;
    }
    proof {
        assert(f.data@.take(nd as int) =~= f.data@);
    }
    out.append("</intent-filter>");
    proof {
        assert(out@ =~= spec_intent_filter_xml(*f));
    }
    out
}

pub open spec fn spec_filter_list(s: Seq<IntentFilter>) -> Seq<char>
    decreases s.len(),
{
    if s.len() == 0 {
        Seq::empty()
    } else {
        spec_filter_list(s.drop_last()) + spec_intent_filter_xml(s.last())
    }
}

pub fn filter_list(v: &Vec<IntentFilter>) -> (r: String)
    ensures
        r@ == spec_filter_list(v@),
{
    let n: usize = v.len();
    let mut out = String::new();
    let mut i: usize = 0;
    proof {
        assert(v@.take(0) =~= Seq::<IntentFilter>::empty());
    }
    while i < n
        invariant
            n == v@.len(),
            0 <= i <= n,
            out@ == spec_filter_list(v@.take(i as int)),
        decreases n - i,
    {
        out.append(intent_filter_xml(&v[i]).as_str());
        proof {
            assert(v@.take(i as int + 1).drop_last() =~= v@.take(i as int));
            assert(v@.take(i as int + 1).last() == v@[i as int]);
        }
        i = i + 1;
    }
    proof {
        assert(v@.take(n as int) =~= v@);
    }
    out
}

pub open spec fn spec_package_xml(p: Package) -> Seq<char> {
    "<package"@ + spec_attr("android:name"@, p.name@) + "/>"@
}

pub open spec fn spec_package_list(s: Seq<Package>) -> Seq<char>
    decreases s.len(),
{
    if s.len() == 0 {
        Seq::empty()
    } else {
        spec_package_list(s.drop_last()) + spec_package_xml(s.last())
    }
}

pub open spec fn spec_provider_xml(p: QueryProvider) -> Seq<char> {
    "<provider"@ + spec_attr("android:authorities"@, p.authorities@) + spec_attr(
        "android:name"@,
        p.name@,
    ) + "/>"@
}

pub open spec fn spec_provider_list(s: Seq<QueryProvider>) -> Seq<char>
    decreases s.len(),
{
    if s.len() == 0 {
        Seq::empty()
    } else {
        spec_provider_list(s.drop_last()) + spec_provider_xml(s.last())
    }
}

pub open spec fn spec_queries_xml(q: Queries) -> Seq<char> {
    "<queries>"@ + spec_package_list(q.package@) + spec_filter_list(q.intent@) + spec_provider_list(
        q.provider@,
    ) + "</queries>"@
}

pub fn queries_xml(q: &Queries) -> (r: String)
    ensures
        r@ == spec_queries_xml(*q),
{
    let mut out = "<queries>".to_owned();
    let np: usize = q.package.len();
    let mut i: usize = 0;
    proof {
        assert(q.package@.take(0) =~= Seq::<Package>::empty());
    }
    while i < np
        invariant
            np == q.package@.len(),
            0 <= i <= np,
            out@ == "<queries>"@ + spec_package_list(q.package@.take(i as int)),
        decreases np - i,
    {
        let mut piece = "<package".to_owned();
        piece.append(attr("android:name", q.package[i].name.as_str()).as_str());
        piece.append("/>");
        proof {
            assert(piece@ =~= spec_package_xml(q.package@[i as int]));
            assert(q.package@.take(i as int + 1).drop_last() =~= q.package@.take(i as int));
            assert(q.package@.take(i as int + 1).last() == q.package@[i as int]);
        }
        out.append(piece.as_str());
        i = i + 1;
    }
    proof {
        assert(q.package@.take(np as int) =~= q.package@);
    }
    out.append(filter_list(&q.intent).as_str());
    let nv: usize = q.provider.len();
    let mut j: usize = 0;
    proof {
        assert(q.provider@.take(0) =~= Seq::<QueryProvider>::empty());
    }
    while j < nv
        invariant
            nv == q.provider@.len(),
            0 <= j <= nv,
            out@ == "<queries>"@ + spec_package_list(q.package@) + spec_filter_list(q.intent@)
                + spec_provider_list(q.provider@.take(j as int)),
        decreases nv - j,
    {
        let mut piece = "<provider".to_owned();
        piece.append(attr("android:authorities", q.provider[j].authorities.as_str()).as_str());
        piece.append(attr("android:name", q.provider[j].name.as_str()).as_str());
        piece.append("/>");
        proof {
            assert(piece@ =~= spec_provider_xml(q.provider@[j as int]));
            assert(q.provider@.take(j as int + 1).drop_last() =~= q.provider@.take(j as int));
            assert(q.provider@.take(j as int + 1).last() == q.provider@[j as int]);
        }
        out.append(piece.as_str());
        j = j + 1;
    }
    proof {
        assert(q.provider@.take(nv as int) =~= q.provider@);
    }
    out.append("</queries>");
    proof {
        assert(out@ =~= spec_queries_xml(*q));
    }
    out
}

pub open spec fn spec_activity_xml(a: Activity) -> Seq<char> {
    "<activity"@ + spec_opt_attr("android:configChanges"@, a.config_changes) + spec_opt_attr(
        "android:label"@,
        a.label,
    ) + spec_opt_attr("android:launchMode"@, a.launch_mode) + spec_attr("android:name"@, a.name@)
        + spec_opt_attr("android:screenOrientation"@, a.orientation) + spec_opt_bool_attr(
        "android:exported"@,
        a.exported,
    ) + spec_opt_bool_attr("android:resizeableActivity"@, a.resizeable_activity)
        + spec_opt_bool_attr("android:alwaysRetainTaskState"@, a.always_retain_task_state) + ">"@
        + spec_meta_list(a.meta_data@) + spec_filter_list(a.intent_filter@) + "</activity>"@
}

pub fn activity_xml(a: &Activity) -> (r: String)
    ensures
        r@ == spec_activity_xml(*a),
{
    let mut out = "<activity".to_owned();
    out.append(opt_attr("android:configChanges", &a.config_changes).as_str());
    out.append(opt_attr("android:label", &a.label).as_str());
    out.append(opt_attr("android:launchMode", &a.launch_mode).as_str());
    out.append(attr("android:name", a.name.as_str()).as_str());
    out.append(opt_attr("android:screenOrientation", &a.orientation).as_str());
    out.append(opt_bool_attr("android:exported", &a.exported).as_str());
    out.append(opt_bool_attr("android:resizeableActivity", &a.resizeable_activity).as_str());
    out.append(opt_bool_attr("android:alwaysRetainTaskState", &a.always_retain_task_state).as_str());
    out.append(">");
    out.append(meta_list(&a.meta_data).as_str());
    out.append(filter_list(&a.intent_filter).as_str());
    out.append("</activity>");
    proof {
        assert(out@ =~= spec_activity_xml(*a));
    }
    out
}

pub open spec fn spec_application_xml(a: Application) -> Seq<char> {
    "<application"@ + spec_opt_bool_attr("android:debuggable"@, a.debuggable) + spec_opt_attr(
        "android:theme"@,
        a.theme,
    ) + spec_attr("android:hasCode"@, spec_bool_str(a.has_code)) + spec_opt_attr(
        "android:icon"@,
        a.icon,
    ) + spec_attr("android:label"@, a.label@) + spec_opt_bool_attr(
        "android:extractNativeLibs"@,
        a.extract_native_libs,
    ) + spec_opt_bool_attr("android:usesCleartextTraffic"@, a.uses_cleartext_traffic) + ">"@
        + spec_meta_list(a.meta_data@) + spec_activity_xml(a.activity) + "</application>"@
}

pub fn application_xml(a: &Application) -> (r: String)
    ensures
        r@ == spec_application_xml(*a),
{
    let mut out = "<application".to_owned();
    out.append(opt_bool_attr("android:debuggable", &a.debuggable).as_str());
    out.append(opt_attr("android:theme", &a.theme).as_str());
    out.append(bool_attr("android:hasCode", a.has_code).as_str());
    out.append(opt_attr("android:icon", &a.icon).as_str());
    out.append(attr("android:label", a.label.as_str()).as_str());
    out.append(opt_bool_attr("android:extractNativeLibs", &a.extract_native_libs).as_str());
    out.append(opt_bool_attr("android:usesCleartextTraffic", &a.uses_cleartext_traffic).as_str());
    out.append(">");
    out.append(meta_list(&a.meta_data).as_str());
    out.append(activity_xml(&a.activity).as_str());
    out.append("</application>");
    proof {
        assert(out@ =~= spec_application_xml(*a));
    }
    out
}

/// The whole manifest document.
#[verifier::opaque]
pub open spec fn spec_manifest_xml(m: AndroidManifest) -> Seq<char> {
    "<manifest"@ + spec_attr("xmlns:android"@, m.ns_android@) + spec_attr("package"@, m.package@)
        + spec_opt_attr("android:sharedUserId"@, m.shared_user_id) + spec_opt_u32_attr(
        "android:versionCode"@,
        m.version_code,
    ) + spec_opt_attr("android:versionName"@, m.version_name) + ">"@ + spec_sdk_xml(m.sdk)
        + spec_feature_list(m.uses_feature@) + spec_permission_list(m.uses_permission@) + (
    match m.queries {
        Some(q) => spec_queries_xml(q),
        None => Seq::<char>::empty(),
    }) + spec_application_xml(m.application) + "</manifest>"@
}

impl AndroidManifest {
    /// Renders the manifest descriptor document.
    pub fn to_xml(&self) -> (r: String)
        ensures
            r@ == spec_manifest_xml(*self),
    {
        let mut out = "<manifest".to_owned();
        out.append(attr("xmlns:android", self.ns_android.as_str()).as_str());
        out.append(attr("package", self.package.as_str()).as_str());
        out.append(opt_attr("android:sharedUserId", &self.shared_user_id).as_str());
        out.append(opt_u32_attr("android:versionCode", &self.version_code).as_str());
        out.append(opt_attr("android:versionName", &self.version_name).as_str());
        out.append(">");
        out.append(sdk_xml(&self.sdk).as_str());
        out.append(feature_list(&self.uses_feature).as_str());
        out.append(permission_list(&self.uses_permission).as_str());
        match &self.queries {
            Some(q) => {
                out.append(queries_xml(q).as_str());
            },
            None => {},
        }
        out.append(application_xml(&self.application).as_str());
        out.append("</manifest>");
        proof {
            reveal(spec_manifest_xml);
            assert(out@ =~= spec_manifest_xml(*self));
        }
        out
    }
}

} // verus!
