//! The resolved toolchain environment.
//!
//! An [`Ndk`] value holds the discovered SDK and toolchain roots, the
//! active build-tools version, the numeric build tag and the installed
//! platform levels.  Construction from the host environment is the
//! caller's job: it reads environment variables, directory listings and
//! metadata files, and hands their contents to the pure resolution and
//! parsing functions of this module, which carry the actual policy —
//! candidate ordering, version selection, platform-range filtering — in
//! their contracts.

use vstd::prelude::*;

verus! {

use vstd::string::StrSliceExecFns;
use vstd::string::StringExecFns;

use crate::cmd::Cmd;
use crate::cmd::CmdView;
use crate::cmd::Step;
use crate::cmd::StepView;
use crate::error::NdkError;
use crate::target::spec_android_abi;
use crate::target::spec_from_android_abi;
use crate::target::spec_ndk_triple;
use crate::target::Target;
use crate::strutil::all_digits;
use crate::strutil::digits_val;
use crate::strutil::is_digit;
use crate::strutil::lex_le;
use crate::strutil::lemma_lex_le_refl;
use crate::strutil::lemma_lex_le_total;
use crate::strutil::lemma_lex_le_trans;
use crate::strutil::contains_sub;
use crate::strutil::parse_u32;
use crate::strutil::path_join;
use crate::strutil::seq_contains_sub;
use crate::strutil::spec_find_idx;
use crate::strutil::spec_find_sub_idx;
use crate::strutil::spec_split;
use crate::strutil::split_char;
use crate::strutil::split_once_char;
use crate::strutil::split_once_sub;
use crate::strutil::str_eq;
use crate::strutil::lemma_find_idx_first;
use crate::strutil::lemma_find_idx_unique;
use crate::strutil::lemma_find_sub_idx_first;
use crate::strutil::lemma_find_sub_idx_unique;
use crate::strutil::spec_dec;
use crate::strutil::spec_path_join;
use crate::strutil::spec_trim;
use crate::strutil::str_lex_le;
use crate::strutil::strip_prefix_str;
use crate::strutil::trim;
use crate::strutil::u32_string;

broadcast use vstd::string::group_string_axioms;

/// A signing credential: keystore path and store password.
pub struct Key {
    pub path: String,
    pub password: String,
}

/// The password used for freshly created development keystores.
pub fn default_dev_keystore_password() -> (r: &'static str)
    ensures
        r@ == "android"@,
{
    "android"
}

/// The resolved toolchain environment.
pub struct Ndk {
    pub build_tools_path: String,
    pub user_home: String,
    pub ndk_path: String,
    pub sdk_path: String,
    pub build_tools_version: String,
    pub build_tag: u32,
    pub platforms: Vec<u32>,
}

/// Field-wise agreement of two environments.
pub open spec fn ndk_eq(a: Ndk, b: Ndk) -> bool {
    a.build_tools_path@ == b.build_tools_path@ && a.user_home@ == b.user_home@ && a.ndk_path@
        == b.ndk_path@ && a.sdk_path@ == b.sdk_path@ && a.build_tools_version@
        == b.build_tools_version@ && a.build_tag == b.build_tag && a.platforms@ == b.platforms@
}

fn clone_u32s(v: &Vec<u32>) -> (r: Vec<u32>)
    ensures
        r@ == v@,
{
    let n: usize = v.len();
    let mut out: Vec<u32> = Vec::new();
    let mut i: usize = 0;
    proof {
        assert(out@ =~= v@.take(0));
    }
    while i < n
        invariant
            n == v@.len(),
            0 <= i <= n,
            out@ == v@.take(i as int),
        decreases n - i,
    {
        out.push(v[i]);
        proof {
            assert(out@ =~= v@.take(i as int + 1));
        }
        i = i + 1;
    }
    proof {
        assert(v@.take(n as int) =~= v@);
    }
    out
}

impl Clone for Ndk {
    /// The clone agrees with the original field for field.
    fn clone(&self) -> (r: Self)
        ensures
            ndk_eq(r, *self),
    {
        Ndk {
            build_tools_path: self.build_tools_path.clone(),
            user_home: self.user_home.clone(),
            ndk_path: self.ndk_path.clone(),
            sdk_path: self.sdk_path.clone(),
            build_tools_version: self.build_tools_version.clone(),
            build_tag: self.build_tag,
            platforms: clone_u32s(&self.platforms),
        }
    }
}

/// The greatest element of a sequence of levels (zero when empty).
pub open spec fn seq_max_u32(s: Seq<u32>) -> u32
    decreases s.len(),
{
    if s.len() == 0 {
        0
    } else {
        let m = seq_max_u32(s.drop_last());
        if s.last() > m {
            s.last()
        } else {
            m
        }
    }
}

/// The levels of `s` that lie within `[lo, hi]`, in their original order.
pub open spec fn spec_filter_levels(s: Seq<u32>, lo: u32, hi: u32) -> Seq<u32>
    decreases s.len(),
{
    if s.len() == 0 {
        Seq::empty()
    } else {
        spec_filter_levels(s.drop_last(), lo, hi) + (if lo <= s.last() <= hi {
            seq![s.last()]
        } else {
            Seq::empty()
        })
    }
}

/// A level is in the filtered sequence exactly when it is in the input and
/// within the bounds.
pub proof fn lemma_filter_levels_contains(s: Seq<u32>, lo: u32, hi: u32, x: u32)
    ensures
        spec_filter_levels(s, lo, hi).contains(x) <==> (s.contains(x) && lo <= x <= hi),
    decreases s.len(),
{
    if s.len() > 0 {
        lemma_filter_levels_contains(s.drop_last(), lo, hi, x);
        let f = spec_filter_levels(s, lo, hi);
        let fp = spec_filter_levels(s.drop_last(), lo, hi);
        if f.contains(x) {
            let i = choose|i: int| 0 <= i < f.len() && f[i] == x;
            if i < fp.len() {
                assert(fp.contains(x));
                assert(s.drop_last().contains(x));
                let k = choose|k: int| 0 <= k < s.drop_last().len() && s.drop_last()[k] == x;
                assert(s[k] == x);
            } else {
                assert(x == s.last());
                assert(s[s.len() - 1] == x);
            }
        }
        if s.contains(x) && lo <= x <= hi {
            let k = choose|k: int| 0 <= k < s.len() && s[k] == x;
            if k < s.len() - 1 {
                assert(s.drop_last()[k] == x);
                assert(s.drop_last().contains(x));
                let i = choose|i: int| 0 <= i < fp.len() && fp[i] == x;
                assert(f[i] == x);
                assert(f.contains(x));
            } else {
                assert(f[f.len() - 1] == x);
                assert(f.contains(x));
            }
        }
    }
}

/// Keeps the levels within `[lo, hi]`, preserving order.
pub fn filter_platforms(levels: &Vec<u32>, lo: u32, hi: u32) -> (r: Vec<u32>)
    ensures
        r@ == spec_filter_levels(levels@, lo, hi),
{
    let n: usize = levels.len();
    let mut out: Vec<u32> = Vec::new();
    let mut i: usize = 0;
    proof {
        assert(levels@.take(0) =~= Seq::<u32>::empty());
    }
    while i < n
        invariant
            n == levels@.len(),
            0 <= i <= n,
            out@ == spec_filter_levels(levels@.take(i as int), lo, hi),
        decreases n - i,
    {
        let v = levels[i];
        proof {
            assert(levels@.take(i as int + 1).drop_last() =~= levels@.take(i as int));
            assert(levels@.take(i as int + 1).last() == levels@[i as int]);
        }
        if lo <= v && v <= hi {
            out.push(v);
        }
        i = i + 1;
    }
    proof {
        assert(levels@.take(n as int) =~= levels@);
    }
    out
}

/// The platform level named by a `android-<N>` directory entry, if any.
pub open spec fn spec_platform_level(s: Seq<char>) -> Option<u32> {
    let p = "android-"@;
    if s.len() >= p.len() && s.subrange(0, p.len() as int) == p {
        let d = s.skip(p.len() as int);
        if d.len() > 0 && all_digits(d) && digits_val(d) <= u32::MAX as nat {
            Some(digits_val(d) as u32)
        } else {
            None
        }
    } else {
        None
    }
}

/// Parses a platforms-directory entry name of the form `android-<N>`.
pub fn parse_platform_level(name: &str) -> (r: Option<u32>)
    ensures
        (match r {
            Some(v) => spec_platform_level(name@) == Some(v),
            None => spec_platform_level(name@) is None,
        }),
{
    match strip_prefix_str(name, "android-") {
        Some(rest) => parse_u32(rest.as_str()),
        None => None,
    }
}

/// A build-tools directory entry that counts as a version name: non-empty
/// and starting with an ASCII digit.
pub open spec fn is_version_name(s: Seq<char>) -> bool {
    s.len() > 0 && is_digit(s[0])
}

/// Selects the active build-tools version: the lexicographically greatest
/// entry that starts with a digit.  This is a raw string maximum, not a
/// semantic-version comparison; the policy is kept as the tools expect it.
pub fn select_build_tools_version(names: &Vec<String>) -> (r: Option<String>)
    ensures
        (match r {
            Some(m) => (exists|i: int|
                0 <= i < names.deep_view().len() && is_version_name(#[trigger] names.deep_view()[i])
                    && names.deep_view()[i] == m@) && forall|i: int|
                0 <= i < names.deep_view().len() && is_version_name(
                    #[trigger] names.deep_view()[i],
                ) ==> lex_le(names.deep_view()[i], m@),
            None => forall|i: int|
                0 <= i < names.deep_view().len() ==> !is_version_name(
                    #[trigger] names.deep_view()[i],
                ),
        }),
{
    let ghost nv = names.deep_view();
    let n: usize = names.len();
    let mut best: Option<String> = None;
    let mut i: usize = 0;
    while i < n
        invariant
            n == nv.len(),
            nv == names.deep_view(),
            0 <= i <= n,
            (match best {
                Some(b) => (exists|k: int|
                    0 <= k < i && is_version_name(#[trigger] nv[k]) && nv[k] == b@) && forall|
                    k: int,
                |
                    0 <= k < i && is_version_name(#[trigger] nv[k]) ==> lex_le(nv[k], b@),
                None => forall|k: int| 0 <= k < i ==> !is_version_name(#[trigger] nv[k]),
            }),
        decreases n - i,
    {
        let name: &String = &names[i];
        proof {
            assert(nv[i as int] == name@);
        }
        let is_cand = name.as_str().unicode_len() > 0 && {
            let c0 = name.as_str().get_char(0);
            (c0 as u32) >= 48 && (c0 as u32) <= 57
        };
        if is_cand {
            match &best {
                None => {
                    proof {
                        lemma_lex_le_refl(name@);
                    }
                    best = Some(name.clone());
                },
                Some(b) => {
                    if str_lex_le(b.as_str(), name.as_str()) {
                        proof {
                            let bv = b@;
                            assert forall|k: int|
                                0 <= k < i + 1 && is_version_name(#[trigger] nv[k]) implies lex_le(
                                nv[k],
                                name@,
                            ) by {
                                if k < i {
                                    lemma_lex_le_trans(nv[k], bv, name@);
                                } else {
                                    lemma_lex_le_refl(name@);
                                }
                            }
                        }
                        best = Some(name.clone());
                    } else {
                        proof {
                            lemma_lex_le_total(b@, name@);
                        }
                    }
                },
            }
        }
        i = i + 1;
    }
    best
}

/// The first configured value among an ordered candidate list.
pub open spec fn spec_first_some(vs: Seq<Option<Seq<char>>>) -> Option<Seq<char>>
    decreases vs.len(),
{
    if vs.len() == 0 {
        None
    } else {
        match vs[0] {
            Some(v) => Some(v),
            None => spec_first_some(vs.skip(1)),
        }
    }
}

proof fn lemma_first_some_step(vs: Seq<Option<Seq<char>>>, i: int)
    requires
        0 <= i < vs.len(),
        forall|j: int| 0 <= j < i ==> vs[j] is None,
    ensures
        spec_first_some(vs) == (match vs[i] {
            Some(v) => Some(v),
            None => spec_first_some(vs.skip(i + 1)),
        }),
    decreases i,
{
    if i == 0 {
        assert(vs.skip(1) =~= vs.skip(i + 1));
    } else {
        let t = vs.skip(1);
        assert(forall|j: int| 0 <= j < i - 1 ==> t[j] == vs[j + 1]);
        lemma_first_some_step(t, i - 1);
        assert(t[i - 1] == vs[i]);
        assert(t.skip(i) =~= vs.skip(i + 1));
    }
}

proof fn lemma_first_some_none(vs: Seq<Option<Seq<char>>>)
    requires
        forall|j: int| 0 <= j < vs.len() ==> vs[j] is None,
    ensures
        spec_first_some(vs) is None,
    decreases vs.len(),
{
    if vs.len() > 0 {
        assert(forall|j: int| 0 <= j < vs.skip(1).len() ==> vs.skip(1)[j] == vs[j + 1]);
        lemma_first_some_none(vs.skip(1));
    }
}

/// Resolves the toolchain root: the first configured candidate wins; with
/// none configured, the bundled subdirectory of the SDK root is used when
/// present, and otherwise resolution fails.
pub fn resolve_ndk_root(env_candidates: &Vec<Option<String>>, sdk_path: &str, bundle_exists: bool) -> (r:
    Result<String, NdkError>)
    ensures
        (match spec_first_some(env_candidates.deep_view()) {
            Some(p) => r matches Ok(q) && q@ == p,
            None => if bundle_exists {
                r matches Ok(q) && q@ == spec_path_join(sdk_path@, "ndk-bundle"@)
            } else {
                r matches Err(NdkError::NdkNotFound)
            },
        }),
{
    let ghost vs = env_candidates.deep_view();
    let n: usize = env_candidates.len();
    let mut i: usize = 0;
    while i < n
        invariant
            n == vs.len(),
            vs == env_candidates.deep_view(),
            0 <= i <= n,
            forall|j: int| 0 <= j < i ==> vs[j] is None,
        decreases n - i,
    {
        match &env_candidates[i] {
            Some(p) => {
                proof {
                    lemma_first_some_step(vs, i as int);
                }
                return Ok(p.clone());
            },
            None => {
                proof {
                    assert(vs[i as int] is None);
                }
            },
        }
        i = i + 1;
    }
    proof {
        lemma_first_some_none(vs);
    }
    if bundle_exists {
        Ok(path_join(sdk_path, "ndk-bundle"))
    } else {
        Err(NdkError::NdkNotFound)
    }
}

/// Resolves the per-user state directory: a configured legacy SDK-home
/// joined with `.android`, else the configured user home as given, else
/// the home directory joined with `.android`.
pub fn resolve_user_home(
    sdk_home: &Option<String>,
    user_home_var: &Option<String>,
    home_dir: &Option<String>,
) -> (r: Result<String, NdkError>)
    ensures
        (match sdk_home {
            Some(p) => r matches Ok(q) && q@ == spec_path_join(p@, ".android"@),
            None => match user_home_var {
                Some(p) => r matches Ok(q) && q@ == p@,
                None => match home_dir {
                    Some(p) => r matches Ok(q) && q@ == spec_path_join(p@, ".android"@),
                    None => r matches Err(NdkError::PathNotFound(h)) && h@ == "$HOME"@,
                },
            },
        }),
{
    match sdk_home {
        Some(p) => Ok(path_join(p.as_str(), ".android")),
        None => match user_home_var {
            Some(p) => Ok(p.clone()),
            None => match home_dir {
                Some(p) => Ok(path_join(p.as_str(), ".android")),
                None => Err(NdkError::PathNotFound("$HOME".to_owned())),
            },
        },
    }
}

impl Ndk {
    /// A usable environment holds at least one installed platform.
    pub open spec fn wf(self) -> bool {
        self.platforms@.len() > 0
    }

    /// Assembles an environment from resolved parts; fails exactly when no
    /// platform level survived resolution.
    pub fn new(
        sdk_path: String,
        ndk_path: String,
        user_home: String,
        build_tools_version: String,
        build_tag: u32,
        platforms: Vec<u32>,
    ) -> (r: Result<Ndk, NdkError>)
        ensures
            platforms@.len() == 0 ==> (r matches Err(NdkError::NoPlatformFound)),
            platforms@.len() > 0 ==> (r matches Ok(n) && n.wf() && n.sdk_path@ == sdk_path@
                && n.ndk_path@ == ndk_path@ && n.user_home@ == user_home@ && n.build_tools_version@
                == build_tools_version@ && n.build_tag == build_tag && n.platforms@ == platforms@
                && n.build_tools_path@ == spec_path_join(sdk_path@, "build-tools"@)),
    {
        if platforms.len() == 0 {
            return Err(NdkError::NoPlatformFound);
        }
        let build_tools_path = path_join(sdk_path.as_str(), "build-tools");
        Ok(
            Ndk {
                build_tools_path,
                user_home,
                ndk_path,
                sdk_path,
                build_tools_version,
                build_tag,
                platforms,
            },
        )
    }

    /// The toolchain root.
    pub fn ndk(&self) -> (r: &String)
        ensures
            r@ == self.ndk_path@,
    {
        &self.ndk_path
    }

    /// The active build-tools version string.
    pub fn build_tools_version(&self) -> (r: &String)
        ensures
            r@ == self.build_tools_version@,
    {
        &self.build_tools_version
    }

    /// The numeric build tag parsed from the toolchain metadata.
    pub fn build_tag(&self) -> (r: u32)
        ensures
            r == self.build_tag,
    {
        self.build_tag
    }

    /// The installed platform levels.
    pub fn platforms(&self) -> (r: &Vec<u32>)
        ensures
            r@ == self.platforms@,
    {
        &self.platforms
    }

    /// The SDK root.
    pub fn android_sdk(&self) -> (r: &String)
        ensures
            r@ == self.sdk_path@,
    {
        &self.sdk_path
    }

    /// The directory of the active build tools.
    pub fn build_tools(&self) -> (r: String)
        ensures
            r@ == spec_path_join(self.build_tools_path@, self.build_tools_version@),
    {
        path_join(self.build_tools_path.as_str(), self.build_tools_version.as_str())
    }

    /// A command for a tool of the active build tools; `exists` reports
    /// whether the tool's path is present on disk.
    pub fn build_tool(&self, tool: &str, exists: bool) -> (r: Result<Cmd, NdkError>)
        ensures
            exists ==> (r matches Ok(c) && c@ == (CmdView {
                prog: spec_path_join(
                    spec_path_join(self.build_tools_path@, self.build_tools_version@),
                    tool@,
                ),
                args: Seq::empty(),
                cwd: None,
            })),
            !exists ==> (r matches Err(NdkError::CmdNotFound(t)) && t@ == tool@),
    {
        if !exists {
            return Err(NdkError::CmdNotFound(tool.to_owned()));
        }
        let path = path_join(self.build_tools().as_str(), tool);
        Ok(Cmd::new(path))
    }

    /// The path of a platform tool; `exists` reports whether it is present.
    pub fn platform_tool_path(&self, tool: &str, exists: bool) -> (r: Result<String, NdkError>)
        ensures
            exists ==> (r matches Ok(p) && p@ == spec_path_join(
                spec_path_join(self.sdk_path@, "platform-tools"@),
                tool@,
            )),
            !exists ==> (r matches Err(NdkError::CmdNotFound(t)) && t@ == tool@),
    {
        if !exists {
            return Err(NdkError::CmdNotFound(tool.to_owned()));
        }
        Ok(path_join(path_join(self.sdk_path.as_str(), "platform-tools").as_str(), tool))
    }

    /// The path of the device bridge.
    pub fn adb_path(&self, exists: bool) -> (r: Result<String, NdkError>)
        ensures
            exists ==> (r matches Ok(p) && p@ == spec_path_join(
                spec_path_join(self.sdk_path@, "platform-tools"@),
                "adb"@,
            )),
            !exists ==> (r matches Err(NdkError::CmdNotFound(t)) && t@ == "adb"@),
    {
        self.platform_tool_path("adb", exists)
    }

    /// A command for a platform tool.
    pub fn platform_tool(&self, tool: &str, exists: bool) -> (r: Result<Cmd, NdkError>)
        ensures
            exists ==> (r matches Ok(c) && c@ == (CmdView {
                prog: spec_path_join(spec_path_join(self.sdk_path@, "platform-tools"@), tool@),
                args: Seq::empty(),
                cwd: None,
            })),
            !exists ==> (r matches Err(NdkError::CmdNotFound(t)) && t@ == tool@),
    {
        let path = self.platform_tool_path(tool, exists)?;
        Ok(Cmd::new(path))
    }

    /// The greatest installed platform level.
    pub fn highest_supported_platform(&self) -> (r: u32)
        requires
            self.wf(),
        ensures
            r == seq_max_u32(self.platforms@),
            self.platforms@.contains(r),
    {
        let n: usize = self.platforms.len();
        let mut best: u32 = self.platforms[0];
        proof {
            assert(seq_max_u32(Seq::<u32>::empty()) == 0);
            assert(self.platforms@.take(1).drop_last() =~= Seq::<u32>::empty());
            assert(self.platforms@.take(1).last() == self.platforms@[0]);
            assert(self.platforms@.take(1)[0] == self.platforms@[0]);
        }
        let mut i: usize = 1;
        while i < n
            invariant
                n == self.platforms@.len(),
                1 <= i <= n,
                best == seq_max_u32(self.platforms@.take(i as int)),
                self.platforms@.take(i as int).contains(best),
            decreases n - i,
        {
            let v = self.platforms[i];
            proof {
                assert(self.platforms@.take(i as int + 1).drop_last() =~= self.platforms@.take(
                    i as int,
                ));
                assert(self.platforms@.take(i as int + 1).last() == self.platforms@[i as int]);
            }
            if v > best {
                best = v;
                proof {
                    assert(self.platforms@.take(i as int + 1)[i as int] == best);
                }
            } else {
                proof {
                    let k = choose|k: int|
                        0 <= k < i && self.platforms@.take(i as int)[k] == best;
                    assert(self.platforms@.take(i as int + 1)[k] == best);
                }
            }
            i = i + 1;
        }
        proof {
            assert(self.platforms@.take(n as int) =~= self.platforms@);
        }
        best
    }

    /// The default target platform: the greatest installed level, capped
    /// at 36 (an externally imposed ceiling).  The result never exceeds 36
    /// and equals the greatest installed level whenever that is at most 36.
    pub fn default_target_platform(&self) -> (r: u32)
        requires
            self.wf(),
        ensures
            r == (if seq_max_u32(self.platforms@) < 36 {
                seq_max_u32(self.platforms@)
            } else {
                36u32
            }),
            r <= 36,
            seq_max_u32(self.platforms@) <= 36 ==> r == seq_max_u32(self.platforms@),
    {
        let high = self.highest_supported_platform();
        if high < 36 {
            high
        } else {
            36
        }
    }

    /// The directory of an installed platform; `exists` reports whether it
    /// is present.
    pub fn platform_dir(&self, platform: u32, exists: bool) -> (r: Result<String, NdkError>)
        ensures
            exists ==> (r matches Ok(p) && p@ == spec_path_join(
                spec_path_join(self.sdk_path@, "platforms"@),
                "android-"@ + spec_dec(platform as nat),
            )),
            !exists ==> (r matches Err(NdkError::PlatformNotFound(v)) && v == platform),
    {
        if !exists {
            return Err(NdkError::PlatformNotFound(platform));
        }
        let name = "android-".to_owned().concat(u32_string(platform).as_str());
        Ok(path_join(path_join(self.sdk_path.as_str(), "platforms").as_str(), name.as_str()))
    }

    /// The prebuilt toolchain directory for a host architecture; `exists`
    /// reports whether it is present.
    pub fn prebuilt_dir(&self, arch: &str, exists: bool) -> (r: Result<String, NdkError>)
        ensures
            exists ==> (r matches Ok(p) && p@ == spec_path_join(
                spec_path_join(self.ndk_path@, "prebuilt"@),
                arch@ + "-x86_64"@,
            )),
            !exists ==> (r matches Err(NdkError::PathNotFound(p)) && p@ == spec_path_join(
                spec_path_join(self.ndk_path@, "prebuilt"@),
                arch@ + "-x86_64"@,
            )),
    {
        let dir = path_join(
            path_join(self.ndk_path.as_str(), "prebuilt").as_str(),
            arch.to_owned().concat("-x86_64").as_str(),
        );
        if exists {
            Ok(dir)
        } else {
            Err(NdkError::PathNotFound(dir))
        }
    }

    /// The prebuilt toolchain directory: the `<arch>-x86_64` candidate
    /// when present, else the bare `<arch>` fallback when present, else
    /// failure naming the fallback.
    pub fn toolchain_dir(&self, arch: &str, primary_exists: bool, fallback_exists: bool) -> (r:
        Result<String, NdkError>)
        ensures
            primary_exists ==> (r matches Ok(p) && p@ == spec_path_join(
                spec_toolchain_base(self.ndk_path@),
                arch@ + "-x86_64"@,
            )),
            !primary_exists && fallback_exists ==> (r matches Ok(p) && p@ == spec_path_join(
                spec_toolchain_base(self.ndk_path@),
                arch@,
            )),
            !primary_exists && !fallback_exists ==> (r matches Err(NdkError::PathNotFound(p)) && p@
                == spec_path_join(spec_toolchain_base(self.ndk_path@), arch@)),
    {
        let base = path_join(
            path_join(path_join(self.ndk_path.as_str(), "toolchains").as_str(), "llvm").as_str(),
            "prebuilt",
        );
        if primary_exists {
            Ok(path_join(base.as_str(), arch.to_owned().concat("-x86_64").as_str()))
        } else {
            let fallback = path_join(base.as_str(), arch);
            if fallback_exists {
                Ok(fallback)
            } else {
                Err(NdkError::PathNotFound(fallback))
            }
        }
    }

    /// The C and C++ compiler driver paths under a resolved toolchain
    /// directory.  `ext` is the host's executable suffix, empty elsewhere.
    pub fn clang(&self, toolchain_dir: &str, ext: &str, clang_exists: bool, clang_pp_exists: bool) -> (r:
        Result<(String, String), NdkError>)
        ensures
            (
            {
                let c = spec_path_join(spec_path_join(toolchain_dir@, "bin"@), "clang"@) + ext@;
                let pp = spec_path_join(spec_path_join(toolchain_dir@, "bin"@), "clang++"@) + ext@;
                if !clang_exists {
                    r matches Err(NdkError::PathNotFound(p)) && p@ == c
                } else if !clang_pp_exists {
                    r matches Err(NdkError::PathNotFound(p)) && p@ == pp
                } else {
                    r matches Ok(q) && q.0@ == c && q.1@ == pp
                }
            }),
    {
        let bin = path_join(toolchain_dir, "bin");
        let clang = path_join(bin.as_str(), "clang").concat(ext);
        if !clang_exists {
            return Err(NdkError::PathNotFound(clang));
        }
        let clang_pp = path_join(bin.as_str(), "clang++").concat(ext);
        if !clang_pp_exists {
            return Err(NdkError::PathNotFound(clang_pp));
        }
        Ok((clang, clang_pp))
    }

    /// Locates a per-target toolchain binary: the GNU-named candidate
    /// `<triple>-<name><ext>` wins when present, else the LLVM-named
    /// candidate `llvm-<name><ext>`, else failure naming both candidates
    /// and the directory searched.
    pub fn toolchain_bin(
        &self,
        name: &str,
        target: Target,
        toolchain_dir: &str,
        ext: &str,
        gnu_exists: bool,
        llvm_exists: bool,
    ) -> (r: Result<String, NdkError>)
        ensures
            (
            {
                let bin_dir = spec_path_join(toolchain_dir@, "bin"@);
                let gnu = spec_ndk_triple(target) + "-"@ + name@ + ext@;
                let llvm = "llvm-"@ + name@ + ext@;
                if gnu_exists {
                    r matches Ok(p) && p@ == spec_path_join(bin_dir, gnu)
                } else if llvm_exists {
                    r matches Ok(p) && p@ == spec_path_join(bin_dir, llvm)
                } else {
                    r matches Err(NdkError::ToolchainBinaryNotFound {
                        toolchain_path,
                        gnu_bin,
                        llvm_bin,
                    }) && toolchain_path@ == bin_dir && gnu_bin@ == gnu && llvm_bin@ == llvm
                }
            }),
    {
        let bin_dir = path_join(toolchain_dir, "bin");
        let gnu_bin = target.ndk_triple().to_owned().concat("-").concat(name).concat(ext);
        if gnu_exists {
            return Ok(path_join(bin_dir.as_str(), gnu_bin.as_str()));
        }
        let llvm_bin = "llvm-".to_owned().concat(name).concat(ext);
        if llvm_exists {
            return Ok(path_join(bin_dir.as_str(), llvm_bin.as_str()));
        }
        Err(NdkError::ToolchainBinaryNotFound { toolchain_path: bin_dir, gnu_bin, llvm_bin })
    }

    /// The per-target system library directory under a resolved toolchain
    /// directory; `exists` reports whether it is present.
    pub fn sysroot_lib_dir(&self, target: Target, toolchain_dir: &str, exists: bool) -> (r: Result<
        String,
        NdkError,
    >)
        ensures
            (
            {
                let dir = spec_sysroot_lib_dir(toolchain_dir@, target);
                if exists {
                    r matches Ok(p) && p@ == dir
                } else {
                    r matches Err(NdkError::PathNotFound(p)) && p@ == dir
                }
            }),
    {
        let dir = path_join(
            path_join(
                path_join(path_join(toolchain_dir, "sysroot").as_str(), "usr").as_str(),
                "lib",
            ).as_str(),
            target.ndk_triple(),
        );
        if exists {
            Ok(dir)
        } else {
            Err(NdkError::PathNotFound(dir))
        }
    }

    /// The per-platform system library directory: the greatest present
    /// level at most `min_sdk_version` (down to 2) wins; else the least
    /// present level from `min_sdk_version` up to 99; else failure.
    /// `existing` lists the numeric subdirectories present under the
    /// per-target system library directory.
    pub fn sysroot_platform_lib_dir(
        &self,
        target: Target,
        toolchain_dir: &str,
        min_sdk_version: u32,
        existing: &Vec<u32>,
        lib_dir_exists: bool,
    ) -> (r: Result<String, NdkError>)
        ensures
            (
            {
                let dir = spec_sysroot_lib_dir(toolchain_dir@, target);
                if !lib_dir_exists {
                    r matches Err(NdkError::PathNotFound(p)) && p@ == dir
                } else {
                    match spec_search_down(existing@, min_sdk_version as int) {
                        Some(p) => r matches Ok(q) && q@ == spec_path_join(
                            dir,
                            spec_dec(p as nat),
                        ),
                        None => match spec_search_up(existing@, min_sdk_version as int) {
                            Some(p) => r matches Ok(q) && q@ == spec_path_join(
                                dir,
                                spec_dec(p as nat),
                            ),
                            None => r matches Err(NdkError::PlatformNotFound(v)) && v
                                == min_sdk_version,
                        },
                    }
                }
            }),
    {
        let dir = self.sysroot_lib_dir(target, toolchain_dir, lib_dir_exists)?;
        let mut p: u32 = min_sdk_version;
        while p > 1
            invariant
                lib_dir_exists,
                dir@ == spec_sysroot_lib_dir(toolchain_dir@, target),
                p <= min_sdk_version,
                spec_search_down(existing@, min_sdk_version as int) == spec_search_down(
                    existing@,
                    p as int,
                ),
            decreases p,
        {
            if contains_u32(existing, p) {
                proof {
                    assert(spec_search_down(existing@, p as int) == Some(p));
                }
                return Ok(path_join(dir.as_str(), u32_string(p).as_str()));
            }
            proof {
                assert(spec_search_down(existing@, p as int) == spec_search_down(
                    existing@,
                    p as int - 1,
                ));
            }
            p = p - 1;
        }
        proof {
            assert(spec_search_down(existing@, p as int) is None);
        }
        let mut q: u32 = min_sdk_version;
        while q < 100
            invariant
                lib_dir_exists,
                dir@ == spec_sysroot_lib_dir(toolchain_dir@, target),
                min_sdk_version <= q,
                q <= 100 || q == min_sdk_version,
                spec_search_down(existing@, min_sdk_version as int) is None,
                spec_search_up(existing@, min_sdk_version as int) == spec_search_up(
                    existing@,
                    q as int,
                ),
            decreases 100 - q,
        {
            if contains_u32(existing, q) {
                proof {
                    assert(spec_search_up(existing@, q as int) == Some(q));
                }
                return Ok(path_join(dir.as_str(), u32_string(q).as_str()));
            }
            proof {
                assert(spec_search_up(existing@, q as int) == spec_search_up(
                    existing@,
                    q as int + 1,
                ));
            }
            q = q + 1;
        }
        proof {
            assert(spec_search_up(existing@, q as int) is None);
        }
        Err(NdkError::PlatformNotFound(min_sdk_version))
    }

    /// A device-bridge command, addressed to a device when a serial is
    /// given; `adb_exists` reports whether the bridge binary is present.
    pub fn adb(&self, device_serial: Option<&str>, adb_exists: bool) -> (r: Result<Cmd, NdkError>)
        ensures
            adb_exists ==> (r matches Ok(c) && c@ == (CmdView {
                prog: spec_path_join(spec_path_join(self.sdk_path@, "platform-tools"@), "adb"@),
                args: spec_serial_args(device_serial.deep_view()),
                cwd: None,
            })),
            !adb_exists ==> (r matches Err(NdkError::CmdNotFound(t)) && t@ == "adb"@),
    {
        let path = self.adb_path(adb_exists)?;
        let mut c = Cmd::new(path);
        match device_serial {
            Some(s) => {
                c.arg("-s".to_owned());
                c.arg(s.to_owned());
                proof {
                    assert(c@.args =~= spec_serial_args(device_serial.deep_view()));
                }
            },
            None => {
                proof {
                    assert(c@.args =~= spec_serial_args(device_serial.deep_view()));
                }
            },
        }
        Ok(c)
    }

    /// The device-bridge invocation that queries the device's ABI.
    pub fn detect_abi_cmd(&self, device_serial: Option<&str>, adb_exists: bool) -> (r: Result<
        Cmd,
        NdkError,
    >)
        ensures
            adb_exists ==> (r matches Ok(c) && c@ == (CmdView {
                prog: spec_path_join(spec_path_join(self.sdk_path@, "platform-tools"@), "adb"@),
                args: spec_serial_args(device_serial.deep_view()) + seq![
                    "shell"@,
                    "getprop"@,
                    "ro.product.cpu.abi"@,
                ],
                cwd: None,
            })),
            !adb_exists ==> (r matches Err(NdkError::CmdNotFound(t)) && t@ == "adb"@),
    {
        let mut c = self.adb(device_serial, adb_exists)?;
        let ghost base = c@.args;
        c.arg("shell".to_owned());
        c.arg("getprop".to_owned());
        c.arg("ro.product.cpu.abi".to_owned());
        proof {
            assert(c@.args =~= base + seq!["shell"@, "getprop"@, "ro.product.cpu.abi"@]);
        }
        Ok(c)
    }

    /// The target reported by the device, parsed from the captured output
    /// of the ABI query: the trimmed output must name a supported ABI.
    pub fn detect_abi(&self, output: &str) -> (r: Result<Target, NdkError>)
        ensures
            (match spec_from_android_abi(spec_trim(output@)) {
                Some(t) => r == Ok::<Target, NdkError>(t),
                None => r matches Err(NdkError::UnsupportedTarget),
            }),
    {
        let trimmed = trim(output);
        Target::from_android_abi(trimmed.as_str())
    }

    /// The development signing key.  The key lives at `debug.keystore`
    /// under the per-user state directory with the well-known default
    /// password.  The returned steps create the state directory and, only
    /// when the keystore is absent, generate it with the key-management
    /// tool; an existing keystore is never regenerated.
    pub fn debug_key(&self, keytool: &str, keystore_exists: bool) -> (r: (Key, Vec<Step>))
        ensures
            r.0.path@ == spec_path_join(self.user_home@, "debug.keystore"@),
            r.0.password@ == "android"@,
            keystore_exists ==> r.1.deep_view() =~= seq![StepView::MakeDir(self.user_home@)],
            !keystore_exists ==> r.1.deep_view() =~= seq![
                StepView::MakeDir(self.user_home@),
                StepView::Run(
                    spec_keytool_cmd(keytool@, spec_path_join(self.user_home@, "debug.keystore"@)),
                ),
            ],
    {
        let path = path_join(self.user_home.as_str(), "debug.keystore");
        let password = default_dev_keystore_password().to_owned();
        let mut steps: Vec<Step> = Vec::new();
        steps.push(Step::MakeDir(self.user_home.clone()));
        if !keystore_exists {
            let mut c = Cmd::new(keytool.to_owned());
            c.arg("-genkey".to_owned());
            c.arg("-v".to_owned());
            c.arg("-keystore".to_owned());
            c.arg(path.clone());
            c.arg("-storepass".to_owned());
            c.arg(default_dev_keystore_password().to_owned());
            c.arg("-alias".to_owned());
            c.arg("androiddebugkey".to_owned());
            c.arg("-keypass".to_owned());
            c.arg(default_dev_keystore_password().to_owned());
            c.arg("-dname".to_owned());
            c.arg("CN=Android Debug,O=Android,C=US".to_owned());
            c.arg("-keyalg".to_owned());
            c.arg("RSA".to_owned());
            c.arg("-keysize".to_owned());
            c.arg("2048".to_owned());
            c.arg("-validity".to_owned());
            c.arg("10000".to_owned());
            proof {
                assert(c@.args =~= spec_keytool_cmd(keytool@, path@).args);
            }
            steps.push(Step::Run(c));
        }
        (Key { path, password }, steps)
    }

    /// The debugger-session plan: the target's ABI is recorded in a
    /// build-system stub under `jni/` in the launch directory, and the
    /// bundled debugger script is launched from there, addressed to the
    /// device and pointed at the device bridge and the activity.  `abi`
    /// is the device's detected target and `arch` the resolved host
    /// family; `prebuilt_exists` and `adb_exists` report whether the
    /// prebuilt directory and the bridge binary are present.
    pub fn ndk_gdb(
        &self,
        launch_dir: &str,
        launch_activity: &str,
        device_serial: Option<&str>,
        abi: Target,
        arch: &str,
        prebuilt_exists: bool,
        adb_exists: bool,
    ) -> (r: Result<Vec<Step>, NdkError>)
        ensures
            !prebuilt_exists ==> (r matches Err(NdkError::PathNotFound(p)) && p@ == spec_path_join(
                spec_path_join(self.ndk_path@, "prebuilt"@),
                arch@ + "-x86_64"@,
            )),
            prebuilt_exists && !adb_exists ==> (r matches Err(NdkError::CmdNotFound(t)) && t@
                == "adb"@),
            prebuilt_exists && adb_exists ==> (r matches Ok(steps) && steps.deep_view() =~= seq![
                StepView::MakeDir(spec_path_join(launch_dir@, "jni"@)),
                StepView::WriteFile(
                    spec_path_join(spec_path_join(launch_dir@, "jni"@), "Android.mk"@),
                    "APP_ABI="@ + spec_android_abi(abi) + "\nTARGET_OUT=\n"@,
                ),
                StepView::Run(spec_ndk_gdb_cmd(*self, launch_dir@, launch_activity@, device_serial.deep_view(), arch@)),
            ]),
    {
        let prebuilt = self.prebuilt_dir(arch, prebuilt_exists)?;
        let adb = self.adb_path(adb_exists)?;
        let jni_dir = path_join(launch_dir, "jni");
        let mk_path = path_join(jni_dir.as_str(), "Android.mk");
        let contents = "APP_ABI=".to_owned().concat(abi.android_abi()).concat("\nTARGET_OUT=\n");
        let mut c = Cmd::new(path_join(path_join(prebuilt.as_str(), "bin").as_str(), "ndk-gdb"));
        match device_serial {
            Some(s) => {
                c.arg("-s".to_owned());
                c.arg(s.to_owned());
                proof {
                    assert(c@.args =~= spec_serial_args(device_serial.deep_view()));
                }
            },
            None => {
                proof {
                    assert(c@.args =~= spec_serial_args(device_serial.deep_view()));
                }
            },
        }
        let ghost base = c@.args;
        c.arg("--adb".to_owned());
        c.arg(adb);
        c.arg("--launch".to_owned());
        c.arg(launch_activity.to_owned());
        c.current_dir(launch_dir.to_owned());
        proof {
            assert(c@.args =~= base + seq![
                "--adb"@,
                spec_path_join(spec_path_join(self.sdk_path@, "platform-tools"@), "adb"@),
                "--launch"@,
                launch_activity@,
            ]);
        }
        let mut steps: Vec<Step> = Vec::new();
        steps.push(Step::MakeDir(jni_dir));
        steps.push(Step::WriteFile(mk_path, contents));
        steps.push(Step::Run(c));
        proof {
            assert(steps.deep_view() =~= seq![
                StepView::MakeDir(spec_path_join(launch_dir@, "jni"@)),
                StepView::WriteFile(
                    spec_path_join(spec_path_join(launch_dir@, "jni"@), "Android.mk"@),
                    "APP_ABI="@ + spec_android_abi(abi) + "\nTARGET_OUT=\n"@,
                ),
                StepView::Run(spec_ndk_gdb_cmd(*self, launch_dir@, launch_activity@, device_serial.deep_view(), arch@)),
            ]);
        }
        Ok(steps)
    }
}

/// The debugger-script invocation of a session plan.
pub open spec fn spec_ndk_gdb_cmd(
    ndk: Ndk,
    launch_dir: Seq<char>,
    launch_activity: Seq<char>,
    ds: Option<Seq<char>>,
    arch: Seq<char>,
) -> CmdView {
    CmdView {
        prog: spec_path_join(
            spec_path_join(
                spec_path_join(spec_path_join(ndk.ndk_path@, "prebuilt"@), arch + "-x86_64"@),
                "bin"@,
            ),
            "ndk-gdb"@,
        ),
        args: spec_serial_args(ds) + seq![
            "--adb"@,
            spec_path_join(spec_path_join(ndk.sdk_path@, "platform-tools"@), "adb"@),
            "--launch"@,
            launch_activity,
        ],
        cwd: Some(launch_dir),
    }
}

/// Arguments addressing a device by serial, when one is given.
pub open spec fn spec_serial_args(ds: Option<Seq<char>>) -> Seq<Seq<char>> {
    match ds {
        Some(s) => seq!["-s"@, s],
        None => Seq::empty(),
    }
}

/// The prebuilt-toolchain parent directory of a toolchain root.
pub open spec fn spec_toolchain_base(ndk_path: Seq<char>) -> Seq<char> {
    spec_path_join(
        spec_path_join(spec_path_join(ndk_path, "toolchains"@), "llvm"@),
        "prebuilt"@,
    )
}

/// The per-target system library directory of a toolchain directory.
pub open spec fn spec_sysroot_lib_dir(toolchain_dir: Seq<char>, target: Target) -> Seq<char> {
    spec_path_join(
        spec_path_join(
            spec_path_join(spec_path_join(toolchain_dir, "sysroot"@), "usr"@),
            "lib"@,
        ),
        spec_ndk_triple(target),
    )
}

/// The greatest level at most `p` (and at least 2) present in `ex`.
pub open spec fn spec_search_down(ex: Seq<u32>, p: int) -> Option<u32>
    decreases p,
{
    if p < 2 {
        None
    } else if ex.contains(p as u32) {
        Some(p as u32)
    } else {
        spec_search_down(ex, p - 1)
    }
}

/// The least level at least `p` (and below 100) present in `ex`.
pub open spec fn spec_search_up(ex: Seq<u32>, p: int) -> Option<u32>
    decreases 100 - p,
{
    if p >= 100 {
        None
    } else if ex.contains(p as u32) {
        Some(p as u32)
    } else {
        spec_search_up(ex, p + 1)
    }
}

/// The generation invocation for a fresh development keystore.
pub open spec fn spec_keytool_cmd(keytool: Seq<char>, path: Seq<char>) -> CmdView {
    CmdView {
        prog: keytool,
        args: seq![
            "-genkey"@,
            "-v"@,
            "-keystore"@,
            path,
            "-storepass"@,
            "android"@,
            "-alias"@,
            "androiddebugkey"@,
            "-keypass"@,
            "android"@,
            "-dname"@,
            "CN=Android Debug,O=Android,C=US"@,
            "-keyalg"@,
            "RSA"@,
            "-keysize"@,
            "2048"@,
            "-validity"@,
            "10000"@,
        ],
        cwd: None,
    }
}

/// Membership test for a level list.
fn contains_u32(v: &Vec<u32>, x: u32) -> (r: bool)
    ensures
        r == v@.contains(x),
{
    let n: usize = v.len();
    let mut i: usize = 0;
    while i < n
        invariant
            n == v@.len(),
            0 <= i <= n,
            forall|j: int| 0 <= j < i ==> v@[j] != x,
        decreases n - i,
    {
        if v[i] == x {
            return true;
        }
        i = i + 1;
    }
    proof {
        assert(!v@.contains(x));
    }
    false
}

/// The host family, resolved from an explicit override first.  The
/// override wins when it names a known family as a substring; otherwise
/// the running process's own platform decides; anything else fails.
pub open spec fn spec_host_arch(h: Option<Seq<char>>, os: Seq<char>) -> Option<Seq<char>> {
    if spec_host_contains(h, "linux"@) {
        Some("linux"@)
    } else if spec_host_contains(h, "macos"@) {
        Some("darwin"@)
    } else if spec_host_contains(h, "windows"@) {
        Some("windows"@)
    } else if spec_host_contains(h, "android"@) {
        Some("android"@)
    } else if os == "linux"@ {
        Some("linux"@)
    } else if os == "macos"@ {
        Some("darwin"@)
    } else if os == "windows"@ {
        Some("windows"@)
    } else if os == "android"@ {
        Some("android"@)
    } else {
        None
    }
}

pub open spec fn spec_host_contains(h: Option<Seq<char>>, pat: Seq<char>) -> bool {
    match h {
        Some(s) => seq_contains_sub(s, pat),
        None => false,
    }
}

/// Resolves the host family used to locate prebuilt toolchains.
/// `host_env` is the explicit override; `build_os` names the running
/// process's platform.
pub fn host_arch(host_env: &Option<String>, build_os: &str) -> (r: Result<String, NdkError>)
    ensures
        (match spec_host_arch(host_env.deep_view(), build_os@) {
            Some(a) => r matches Ok(s) && s@ == a,
            None => match host_env {
                Some(h) => r matches Err(NdkError::UnsupportedHost(x)) && x@ == h@,
                None => r matches Err(NdkError::UnsupportedTarget),
            },
        }),
{
    match host_env {
        Some(h) => {
            if contains_sub(h.as_str(), "linux") {
                return Ok("linux".to_owned());
            }
            if contains_sub(h.as_str(), "macos") {
                return Ok("darwin".to_owned());
            }
            if contains_sub(h.as_str(), "windows") {
                return Ok("windows".to_owned());
            }
            if contains_sub(h.as_str(), "android") {
                return Ok("android".to_owned());
            }
        },
        None => {},
    }
    if str_eq(build_os, "linux") {
        Ok("linux".to_owned())
    } else if str_eq(build_os, "macos") {
        Ok("darwin".to_owned())
    } else if str_eq(build_os, "windows") {
        Ok("windows".to_owned())
    } else if str_eq(build_os, "android") {
        Ok("android".to_owned())
    } else {
        match host_env {
            Some(h) => Err(NdkError::UnsupportedHost(h.clone())),
            None => Err(NdkError::UnsupportedTarget),
        }
    }
}

/// The revision value carried by a properties line: everything after the
/// first `=` when the part before it trims to `Pkg.Revision`.
pub open spec fn spec_rev_value_of_line(l: Seq<char>) -> Option<Seq<char>> {
    match spec_find_idx(l, '=') {
        Some(k) => if spec_trim(l.take(k)) == "Pkg.Revision"@ {
            Some(l.skip(k + 1))
        } else {
            None
        },
        None => None,
    }
}

pub open spec fn spec_first_rev_value(ls: Seq<Seq<char>>) -> Option<Seq<char>>
    decreases ls.len(),
{
    if ls.len() == 0 {
        None
    } else {
        match spec_rev_value_of_line(ls[0]) {
            Some(v) => Some(v),
            None => spec_first_rev_value(ls.skip(1)),
        }
    }
}

/// The build tag in a revision value: its third dot-separated component,
/// up to an optional dash suffix, read as a decimal number.
pub open spec fn spec_third_component_tag(v: Seq<char>) -> Option<u32> {
    let parts = spec_split(spec_trim(v), '.');
    if parts.len() < 3 {
        None
    } else {
        let p = parts[2];
        let q = match spec_find_idx(p, '-') {
            Some(k) => p.take(k),
            None => p,
        };
        if q.len() > 0 && all_digits(q) && digits_val(q) <= u32::MAX as nat {
            Some(digits_val(q) as u32)
        } else {
            None
        }
    }
}

/// The numeric build tag of a properties text: the first `Pkg.Revision`
/// line decides, and its value's third component carries the tag.
pub open spec fn spec_build_tag(text: Seq<char>) -> Option<u32> {
    match spec_first_rev_value(spec_split(text, '\n')) {
        Some(v) => spec_third_component_tag(v),
        None => None,
    }
}

/// Parses the numeric build tag from the toolchain's properties text.
/// Lines without `=` are ignored; the first line whose key trims to
/// `Pkg.Revision` decides; a missing or unparseable revision is malformed.
pub fn parse_build_tag(text: &str) -> (r: Result<u32, NdkError>)
    ensures
        (match spec_build_tag(text@) {
            Some(v) => r == Ok::<u32, NdkError>(v),
            None => r matches Err(NdkError::MalformedMetadata(m)) && m@ == "source.properties"@,
        }),
{
    let lines = split_char(text, '\n');
    let ghost ls = spec_split(text@, '\n');
    let n: usize = lines.len();
    let mut i: usize = 0;
    let mut found: Option<String> = None;
    proof {
        assert(ls.skip(0) =~= ls);
    }
    while i < n && found.is_none()
        invariant
            n == ls.len(),
            ls == lines.deep_view(),
            0 <= i <= n,
            (match found {
                Some(v) => spec_first_rev_value(ls) == Some(v@),
                None => spec_first_rev_value(ls) == spec_first_rev_value(ls.skip(i as int)),
            }),
        decreases n - i,
    {
        let line = &lines[i];
        proof {
            assert(ls[i as int] == line@);
            assert(ls.skip(i as int)[0] == ls[i as int]);
        }
        match split_once_char(line.as_str(), '=') {
            Some(kv) => {
                let (key, value) = kv;
                proof {
                    let k = choose|k: int|
                        0 <= k < line@.len() && line@[k] == '=' && (forall|j: int|
                            0 <= j < k ==> line@[j] != '=') && key@ == line@.take(k) && value@
                            == line@.skip(k + 1);
                    lemma_find_idx_unique(line@, '=', k);
                }
                let keyt = trim(key.as_str());
                if str_eq(keyt.as_str(), "Pkg.Revision") {
                    proof {
                        assert(spec_rev_value_of_line(ls[i as int]) == Some(value@));
                    }
                    found = Some(value);
                } else {
                    proof {
                        assert(spec_rev_value_of_line(ls[i as int]) is None);
                        assert(ls.skip(i as int).skip(1) =~= ls.skip(i as int + 1));
                    }
                }
            },
            None => {
                proof {
                    lemma_find_idx_first(line@, '=');
                    assert(spec_find_idx(line@, '=') is None);
                    assert(spec_rev_value_of_line(ls[i as int]) is None);
                    assert(ls.skip(i as int).skip(1) =~= ls.skip(i as int + 1));
                }
            },
        }
        i = i + 1;
    }
    match found {
        Some(value) => {
            let vt = trim(value.as_str());
            let parts = split_char(vt.as_str(), '.');
            if parts.len() < 3 {
                return Err(NdkError::MalformedMetadata("source.properties".to_owned()));
            }
            let p = &parts[2];
            proof {
                assert(p@ == parts.deep_view()[2]);
            }
            let q: String = match split_once_char(p.as_str(), '-') {
                Some(qr) => {
                    let (qq, rest) = qr;
                    proof {
                        let k = choose|k: int|
                            0 <= k < p@.len() && p@[k] == '-' && (forall|j: int|
                                0 <= j < k ==> p@[j] != '-') && qq@ == p@.take(k) && rest@
                                == p@.skip(k + 1);
                        lemma_find_idx_unique(p@, '-', k);
                    }
                    qq
                },
                None => {
                    proof {
                        lemma_find_idx_first(p@, '-');
                        assert(spec_find_idx(p@, '-') is None);
                    }
                    p.clone()
                },
            };
            match parse_u32(q.as_str()) {
                Some(v) => Ok(v),
                None => Err(NdkError::MalformedMetadata("source.properties".to_owned())),
            }
        },
        None => {
            proof {
                assert(ls.skip(n as int) =~= Seq::<Seq<char>>::empty());
                assert(spec_first_rev_value(ls.skip(n as int)) is None);
            }
            Err(NdkError::MalformedMetadata("source.properties".to_owned()))
        },
    }
}

/// The value carried by a constants line: everything after the first
/// ` := ` when the part before it equals the key exactly.
pub open spec fn spec_mk_value_of_line(l: Seq<char>, key: Seq<char>) -> Option<Seq<char>> {
    match spec_find_sub_idx(l, " := "@) {
        Some(k) => if l.take(k) == key {
            Some(l.skip(k + " := "@.len()))
        } else {
            None
        },
        None => None,
    }
}

pub open spec fn spec_first_mk_value(ls: Seq<Seq<char>>, key: Seq<char>) -> Option<Seq<char>>
    decreases ls.len(),
{
    if ls.len() == 0 {
        None
    } else {
        match spec_mk_value_of_line(ls[0], key) {
            Some(v) => Some(v),
            None => spec_first_mk_value(ls.skip(1), key),
        }
    }
}

/// The level bound named by a key in a constants text: the first line
/// with that key decides, and its value must be a decimal number.
pub open spec fn spec_mk_level(ls: Seq<Seq<char>>, key: Seq<char>) -> Option<u32> {
    match spec_first_mk_value(ls, key) {
        Some(v) => if v.len() > 0 && all_digits(v) && digits_val(v) <= u32::MAX as nat {
            Some(digits_val(v) as u32)
        } else {
            None
        },
        None => None,
    }
}

/// The two platform bounds of the toolchain's constants text.
pub open spec fn spec_platform_bounds(text: Seq<char>) -> Option<(u32, u32)> {
    let ls = spec_split(text, '\n');
    match spec_mk_level(ls, "NDK_MIN_PLATFORM_LEVEL"@) {
        Some(a) => match spec_mk_level(ls, "NDK_MAX_PLATFORM_LEVEL"@) {
            Some(b) => Some((a, b)),
            None => None,
        },
        None => None,
    }
}

/// The value of the first constants line carrying the given key.
fn lookup_mk_value(lines: &Vec<String>, key: &str) -> (r: Option<String>)
    ensures
        (match spec_first_mk_value(lines.deep_view(), key@) {
            Some(v) => r matches Some(s) && s@ == v,
            None => r is None,
        }),
{
    let ghost ls = lines.deep_view();
    let n: usize = lines.len();
    let mut i: usize = 0;
    proof {
        assert(ls.skip(0) =~= ls);
    }
    while i < n
        invariant
            n == ls.len(),
            ls == lines.deep_view(),
            0 <= i <= n,
            spec_first_mk_value(ls, key@) == spec_first_mk_value(ls.skip(i as int), key@),
        decreases n - i,
    {
        let line = &lines[i];
        proof {
            assert(ls[i as int] == line@);
            assert(ls.skip(i as int)[0] == ls[i as int]);
        }
        match split_once_sub(line.as_str(), " := ") {
            Some(kv) => {
                let (k_part, v_part) = kv;
                proof {
                    let k = choose|k: int|
                        0 <= k && k + " := "@.len() <= line@.len() && line@.subrange(
                            k,
                            k + " := "@.len() as int,
                        ) == " := "@ && (forall|j: int|
                            0 <= j < k ==> #[trigger] line@.subrange(j, j + " := "@.len() as int)
                                != " := "@) && k_part@ == line@.take(k) && v_part@ == line@.skip(
                            k + " := "@.len() as int,
                        );
                    lemma_find_sub_idx_unique(line@, " := "@, k);
                }
                if str_eq(k_part.as_str(), key) {
                    proof {
                        assert(spec_mk_value_of_line(ls[i as int], key@) == Some(v_part@));
                    }
                    return Some(v_part);
                }
                proof {
                    assert(spec_mk_value_of_line(ls[i as int], key@) is None);
                    assert(ls.skip(i as int).skip(1) =~= ls.skip(i as int + 1));
                }
            },
            None => {
                proof {
                    lemma_find_sub_idx_first(line@, " := "@);
                    assert(spec_find_sub_idx(line@, " := "@) is None);
                    assert(spec_mk_value_of_line(ls[i as int], key@) is None);
                    assert(ls.skip(i as int).skip(1) =~= ls.skip(i as int + 1));
                }
            },
        }
        i = i + 1;
    }
    proof {
        assert(ls.skip(n as int) =~= Seq::<Seq<char>>::empty());
        assert(spec_first_mk_value(ls.skip(n as int), key@) is None);
    }
    None
}

/// Parses the two supported platform bounds from the toolchain's
/// constants text; a missing key or a non-numeric value is malformed.
pub fn parse_platform_bounds(text: &str) -> (r: Result<(u32, u32), NdkError>)
    ensures
        (match spec_platform_bounds(text@) {
            Some(b) => r == Ok::<(u32, u32), NdkError>(b),
            None => r matches Err(NdkError::MalformedMetadata(m)) && m@ == "platforms.mk"@,
        }),
{
    let lines = split_char(text, '\n');
    let min_v = lookup_mk_value(&lines, "NDK_MIN_PLATFORM_LEVEL");
    let max_v = lookup_mk_value(&lines, "NDK_MAX_PLATFORM_LEVEL");
    match (min_v, max_v) {
        (Some(a), Some(b)) => match (parse_u32(a.as_str()), parse_u32(b.as_str())) {
            (Some(x), Some(y)) => Ok((x, y)),
            _ => Err(NdkError::MalformedMetadata("platforms.mk".to_owned())),
        },
        _ => Err(NdkError::MalformedMetadata("platforms.mk".to_owned())),
    }
}

} // verus!
