//! The typestate build pipeline.
//!
//! A build moves through four stages: an [`ApkConfig`] produces an
//! [`UnalignedApk`] together with the steps that compile and link the
//! resources; the unaligned stage collects native libraries under the
//! debug-symbol policy; aligning consumes it and yields an
//! [`UnsignedApk`]; signing consumes that and yields an [`Apk`] handle for
//! device operations.  Stage-illegal operations cannot be expressed: each
//! transition consumes its stage value.  Every stage returns the external
//! invocations as data; the caller performs them in order and stops at the
//! first failure.

use vstd::prelude::*;

verus! {

use vstd::string::StrSliceExecFns;
use vstd::string::StringExecFns;

use crate::cmd::Cmd;
use crate::cmd::CmdView;
use crate::cmd::Step;
use crate::cmd::StepView;
use crate::error::NdkError;
use crate::manifest::spec_manifest_xml;
use crate::manifest::AndroidManifest;
use crate::ndk::ndk_eq;
use crate::ndk::Key;
use crate::ndk::Ndk;
use crate::strutil::all_digits;
use crate::strutil::digits_val;
use crate::strutil::dwarf_path;
use crate::strutil::ends_with_str;
use crate::strutil::file_name_of;
use crate::strutil::lines;
use crate::strutil::normalize_slashes;
use crate::strutil::parse_u32;
use crate::strutil::path_join;
use crate::strutil::spec_dwarf_path;
use crate::strutil::spec_file_name;
use crate::strutil::spec_find_idx;
use crate::strutil::spec_lines;
use crate::strutil::spec_normalize_slashes;
use crate::strutil::spec_path_join;
use crate::strutil::spec_dec;
use crate::strutil::split_once_char;
use crate::strutil::str_eq;
use crate::strutil::strip_prefix_str;
use crate::strutil::u32_string;
use crate::strutil::lemma_find_idx_first;
use crate::strutil::lemma_find_idx_unique;
use crate::target::spec_android_abi;
use crate::target::Target;

broadcast use vstd::string::group_string_axioms;

/// How debug symbols of staged native libraries are treated.
#[derive(Clone, Copy, Debug, PartialEq, Eq, Structural)]
pub enum StripConfig {
    /// Copy the library as it is.
    Default,
    /// Strip debug symbols while copying.
    Strip,
    /// Strip debug symbols, extract them to a sibling file, and embed a
    /// reference to that sibling in the stripped library.
    Split,
}

impl Default for StripConfig {
    /// The default policy copies libraries untouched.
    fn default() -> (r: StripConfig)
        ensures
            r == StripConfig::Default,
    {
        StripConfig::Default
    }
}

/// The immutable per-build descriptor.
pub struct ApkConfig {
    pub ndk: Ndk,
    pub build_dir: String,
    pub apk_name: String,
    pub use_aapt2: bool,
    pub assets: Option<String>,
    pub resources: Option<String>,
    pub java_classes: String,
    pub manifest: AndroidManifest,
    pub disable_aapt_compression: bool,
    pub strip: StripConfig,
    pub reverse_port_forward: Vec<(String, String)>,
}

/// The intermediate archive path of a build.
pub open spec fn spec_unaligned_apk(c: ApkConfig) -> Seq<char> {
    spec_path_join(c.build_dir@, c.apk_name@ + "-unaligned.apk"@)
}

/// The final archive path of a build.
pub open spec fn spec_apk(c: ApkConfig) -> Seq<char> {
    spec_path_join(c.build_dir@, c.apk_name@ + ".apk"@)
}

/// The manifest descriptor path of a build.
pub open spec fn spec_manifest_path(c: ApkConfig) -> Seq<char> {
    spec_path_join(c.build_dir@, "AndroidManifest.xml"@)
}

/// The staging name the optimization pass reads from: the package name
/// inside the build directory.
pub open spec fn spec_staging(c: ApkConfig) -> Seq<char> {
    spec_path_join(c.build_dir@, c.manifest.package@)
}

/// Whether the manifest marks the package debuggable.
pub open spec fn spec_debuggable(c: ApkConfig) -> bool {
    match c.manifest.application.debuggable {
        Some(b) => b,
        None => false,
    }
}

/// A build-tool invocation: the tool under the active build tools, run in
/// the build directory.
pub open spec fn spec_build_tool_cmd(c: ApkConfig, tool: Seq<char>, args: Seq<Seq<char>>) -> CmdView {
    CmdView {
        prog: spec_path_join(
            spec_path_join(c.ndk.build_tools_path@, c.ndk.build_tools_version@),
            tool,
        ),
        args,
        cwd: Some(c.build_dir@),
    }
}

/// The intermediate compiled-resources directory.
pub open spec fn spec_compiled_res_dir(c: ApkConfig) -> Seq<char> {
    spec_path_join(c.build_dir@, "compiled_"@ + c.manifest.package@ + "_resource"@)
}

pub open spec fn spec_aapt2_compile_cmd(c: ApkConfig) -> CmdView {
    spec_build_tool_cmd(
        c,
        "aapt2"@,
        seq!["compile"@, "-o"@, spec_compiled_res_dir(c)] + (match c.resources {
            Some(r) => seq!["--dir"@, r@],
            None => Seq::empty(),
        }),
    )
}

pub open spec fn spec_aapt2_link_cmd(c: ApkConfig, jar: Seq<char>) -> CmdView {
    spec_build_tool_cmd(
        c,
        "aapt2"@,
        seq![
            "link"@,
            "-o"@,
            spec_unaligned_apk(c),
            "--manifest"@,
            "AndroidManifest.xml"@,
            "-I"@,
            jar,
        ] + (if c.disable_aapt_compression {
            seq!["--no-compress"@, "-0"@, ""@]
        } else {
            Seq::empty()
        }) + (match c.assets {
            Some(a) => seq!["-A"@, a@],
            None => Seq::empty(),
        }),
    )
}

pub open spec fn spec_aapt2_optimize_cmd(c: ApkConfig) -> CmdView {
    spec_build_tool_cmd(
        c,
        "aapt2"@,
        seq![
            "optimize"@,
            "-o"@,
            spec_unaligned_apk(c),
            spec_staging(c),
            "--enable-sparse-encoding"@,
        ],
    )
}

pub open spec fn spec_aapt_package_cmd(c: ApkConfig, jar: Seq<char>) -> CmdView {
    spec_build_tool_cmd(
        c,
        "aapt"@,
        seq![
            "package"@,
            "-f"@,
            "-F"@,
            spec_unaligned_apk(c),
            "-M"@,
            "AndroidManifest.xml"@,
            "-I"@,
            jar,
        ] + (if c.disable_aapt_compression {
            seq!["-0"@, ""@]
        } else {
            Seq::empty()
        }) + (match c.resources {
            Some(r) => seq!["-S"@, r@],
            None => Seq::empty(),
        }) + (match c.assets {
            Some(a) => seq!["-A"@, a@],
            None => Seq::empty(),
        }),
    )
}

/// Everything the creation stage performs, in order: the build directory
/// and the manifest descriptor are written first; with the modern resource
/// pipeline, resources are compiled and linked, and a non-debuggable
/// package is additionally optimized through a staging rename whose
/// staging file is removed whether or not the pass succeeds; with the
/// legacy pipeline, the single packaging invocation follows.  The
/// intermediate compiled-resources entry remains in the build directory
/// as a caller-owned byproduct.
pub open spec fn spec_create_steps(c: ApkConfig, jar: Seq<char>) -> Seq<StepView> {
    let base = seq![
        StepView::MakeDir(c.build_dir@),
        StepView::WriteFile(spec_manifest_path(c), spec_manifest_xml(c.manifest)),
    ];
    if c.use_aapt2 {
        base + seq![
            StepView::Run(spec_aapt2_compile_cmd(c)),
            StepView::Run(spec_aapt2_link_cmd(c, jar)),
        ] + (if !spec_debuggable(c) {
            seq![
                StepView::Rename(spec_unaligned_apk(c), spec_staging(c)),
                StepView::RunWithCleanup(spec_aapt2_optimize_cmd(c), spec_staging(c)),
            ]
        } else {
            Seq::empty()
        })
    } else {
        base + seq![StepView::Run(spec_aapt_package_cmd(c, jar))]
    }
}

impl ApkConfig {
    /// The intermediate archive path.
    pub fn unaligned_apk(&self) -> (r: String)
        ensures
            r@ == spec_unaligned_apk(*self),
    {
        path_join(self.build_dir.as_str(), self.apk_name.clone().concat("-unaligned.apk").as_str())
    }

    /// The archive path the signing stage writes.
    pub fn apk(&self) -> (r: String)
        ensures
            r@ == spec_apk(*self),
    {
        path_join(self.build_dir.as_str(), self.apk_name.clone().concat(".apk").as_str())
    }

    /// A build-tool command, run in the build directory.
    fn build_tool(&self, tool: &str, exists: bool) -> (r: Result<Cmd, NdkError>)
        ensures
            exists ==> (r matches Ok(c) && c@ == spec_build_tool_cmd(*self, tool@, Seq::empty())),
            !exists ==> (r matches Err(NdkError::CmdNotFound(t)) && t@ == tool@),
    {
        let mut c = self.ndk.build_tool(tool, exists)?;
        c.current_dir(self.build_dir.clone());
        Ok(c)
    }

    /// Opens the pipeline: returns the unaligned stage with an empty
    /// pending-library set, together with the creation steps.  `jar` is
    /// the platform API archive to link against and `tool_exists` reports
    /// whether the resource tool of the selected pipeline is present.
    /// The resource-compilation invocation of the modern pipeline.
    fn aapt2_compile(&self, exists: bool) -> (r: Result<Cmd, NdkError>)
        ensures
            exists ==> (r matches Ok(c) && c@ == spec_aapt2_compile_cmd(*self)),
            !exists ==> (r matches Err(NdkError::CmdNotFound(t)) && t@ == "aapt2"@),
    {
        let mut compile = self.build_tool("aapt2", exists)?;
        compile.arg("compile".to_owned());
        compile.arg("-o".to_owned());
        compile.arg(
            path_join(
                self.build_dir.as_str(),
                "compiled_".to_owned().concat(self.manifest.package.as_str()).concat(
                    "_resource",
                ).as_str(),
            ),
        );
        match &self.resources {
            Some(res) => {
                compile.arg("--dir".to_owned());
                compile.arg(res.clone());
            },
            None => {},
        }
        proof {
            assert(compile@.args =~= spec_aapt2_compile_cmd(*self).args);
        }
        Ok(compile)
    }

    /// The resource-linking invocation of the modern pipeline.
    fn aapt2_link(&self, jar: &str, exists: bool) -> (r: Result<Cmd, NdkError>)
        ensures
            exists ==> (r matches Ok(c) && c@ == spec_aapt2_link_cmd(*self, jar@)),
            !exists ==> (r matches Err(NdkError::CmdNotFound(t)) && t@ == "aapt2"@),
    {
        let mut link = self.build_tool("aapt2", exists)?;
        link.arg("link".to_owned());
        link.arg("-o".to_owned());
        link.arg(self.unaligned_apk());
        link.arg("--manifest".to_owned());
        link.arg("AndroidManifest.xml".to_owned());
        link.arg("-I".to_owned());
        link.arg(jar.to_owned());
        if self.disable_aapt_compression {
            link.arg("--no-compress".to_owned());
            link.arg("-0".to_owned());
            link.arg("".to_owned());
        }
        match &self.assets {
            Some(a) => {
                link.arg("-A".to_owned());
                link.arg(a.clone());
            },
            None => {},
        }
        proof {
            assert(link@.args =~= spec_aapt2_link_cmd(*self, jar@).args);
        }
        Ok(link)
    }

    /// The optimization invocation of the modern pipeline, reading from
    /// the staging name and writing the intermediate archive.
    fn aapt2_optimize(&self, exists: bool) -> (r: Result<Cmd, NdkError>)
        ensures
            exists ==> (r matches Ok(c) && c@ == spec_aapt2_optimize_cmd(*self)),
            !exists ==> (r matches Err(NdkError::CmdNotFound(t)) && t@ == "aapt2"@),
    {
        let mut optimize = self.build_tool("aapt2", exists)?;
        optimize.arg("optimize".to_owned());
        optimize.arg("-o".to_owned());
        optimize.arg(self.unaligned_apk());
        optimize.arg(path_join(self.build_dir.as_str(), self.manifest.package.as_str()));
        optimize.arg("--enable-sparse-encoding".to_owned());
        proof {
            assert(optimize@.args =~= spec_aapt2_optimize_cmd(*self).args);
        }
        Ok(optimize)
    }

    /// The single packaging invocation of the legacy pipeline.
    fn aapt_package(&self, jar: &str, exists: bool) -> (r: Result<Cmd, NdkError>)
        ensures
            exists ==> (r matches Ok(c) && c@ == spec_aapt_package_cmd(*self, jar@)),
            !exists ==> (r matches Err(NdkError::CmdNotFound(t)) && t@ == "aapt"@),
    {
        let mut aapt = self.build_tool("aapt", exists)?;
        aapt.arg("package".to_owned());
        aapt.arg("-f".to_owned());
        aapt.arg("-F".to_owned());
        aapt.arg(self.unaligned_apk());
        aapt.arg("-M".to_owned());
        aapt.arg("AndroidManifest.xml".to_owned());
        aapt.arg("-I".to_owned());
        aapt.arg(jar.to_owned());
        if self.disable_aapt_compression {
            aapt.arg("-0".to_owned());
            aapt.arg("".to_owned());
        }
        match &self.resources {
            Some(res) => {
                aapt.arg("-S".to_owned());
                aapt.arg(res.clone());
            },
            None => {},
        }
        match &self.assets {
            Some(a) => {
                aapt.arg("-A".to_owned());
                aapt.arg(a.clone());
            },
            None => {},
        }
        proof {
            assert(aapt@.args =~= spec_aapt_package_cmd(*self, jar@).args);
        }
        Ok(aapt)
    }

    /// Opens the pipeline: returns the unaligned stage with an empty
    /// pending-library set, together with the creation steps.  `jar` is
    /// the platform API archive to link against and `tool_exists` reports
    /// whether the resource tool of the selected pipeline is present.
    #[verifier::rlimit(50)]
    pub fn create_apk<'a>(&'a self, jar: &str, tool_exists: bool) -> (r: Result<
        (UnalignedApk<'a>, Vec<Step>),
        NdkError,
    >)
        ensures
            tool_exists ==> (r matches Ok(p) && p.0.config == self && p.0.pending_libs@
                == Seq::<String>::empty() && p.0.wf() && p.1.deep_view() == spec_create_steps(
                *self,
                jar@,
            )),
            !tool_exists ==> (r matches Err(NdkError::CmdNotFound(t)) && (if self.use_aapt2 {
                t@ == "aapt2"@
            } else {
                t@ == "aapt"@
            })),
    {
        let mut steps: Vec<Step> = Vec::new();
        steps.push(Step::MakeDir(self.build_dir.clone()));
        steps.push(
            Step::WriteFile(
                path_join(self.build_dir.as_str(), "AndroidManifest.xml"),
                self.manifest.to_xml(),
            ),
        );
        if self.use_aapt2 {
            steps.push(Step::Run(self.aapt2_compile(tool_exists)?));
            steps.push(Step::Run(self.aapt2_link(jar, true)?));
            let debuggable = match &self.manifest.application.debuggable {
                Some(b) => *b,
                None => false,
            };
            if !debuggable {
                let staging = path_join(self.build_dir.as_str(), self.manifest.package.as_str());
                steps.push(Step::Rename(self.unaligned_apk(), staging.clone()));
                steps.push(Step::RunWithCleanup(self.aapt2_optimize(true)?, staging));
            }
        } else {
            steps.push(Step::Run(self.aapt_package(jar, tool_exists)?));
        }
        let pending: Vec<String> = Vec::new();
        proof {
            assert(pending@ =~= Seq::<String>::empty());
            assert(pending.deep_view() =~= Seq::<Seq<char>>::empty());
            assert(steps.deep_view() =~= spec_create_steps(*self, jar@));
        }
        Ok((UnalignedApk { config: self, pending_libs: pending }, steps))
    }
}

/// The unaligned stage: resources are in the archive, native libraries
/// are being staged.  The pending-library set records each staged
/// in-archive path once; aligning consumes the stage and the set with it.
pub struct UnalignedApk<'a> {
    pub config: &'a ApkConfig,
    pub pending_libs: Vec<String>,
}

/// The normalized in-archive path of a staged library.
pub open spec fn spec_lib_rel_raw(path: Seq<char>, t: Target) -> Seq<char> {
    spec_path_join(spec_path_join("lib"@, spec_android_abi(t)), spec_file_name(path))
}

pub open spec fn spec_lib_rel_path(path: Seq<char>, t: Target) -> Seq<char> {
    spec_normalize_slashes(spec_lib_rel_raw(path, t))
}

/// Insertion into the pending set: already-present paths leave it
/// unchanged.
pub open spec fn spec_insert_lib(s: Seq<Seq<char>>, x: Seq<char>) -> Seq<Seq<char>> {
    if s.contains(x) {
        s
    } else {
        s.push(x)
    }
}

/// Inserting a path twice is the same as inserting it once; in
/// particular, the second insertion leaves the set's size unchanged.
pub proof fn lemma_insert_lib_idempotent(s: Seq<Seq<char>>, x: Seq<char>)
    ensures
        spec_insert_lib(spec_insert_lib(s, x), x) == spec_insert_lib(s, x),
        spec_insert_lib(spec_insert_lib(s, x), x).len() == spec_insert_lib(s, x).len(),
{
    if !s.contains(x) {
        assert(s.push(x)[s.len() as int] == x);
        assert(s.push(x).contains(x));
    }
}

/// The staging steps of one library: its destination directory is
/// created, then the policy decides.  Copying keeps the file as it is;
/// stripping rewrites it without debug symbols; splitting additionally
/// extracts the debug information to the sibling `.dwarf` file and embeds
/// a reference to that sibling's file name in the stripped library.  The
/// embedding invocation runs in the destination directory, so the tool
/// finds the sibling there while the stored reference names only the
/// file.
pub open spec fn spec_add_lib_steps(c: ApkConfig, path: Seq<char>, t: Target, objcopy: Seq<
    char,
>) -> Seq<StepView> {
    let parent = spec_path_join(c.build_dir@, spec_path_join("lib"@, spec_android_abi(t)));
    let out = spec_path_join(c.build_dir@, spec_lib_rel_raw(path, t));
    let dwarf = spec_dwarf_path(out);
    seq![StepView::MakeDir(parent)] + (match c.strip {
        StripConfig::Default => seq![StepView::CopyFile(path, out)],
        StripConfig::Strip => seq![
            StepView::Run(CmdView { prog: objcopy, args: seq!["--strip-debug"@, path, out], cwd: None }),
        ],
        StripConfig::Split => seq![
            StepView::Run(CmdView { prog: objcopy, args: seq!["--strip-debug"@, path, out], cwd: None }),
            StepView::Run(
                CmdView { prog: objcopy, args: seq!["--only-keep-debug"@, path, dwarf], cwd: None },
            ),
            StepView::Run(
                CmdView {
                    prog: objcopy,
                    args: seq!["--add-gnu-debuglink="@ + spec_file_name(dwarf), out],
                    cwd: Some(parent),
                },
            ),
        ],
    })
}

/// Membership test against the staged in-archive paths.
fn contains_str(v: &Vec<String>, x: &str) -> (r: bool)
    ensures
        r == v.deep_view().contains(x@),
{
    let n: usize = v.len();
    let mut i: usize = 0;
    while i < n
        invariant
            n == v@.len(),
            0 <= i <= n,
            forall|j: int| 0 <= j < i ==> v.deep_view()[j] != x@,
        decreases n - i,
    {
        if str_eq(v[i].as_str(), x) {
            proof {
                assert(v.deep_view()[i as int] == x@);
            }
            return true;
        }
        i = i + 1;
    }
    proof {
        if v.deep_view().contains(x@) {
            let k = choose|k: int|
                0 <= k < v.deep_view().len() && v.deep_view()[k] == x@;
            assert(false);
        }
    }
    false
}

impl<'a> UnalignedApk<'a> {
    /// No in-archive path is staged twice.
    pub open spec fn wf(self) -> bool {
        forall|i: int, j: int|
            0 <= i < j < self.pending_libs.deep_view().len() ==> #[trigger] self.pending_libs.deep_view()[i]
                != #[trigger] self.pending_libs.deep_view()[j]
    }

    /// The build descriptor this stage belongs to.
    pub fn config(&self) -> (r: &ApkConfig)
        ensures
            r == self.config,
    {
        self.config
    }

    /// Stages one native library: plans its destination directory and the
    /// policy's file operations, and records its normalized in-archive
    /// path.  Re-adding an already-staged path leaves the set unchanged.
    /// `path_exists` reports whether the library file is present;
    /// `objcopy` is the symbol tool resolved for the target.
    pub fn add_lib(&mut self, path: &str, target: Target, path_exists: bool, objcopy: &str) -> (r:
        Result<Vec<Step>, NdkError>)
        requires
            old(self).wf(),
        ensures
            final(self).config == old(self).config,
            final(self).wf(),
            !path_exists ==> (r matches Err(NdkError::PathNotFound(p)) && p@ == path@
                && final(self).pending_libs@ == old(self).pending_libs@),
            path_exists ==> (r matches Ok(steps) && steps.deep_view() == spec_add_lib_steps(
                *old(self).config,
                path@,
                target,
                objcopy@,
            ) && final(self).pending_libs.deep_view() == spec_insert_lib(
                old(self).pending_libs.deep_view(),
                spec_lib_rel_path(path@, target),
            )),
    {
        if !path_exists {
            return Err(NdkError::PathNotFound(path.to_owned()));
        }
        let abi = target.android_abi();
        let lib_dir = path_join("lib", abi);
        let rel_raw = path_join(lib_dir.as_str(), file_name_of(path).as_str());
        let rel = normalize_slashes(rel_raw.as_str());
        let parent = path_join(self.config.build_dir.as_str(), lib_dir.as_str());
        let out = path_join(self.config.build_dir.as_str(), rel_raw.as_str());
        let mut steps: Vec<Step> = Vec::new();
        steps.push(Step::MakeDir(parent.clone()));
        match self.config.strip {
            StripConfig::Default => {
                steps.push(Step::CopyFile(path.to_owned(), out));
            },
            StripConfig::Strip => {
                let mut strip = Cmd::new(objcopy.to_owned());
                strip.arg("--strip-debug".to_owned());
                strip.arg(path.to_owned());
                strip.arg(out);
                proof {
                    assert(strip@.args =~= seq!["--strip-debug"@, path@, spec_path_join(
                        self.config.build_dir@,
                        spec_lib_rel_raw(path@, target),
                    )]);
                }
                steps.push(Step::Run(strip));
            },
            StripConfig::Split => {
                let dwarf = dwarf_path(out.as_str());
                let mut strip = Cmd::new(objcopy.to_owned());
                strip.arg("--strip-debug".to_owned());
                strip.arg(path.to_owned());
                strip.arg(out.clone());
                proof {
                    assert(strip@.args =~= seq!["--strip-debug"@, path@, out@]);
                }
                steps.push(Step::Run(strip));
                let mut extract = Cmd::new(objcopy.to_owned());
                extract.arg("--only-keep-debug".to_owned());
                extract.arg(path.to_owned());
                extract.arg(dwarf.clone());
                proof {
                    assert(extract@.args =~= seq!["--only-keep-debug"@, path@, dwarf@]);
                }
                steps.push(Step::Run(extract));
                let mut link = Cmd::new(objcopy.to_owned());
                link.arg("--add-gnu-debuglink=".to_owned().concat(file_name_of(dwarf.as_str()).as_str()));
                link.arg(out);
                link.current_dir(parent.clone());
                proof {
                    assert(link@.args =~= seq![
                        "--add-gnu-debuglink="@ + spec_file_name(spec_dwarf_path(
                            spec_path_join(
                                self.config.build_dir@,
                                spec_lib_rel_raw(path@, target),
                            ),
                        )),
                        spec_path_join(self.config.build_dir@, spec_lib_rel_raw(path@, target)),
                    ]);
                }
                steps.push(Step::Run(link));
            },
        }
        let ghost old_dv = self.pending_libs.deep_view();
        let ghost relv = rel@;
        if !contains_str(&self.pending_libs, rel.as_str()) {
            self.pending_libs.push(rel);
            proof {
                assert(self.pending_libs.deep_view() =~= old_dv.push(relv));
                assert forall|i: int, j: int|
                    0 <= i < j < self.pending_libs.deep_view().len() implies #[trigger] self.pending_libs.deep_view()[i]
                    != #[trigger] self.pending_libs.deep_view()[j] by {
                    if j == old_dv.len() as int {
                        assert(old_dv[i] != relv);
                    }
                }
            }
        }
        proof {
            assert(steps.deep_view() =~= spec_add_lib_steps(
                *self.config,
                path@,
                target,
                objcopy@,
            ));
        }
        Ok(steps)
    }

    /// Stages an artifact's transitive shared-library closure, one
    /// library at a time as [`Self::add_lib`] does.  The caller's
    /// dependency resolver supplies `closure`: the ordered, deduplicated
    /// list of absolute library paths it returned for the artifact.
    pub fn add_lib_recursively(&mut self, closure: &Vec<String>, target: Target, objcopy: &str) -> (r:
        Result<Vec<Step>, NdkError>)
        requires
            old(self).wf(),
        ensures
            final(self).config == old(self).config,
            final(self).wf(),
            r matches Ok(steps) && steps.deep_view() == spec_libs_steps(
                *old(self).config,
                closure.deep_view(),
                target,
                objcopy@,
            ) && final(self).pending_libs.deep_view() == spec_insert_libs(
                old(self).pending_libs.deep_view(),
                closure.deep_view(),
                target,
            ),
    {
        let ghost pv = closure.deep_view();
        let ghost pend0 = old(self).pending_libs.deep_view();
        let n: usize = closure.len();
        let mut steps: Vec<Step> = Vec::new();
        let mut i: usize = 0;
        proof {
            assert(pv.take(0) =~= Seq::<Seq<char>>::empty());
            assert(steps.deep_view() =~= Seq::<StepView>::empty());
        }
        while i < n
            invariant
                n == pv.len(),
                pv == closure.deep_view(),
                0 <= i <= n,
                self.config == old(self).config,
                self.wf(),
                steps.deep_view() == spec_libs_steps(*old(self).config, pv.take(i as int), target, objcopy@),
                self.pending_libs.deep_view() == spec_insert_libs(pend0, pv.take(i as int), target),
            decreases n - i,
        {
            let ghost steps0 = steps.deep_view();
            let mut one = self.add_lib(closure[i].as_str(), target, true, objcopy)?;
            steps.append(&mut one);
            proof {
                assert(pv.take(i as int + 1).drop_last() =~= pv.take(i as int));
                assert(pv.take(i as int + 1).last() == pv[i as int]);
                assert(pv[i as int] == closure@[i as int]@);
                assert(steps.deep_view() =~= steps0 + spec_add_lib_steps(
                    *old(self).config,
                    pv[i as int],
                    target,
                    objcopy@,
                ));
            }
            i = i + 1;
        }
        proof {
            assert(pv.take(n as int) =~= pv);
        }
        Ok(steps)
    }

    /// Stages the transitive shared-library closure of every shared
    /// library directly under the target's subdirectory of `dir`.
    /// `entries` lists the file names found there; the entries ending in
    /// `.so` are the libraries (as [`runtime_lib_paths`] selects them),
    /// and `closures` holds, one per selected library in the same order,
    /// the ordered and deduplicated closure the caller's dependency
    /// resolver returned for it.
    pub fn add_runtime_libs(
        &mut self,
        dir: &str,
        target: Target,
        entries: &Vec<String>,
        closures: &Vec<Vec<String>>,
        objcopy: &str,
    ) -> (r: Result<Vec<Step>, NdkError>)
        requires
            old(self).wf(),
            closures@.len() == spec_so_list(dir@, target, entries.deep_view()).len(),
        ensures
            final(self).config == old(self).config,
            final(self).wf(),
            r matches Ok(steps) && steps.deep_view() == spec_lib_lists_steps(
                *old(self).config,
                closures.deep_view(),
                target,
                objcopy@,
            ) && final(self).pending_libs.deep_view() == spec_insert_lib_lists(
                old(self).pending_libs.deep_view(),
                closures.deep_view(),
                target,
            ),
    {
        let ghost cv = closures.deep_view();
        let ghost pend0 = old(self).pending_libs.deep_view();
        let n: usize = closures.len();
        let mut steps: Vec<Step> = Vec::new();
        let mut i: usize = 0;
        proof {
            assert(cv.take(0) =~= Seq::<Seq<Seq<char>>>::empty());
            assert(steps.deep_view() =~= Seq::<StepView>::empty());
        }
        while i < n
            invariant
                n == cv.len(),
                cv == closures.deep_view(),
                0 <= i <= n,
                self.config == old(self).config,
                self.wf(),
                steps.deep_view() == spec_lib_lists_steps(
                    *old(self).config,
                    cv.take(i as int),
                    target,
                    objcopy@,
                ),
                self.pending_libs.deep_view() == spec_insert_lib_lists(
                    pend0,
                    cv.take(i as int),
                    target,
                ),
            decreases n - i,
        {
            let ghost steps0 = steps.deep_view();
            let mut one = self.add_lib_recursively(&closures[i], target, objcopy)?;
            steps.append(&mut one);
            proof {
                assert(cv.take(i as int + 1).drop_last() =~= cv.take(i as int));
                assert(cv.take(i as int + 1).last() == cv[i as int]);
                assert(cv[i as int] == closures@[i as int].deep_view());
                assert(steps.deep_view() =~= steps0 + spec_libs_steps(
                    *old(self).config,
                    cv[i as int],
                    target,
                    objcopy@,
                ));
            }
            i = i + 1;
        }
        proof {
            assert(cv.take(n as int) =~= cv);
        }
        Ok(steps)
    }

    /// Plans the insertion of compiled managed classes: the primary
    /// converter is invoked on the collected class files, the legacy
    /// converter stands by for hosts without the primary one, and the
    /// resulting archive entry is added to the intermediate archive.  The
    /// caller runs the primary converter, falls back to the legacy one
    /// only when the primary cannot be spawned, and adds the entry only
    /// when the converted file exists.  An absent or empty class
    /// directory plans nothing.  Both named tools are required up front.
    pub fn add_java_classes(
        &self,
        class_files: &Vec<String>,
        jar: &str,
        dir_exists: bool,
        d8_exists: bool,
        aapt_exists: bool,
    ) -> (r: Result<Option<JavaClassesPlan>, NdkError>)
        ensures
            (
            {
                let planned = dir_exists && class_files.deep_view().len() > 0;
                &&& !planned ==> (r matches Ok(o) && o is None)
                &&& planned && !d8_exists ==> (r matches Err(NdkError::CmdNotFound(t)) && t@
                    == "d8"@)
                &&& planned && d8_exists && !aapt_exists ==> (r matches Err(NdkError::CmdNotFound(
                    t,
                )) && t@ == "aapt"@)
                &&& planned && d8_exists && aapt_exists ==> (r matches Ok(o) && o matches Some(p)
                    && p.d8@ == spec_d8_cmd(*self.config, jar@, class_files.deep_view()) && p.dx@
                    == spec_dx_cmd(*self.config) && p.aapt_add@ == spec_aapt_add_dex_cmd(
                    *self.config,
                ))
            }),
    {
        if !dir_exists || class_files.len() == 0 {
            return Ok(None);
        }
        let ghost fv = class_files.deep_view();
        let mut d8 = self.config.build_tool("d8", d8_exists)?;
        d8.arg("--output".to_owned());
        d8.arg(self.config.build_dir.clone());
        d8.arg("--lib".to_owned());
        d8.arg(jar.to_owned());
        let ghost base = d8@.args;
        let n: usize = class_files.len();
        let mut i: usize = 0;
        proof {
            assert(fv.take(0) =~= Seq::<Seq<char>>::empty());
            assert(d8@.args =~= base + fv.take(0));
        }
        while i < n
            invariant
                n == fv.len(),
                fv == class_files.deep_view(),
                0 <= i <= n,
                d8@.prog == spec_build_tool_cmd(*self.config, "d8"@, Seq::empty()).prog,
                d8@.cwd == Some(self.config.build_dir@),
                d8@.args == base + fv.take(i as int),
            decreases n - i,
        {
            d8.arg(class_files[i].clone());
            proof {
                assert(fv.take(i as int + 1) =~= fv.take(i as int).push(fv[i as int]));
                assert(fv[i as int] == class_files@[i as int]@);
                assert(d8@.args =~= base + fv.take(i as int + 1));
            }
            i = i + 1;
        }
        proof {
            assert(fv.take(n as int) =~= fv);
            assert(d8@.args =~= spec_d8_cmd(*self.config, jar@, fv).args);
        }
        let mut dx = Cmd::new("dx".to_owned());
        dx.arg("--dex".to_owned());
        dx.arg("--output".to_owned());
        dx.arg(path_join(self.config.build_dir.as_str(), "classes.dex"));
        dx.arg(self.config.java_classes.clone());
        proof {
            assert(dx@.args =~= spec_dx_cmd(*self.config).args);
        }
        let mut aapt_add = self.config.build_tool("aapt", aapt_exists)?;
        aapt_add.arg("add".to_owned());
        aapt_add.arg(self.config.unaligned_apk());
        aapt_add.arg("classes.dex".to_owned());
        proof {
            assert(aapt_add@.args =~= spec_aapt_add_dex_cmd(*self.config).args);
        }
        Ok(Some(JavaClassesPlan { d8, dx, aapt_add }))
    }

    /// Closes the staging stage: one batch invocation inserts every
    /// pending path into the intermediate archive, honouring the
    /// compression flag, and the alignment tool writes the final archive
    /// path.  The stage and its pending set are consumed; nothing can be
    /// staged afterwards.
    pub fn add_pending_libs_and_align(self, aapt_exists: bool, zipalign_exists: bool) -> (r:
        Result<(UnsignedApk<'a>, Vec<Cmd>), NdkError>)
        ensures
            !aapt_exists ==> (r matches Err(NdkError::CmdNotFound(t)) && t@ == "aapt"@),
            aapt_exists && !zipalign_exists ==> (r matches Err(NdkError::CmdNotFound(t)) && t@
                == "zipalign"@),
            aapt_exists && zipalign_exists ==> (r matches Ok(p) && p.0.config == self.config
                && p.1.deep_view() == seq![
                spec_aapt_add_cmd(*self.config, self.pending_libs.deep_view()),
                spec_zipalign_cmd(*self.config),
            ]),
    {
        let mut aapt = self.config.build_tool("aapt", aapt_exists)?;
        aapt.arg("add".to_owned());
        if self.config.disable_aapt_compression {
            aapt.arg("-0".to_owned());
            aapt.arg("".to_owned());
        }
        aapt.arg(self.config.unaligned_apk());
        let ghost base = aapt@.args;
        let ghost lv = self.pending_libs.deep_view();
        let n: usize = self.pending_libs.len();
        let mut i: usize = 0;
        proof {
            assert(lv.take(0) =~= Seq::<Seq<char>>::empty());
            assert(aapt@.args =~= base + lv.take(0));
        }
        while i < n
            invariant
                n == lv.len(),
                lv == self.pending_libs.deep_view(),
                0 <= i <= n,
                aapt@.prog == spec_build_tool_cmd(*self.config, "aapt"@, Seq::empty()).prog,
                aapt@.cwd == Some(self.config.build_dir@),
                aapt@.args == base + lv.take(i as int),
            decreases n - i,
        {
            aapt.arg(self.pending_libs[i].clone());
            proof {
                assert(lv.take(i as int + 1) =~= lv.take(i as int).push(lv[i as int]));
                assert(lv[i as int] == self.pending_libs@[i as int]@);
                assert(aapt@.args =~= base + lv.take(i as int + 1));
            }
            i = i + 1;
        }
        proof {
            assert(lv.take(n as int) =~= lv);
            assert(aapt@.args =~= spec_aapt_add_cmd(*self.config, lv).args);
        }
        let mut zipalign = self.config.build_tool("zipalign", zipalign_exists)?;
        zipalign.arg("-f".to_owned());
        zipalign.arg("-v".to_owned());
        zipalign.arg("4".to_owned());
        zipalign.arg(self.config.unaligned_apk());
        zipalign.arg(self.config.apk());
        proof {
            assert(zipalign@.args =~= spec_zipalign_cmd(*self.config).args);
        }
        let mut cmds: Vec<Cmd> = Vec::new();
        cmds.push(aapt);
        cmds.push(zipalign);
        proof {
            assert(cmds.deep_view() =~= seq![
                spec_aapt_add_cmd(*self.config, lv),
                spec_zipalign_cmd(*self.config),
            ]);
        }
        Ok((UnsignedApk { config: self.config }, cmds))
    }
}

/// The converter invocations that insert compiled managed classes.
pub struct JavaClassesPlan {
    pub d8: Cmd,
    pub dx: Cmd,
    pub aapt_add: Cmd,
}

/// The primary bytecode-converter invocation.
pub open spec fn spec_d8_cmd(c: ApkConfig, jar: Seq<char>, files: Seq<Seq<char>>) -> CmdView {
    spec_build_tool_cmd(c, "d8"@, seq!["--output"@, c.build_dir@, "--lib"@, jar] + files)
}

/// The legacy bytecode-converter invocation, resolved from the search
/// path by name.
pub open spec fn spec_dx_cmd(c: ApkConfig) -> CmdView {
    CmdView {
        prog: "dx"@,
        args: seq![
            "--dex"@,
            "--output"@,
            spec_path_join(c.build_dir@, "classes.dex"@),
            c.java_classes@,
        ],
        cwd: None,
    }
}

/// The invocation that adds the converted classes to the archive.
pub open spec fn spec_aapt_add_dex_cmd(c: ApkConfig) -> CmdView {
    spec_build_tool_cmd(c, "aapt"@, seq!["add"@, spec_unaligned_apk(c), "classes.dex"@])
}

/// The batch invocation inserting the pending paths into the archive.
pub open spec fn spec_aapt_add_cmd(c: ApkConfig, libs: Seq<Seq<char>>) -> CmdView {
    spec_build_tool_cmd(
        c,
        "aapt"@,
        seq!["add"@] + (if c.disable_aapt_compression {
            seq!["-0"@, ""@]
        } else {
            Seq::empty()
        }) + seq![spec_unaligned_apk(c)] + libs,
    )
}

/// The page-alignment invocation producing the final archive path.
pub open spec fn spec_zipalign_cmd(c: ApkConfig) -> CmdView {
    spec_build_tool_cmd(
        c,
        "zipalign"@,
        seq!["-f"@, "-v"@, "4"@, spec_unaligned_apk(c), spec_apk(c)],
    )
}

/// Whether an entry names a shared library.
pub open spec fn spec_ends_so(s: Seq<char>) -> bool {
    s.len() >= ".so"@.len() && s.subrange(s.len() - ".so"@.len(), s.len() as int) == ".so"@
}

/// The shared libraries directly under the target's subdirectory of
/// `dir`, in listing order.
pub open spec fn spec_so_list(dir: Seq<char>, t: Target, es: Seq<Seq<char>>) -> Seq<Seq<char>>
    decreases es.len(),
{
    if es.len() == 0 {
        Seq::empty()
    } else {
        spec_so_list(dir, t, es.drop_last()) + (if spec_ends_so(es.last()) {
            seq![spec_path_join(spec_path_join(dir, spec_android_abi(t)), es.last())]
        } else {
            Seq::empty()
        })
    }
}

/// The pending set after staging a list of libraries in order.
pub open spec fn spec_insert_libs(s: Seq<Seq<char>>, ps: Seq<Seq<char>>, t: Target) -> Seq<
    Seq<char>,
>
    decreases ps.len(),
{
    if ps.len() == 0 {
        s
    } else {
        spec_insert_lib(spec_insert_libs(s, ps.drop_last(), t), spec_lib_rel_path(ps.last(), t))
    }
}

/// The staging steps of a list of libraries, in order.
pub open spec fn spec_libs_steps(c: ApkConfig, ps: Seq<Seq<char>>, t: Target, objcopy: Seq<
    char,
>) -> Seq<StepView>
    decreases ps.len(),
{
    if ps.len() == 0 {
        Seq::empty()
    } else {
        spec_libs_steps(c, ps.drop_last(), t, objcopy) + spec_add_lib_steps(
            c,
            ps.last(),
            t,
            objcopy,
        )
    }
}

/// The pending set after staging a list of closures in order.
pub open spec fn spec_insert_lib_lists(
    s: Seq<Seq<char>>,
    css: Seq<Seq<Seq<char>>>,
    t: Target,
) -> Seq<Seq<char>>
    decreases css.len(),
{
    if css.len() == 0 {
        s
    } else {
        spec_insert_libs(spec_insert_lib_lists(s, css.drop_last(), t), css.last(), t)
    }
}

/// The staging steps of a list of closures, in order.
pub open spec fn spec_lib_lists_steps(
    c: ApkConfig,
    css: Seq<Seq<Seq<char>>>,
    t: Target,
    objcopy: Seq<char>,
) -> Seq<StepView>
    decreases css.len(),
{
    if css.len() == 0 {
        Seq::empty()
    } else {
        spec_lib_lists_steps(c, css.drop_last(), t, objcopy) + spec_libs_steps(
            c,
            css.last(),
            t,
            objcopy,
        )
    }
}

/// The shared libraries directly under the target's subdirectory of
/// `dir`, in listing order: the libraries whose closures the caller's
/// dependency resolver is to supply.
pub fn runtime_lib_paths(dir: &str, target: Target, entries: &Vec<String>) -> (r: Vec<String>)
    ensures
        r.deep_view() == spec_so_list(dir@, target, entries.deep_view()),
{
    let ghost ev = entries.deep_view();
    let abi_dir = path_join(dir, target.android_abi());
    let n: usize = entries.len();
    let mut so_paths: Vec<String> = Vec::new();
    let mut i: usize = 0;
    proof {
        assert(ev.take(0) =~= Seq::<Seq<char>>::empty());
        assert(so_paths.deep_view() =~= Seq::<Seq<char>>::empty());
    }
    while i < n
        invariant
            n == ev.len(),
            ev == entries.deep_view(),
            0 <= i <= n,
            abi_dir@ == spec_path_join(dir@, spec_android_abi(target)),
            so_paths.deep_view() == spec_so_list(dir@, target, ev.take(i as int)),
        decreases n - i,
    {
        let ghost so0 = so_paths.deep_view();
        let entry = &entries[i];
        proof {
            assert(ev.take(i as int + 1).drop_last() =~= ev.take(i as int));
            assert(ev.take(i as int + 1).last() == ev[i as int]);
            assert(ev[i as int] == entries@[i as int]@);
        }
        if ends_with_str(entry.as_str(), ".so") {
            so_paths.push(path_join(abi_dir.as_str(), entry.as_str()));
            proof {
                assert(so_paths.deep_view() =~= so0.push(
                    spec_path_join(spec_path_join(dir@, spec_android_abi(target)), ev[i as int]),
                ));
            }
        }
        i = i + 1;
    }
    proof {
        assert(ev.take(n as int) =~= ev);
    }
    so_paths
}

/// The aligned-but-unsigned stage.
pub struct UnsignedApk<'a> {
    pub config: &'a ApkConfig,
}

/// The signing invocation.
pub open spec fn spec_apksigner_cmd(c: ApkConfig, kpath: Seq<char>, kpass: Seq<char>) -> CmdView {
    spec_build_tool_cmd(
        c,
        "apksigner"@,
        seq!["sign"@, "--ks"@, kpath, "--ks-pass"@, "pass:"@ + kpass, spec_apk(c)],
    )
}

impl<'a> UnsignedApk<'a> {
    /// Closes the pipeline: plans the signing invocation against the
    /// aligned archive and hands out the device-operations handle.
    pub fn sign(self, key: Key, apksigner_exists: bool) -> (r: Result<(Apk, Cmd), NdkError>)
        ensures
            !apksigner_exists ==> (r matches Err(NdkError::CmdNotFound(t)) && t@ == "apksigner"@),
            apksigner_exists ==> (r matches Ok(p) && p.1@ == spec_apksigner_cmd(
                *self.config,
                key.path@,
                key.password@,
            ) && p.0.path@ == spec_apk(*self.config) && p.0.package_name@
                == self.config.manifest.package@ && ndk_eq(p.0.ndk, self.config.ndk)
                && p.0.reverse_port_forward@ == self.config.reverse_port_forward@),
    {
        let mut apksigner = self.config.build_tool("apksigner", apksigner_exists)?;
        apksigner.arg("sign".to_owned());
        apksigner.arg("--ks".to_owned());
        apksigner.arg(key.path);
        apksigner.arg("--ks-pass".to_owned());
        apksigner.arg("pass:".to_owned().concat(key.password.as_str()));
        apksigner.arg(self.config.apk());
        proof {
            assert(apksigner@.args =~= spec_apksigner_cmd(
                *self.config,
                key.path@,
                key.password@,
            ).args);
        }
        Ok((Apk::from_config(self.config), apksigner))
    }
}

/// The signed package: device operations are planned from here.
pub struct Apk {
    pub path: String,
    pub package_name: String,
    pub ndk: Ndk,
    pub reverse_port_forward: Vec<(String, String)>,
}

fn clone_pairs(v: &Vec<(String, String)>) -> (r: Vec<(String, String)>)
    ensures
        r@ == v@,
{
    let n: usize = v.len();
    let mut out: Vec<(String, String)> = Vec::new();
    let mut i: usize = 0;
    proof {
        assert(out@ =~= v@.take(0));
    }
    while i < n
        invariant
            n == v@.len(),
            0 <= i <= n,
            out@ == v@.take(i as int),
        decreases n - i,
    {
        let a = v[i].0.clone();
        let b = v[i].1.clone();
        out.push((a, b));
        proof {
            assert(out@ =~= v@.take(i as int + 1));
        }
        i = i + 1;
    }
    proof {
        assert(v@.take(n as int) =~= v@);
    }
    out
}

/// The device-bridge program of an environment.
pub open spec fn spec_adb_prog(sdk_path: Seq<char>) -> Seq<char> {
    spec_path_join(spec_path_join(sdk_path, "platform-tools"@), "adb"@)
}

/// The reverse-forward invocations, one per configured mapping, in order.
pub open spec fn spec_reverse_cmds(
    sdk_path: Seq<char>,
    ds: Option<Seq<char>>,
    pairs: Seq<(String, String)>,
) -> Seq<CmdView>
    decreases pairs.len(),
{
    if pairs.len() == 0 {
        Seq::empty()
    } else {
        spec_reverse_cmds(sdk_path, ds, pairs.drop_last()) + seq![
            CmdView {
                prog: spec_adb_prog(sdk_path),
                args: crate::ndk::spec_serial_args(ds) + seq![
                    "reverse"@,
                    pairs.last().0@,
                    pairs.last().1@,
                ],
                cwd: None,
            },
        ]
    }
}

/// The component argument of a launch: the package, a slash, and the
/// chosen or default activity name.
pub open spec fn spec_start_component(pkg: Seq<char>, activity: Option<Seq<char>>) -> Seq<char> {
    pkg + "/"@ + (match activity {
        Some(a) => a,
        None => "android.app.NativeActivity"@,
    })
}

/// The log output format: timestamped or brief.
pub open spec fn spec_logcat_format(show_time: bool) -> Seq<char> {
    if show_time {
        "time"@
    } else {
        "brief"@
    }
}

/// The rest of a listing line after the first space, when the part
/// before it names the package exactly.
pub open spec fn spec_uid_rest(l: Seq<char>, pkg: Seq<char>) -> Option<Seq<char>> {
    match spec_find_idx(l, ' ') {
        Some(k) => if l.take(k) == "package:"@ + pkg {
            Some(l.skip(k + 1))
        } else {
            None
        },
        None => None,
    }
}

pub open spec fn spec_first_uid_rest(ls: Seq<Seq<char>>, pkg: Seq<char>) -> Option<Seq<char>>
    decreases ls.len(),
{
    if ls.len() == 0 {
        None
    } else {
        match spec_uid_rest(ls[0], pkg) {
            Some(v) => Some(v),
            None => spec_first_uid_rest(ls.skip(1), pkg),
        }
    }
}

impl Apk {
    /// The handle for a finished build.
    pub fn from_config(config: &ApkConfig) -> (r: Apk)
        ensures
            r.path@ == spec_apk(*config),
            r.package_name@ == config.manifest.package@,
            ndk_eq(r.ndk, config.ndk),
            r.reverse_port_forward@ == config.reverse_port_forward@,
    {
        Apk {
            path: config.apk(),
            package_name: config.manifest.package.clone(),
            ndk: config.ndk.clone(),
            reverse_port_forward: clone_pairs(&config.reverse_port_forward),
        }
    }

    /// The reverse-forward invocations, one per configured mapping; the
    /// caller runs them in order and aborts on the first failure.
    pub fn reverse_port_forwarding(&self, device_serial: Option<&str>, adb_exists: bool) -> (r:
        Result<Vec<Cmd>, NdkError>)
        ensures
            !adb_exists ==> (r matches Err(NdkError::CmdNotFound(t)) && t@ == "adb"@),
            adb_exists ==> (r matches Ok(cmds) && cmds.deep_view() == spec_reverse_cmds(
                self.ndk.sdk_path@,
                device_serial.deep_view(),
                self.reverse_port_forward@,
            )),
    {
        if !adb_exists {
            return Err(NdkError::CmdNotFound("adb".to_owned()));
        }
        let ghost pv = self.reverse_port_forward@;
        let n: usize = self.reverse_port_forward.len();
        let mut out: Vec<Cmd> = Vec::new();
        let mut i: usize = 0;
        proof {
            assert(out.deep_view() =~= spec_reverse_cmds(
                self.ndk.sdk_path@,
                device_serial.deep_view(),
                pv.take(0),
            ));
        }
        while i < n
            invariant
                n == pv.len(),
                pv == self.reverse_port_forward@,
                0 <= i <= n,
                out.deep_view() == spec_reverse_cmds(
                    self.ndk.sdk_path@,
                    device_serial.deep_view(),
                    pv.take(i as int),
                ),
            decreases n - i,
        {
            let ghost out0 = out.deep_view();
            let mut c = self.ndk.adb(device_serial, true)?;
            c.arg("reverse".to_owned());
            c.arg(self.reverse_port_forward[i].0.clone());
            c.arg(self.reverse_port_forward[i].1.clone());
            out.push(c);
            proof {
                assert(pv.take(i as int + 1).drop_last() =~= pv.take(i as int));
                assert(pv.take(i as int + 1).last() == pv[i as int]);
                assert(c@.args =~= crate::ndk::spec_serial_args(device_serial.deep_view()) + seq![
                    "reverse"@,
                    pv[i as int].0@,
                    pv[i as int].1@,
                ]);
                assert(out.deep_view() =~= out0.push(c@));
                assert(out.deep_view() =~= spec_reverse_cmds(
                    self.ndk.sdk_path@,
                    device_serial.deep_view(),
                    pv.take(i as int + 1),
                ));
            }
            i = i + 1;
        }
        proof {
            assert(pv.take(n as int) =~= pv);
        }
        Ok(out)
    }

    /// The installation invocation: pushes the archive, replacing an
    /// existing installation.
    pub fn install(&self, device_serial: Option<&str>, adb_exists: bool) -> (r: Result<
        Cmd,
        NdkError,
    >)
        ensures
            !adb_exists ==> (r matches Err(NdkError::CmdNotFound(t)) && t@ == "adb"@),
            adb_exists ==> (r matches Ok(c) && c@ == (CmdView {
                prog: spec_adb_prog(self.ndk.sdk_path@),
                args: crate::ndk::spec_serial_args(device_serial.deep_view()) + seq![
                    "install"@,
                    "-r"@,
                    self.path@,
                ],
                cwd: None,
            })),
    {
        let mut c = self.ndk.adb(device_serial, adb_exists)?;
        let ghost base = c@.args;
        c.arg("install".to_owned());
        c.arg("-r".to_owned());
        c.arg(self.path.clone());
        proof {
            assert(c@.args =~= base + seq!["install"@, "-r"@, self.path@]);
        }
        Ok(c)
    }

    /// The launch invocation: starts the named activity, or the
    /// documented default when none is given, through an intent-based
    /// start.
    pub fn start(&self, device_serial: Option<&str>, activity: Option<&str>, adb_exists: bool) -> (r:
        Result<Cmd, NdkError>)
        ensures
            !adb_exists ==> (r matches Err(NdkError::CmdNotFound(t)) && t@ == "adb"@),
            adb_exists ==> (r matches Ok(c) && c@ == (CmdView {
                prog: spec_adb_prog(self.ndk.sdk_path@),
                args: crate::ndk::spec_serial_args(device_serial.deep_view()) + seq![
                    "shell"@,
                    "am"@,
                    "start"@,
                    "-a"@,
                    "android.intent.action.MAIN"@,
                    "-n"@,
                    spec_start_component(self.package_name@, activity.deep_view()),
                ],
                cwd: None,
            })),
    {
        let mut c = self.ndk.adb(device_serial, adb_exists)?;
        let ghost base = c@.args;
        c.arg("shell".to_owned());
        c.arg("am".to_owned());
        c.arg("start".to_owned());
        c.arg("-a".to_owned());
        c.arg("android.intent.action.MAIN".to_owned());
        c.arg("-n".to_owned());
        let activity_name: &str = match activity {
            Some(a) => a,
            None => "android.app.NativeActivity",
        };
        c.arg(self.package_name.clone().concat("/").concat(activity_name));
        proof {
            assert(activity_name@ == (match activity.deep_view() {
                Some(a) => a,
                None => "android.app.NativeActivity"@,
            }));
            assert(c@.args =~= base + seq![
                "shell"@,
                "am"@,
                "start"@,
                "-a"@,
                "android.intent.action.MAIN"@,
                "-n"@,
                spec_start_component(self.package_name@, activity.deep_view()),
            ]);
        }
        Ok(c)
    }

    /// The invocation that queries the device's package listing for this
    /// package's uid.
    pub fn uidof_cmd(&self, device_serial: Option<&str>, adb_exists: bool) -> (r: Result<
        Cmd,
        NdkError,
    >)
        ensures
            !adb_exists ==> (r matches Err(NdkError::CmdNotFound(t)) && t@ == "adb"@),
            adb_exists ==> (r matches Ok(c) && c@ == (CmdView {
                prog: spec_adb_prog(self.ndk.sdk_path@),
                args: crate::ndk::spec_serial_args(device_serial.deep_view()) + seq![
                    "shell"@,
                    "pm"@,
                    "list"@,
                    "package"@,
                    "-U"@,
                    self.package_name@,
                ],
                cwd: None,
            })),
    {
        let mut c = self.ndk.adb(device_serial, adb_exists)?;
        let ghost base = c@.args;
        c.arg("shell".to_owned());
        c.arg("pm".to_owned());
        c.arg("list".to_owned());
        c.arg("package".to_owned());
        c.arg("-U".to_owned());
        c.arg(self.package_name.clone());
        proof {
            assert(c@.args =~= base + seq![
                "shell"@,
                "pm"@,
                "list"@,
                "package"@,
                "-U"@,
                self.package_name@,
            ]);
        }
        Ok(c)
    }

    /// The invocation that clears the device log before streaming.
    pub fn logcat_clear_cmd(&self, device_serial: Option<&str>, adb_exists: bool) -> (r: Result<
        Cmd,
        NdkError,
    >)
        ensures
            !adb_exists ==> (r matches Err(NdkError::CmdNotFound(t)) && t@ == "adb"@),
            adb_exists ==> (r matches Ok(c) && c@ == (CmdView {
                prog: spec_adb_prog(self.ndk.sdk_path@),
                args: crate::ndk::spec_serial_args(device_serial.deep_view()) + seq![
                    "logcat"@,
                    "-c"@,
                ],
                cwd: None,
            })),
    {
        let mut c = self.ndk.adb(device_serial, adb_exists)?;
        let ghost base = c@.args;
        c.arg("logcat".to_owned());
        c.arg("-c".to_owned());
        proof {
            assert(c@.args =~= base + seq!["logcat"@, "-c"@]);
        }
        Ok(c)
    }

    /// The live log-streaming invocation, colourized and filtered by the
    /// resolved uid; `show_time` selects the timestamped output format
    /// over the brief one.
    pub fn logcat_cmd(
        &self,
        device_serial: Option<&str>,
        uid: u32,
        show_time: bool,
        adb_exists: bool,
    ) -> (r: Result<Cmd, NdkError>)
        ensures
            !adb_exists ==> (r matches Err(NdkError::CmdNotFound(t)) && t@ == "adb"@),
            adb_exists ==> (r matches Ok(c) && c@ == (CmdView {
                prog: spec_adb_prog(self.ndk.sdk_path@),
                args: crate::ndk::spec_serial_args(device_serial.deep_view()) + seq![
                    "logcat"@,
                    "-v"@,
                    spec_logcat_format(show_time),
                    "color"@,
                    "--uid"@,
                    spec_dec(uid as nat),
                ],
                cwd: None,
            })),
    {
        let mut c = self.ndk.adb(device_serial, adb_exists)?;
        let ghost base = c@.args;
        c.arg("logcat".to_owned());
        c.arg("-v".to_owned());
        if show_time {
            c.arg("time".to_owned());
        } else {
            c.arg("brief".to_owned());
        }
        c.arg("color".to_owned());
        c.arg("--uid".to_owned());
        c.arg(u32_string(uid));
        proof {
            assert(c@.args =~= base + seq![
                "logcat"@,
                "-v"@,
                spec_logcat_format(show_time),
                "color"@,
                "--uid"@,
                spec_dec(uid as nat),
            ]);
        }
        Ok(c)
    }

    /// Parses the uid from the captured package listing.  Because the
    /// underlying query filters by substring, only the line whose package
    /// field equals the queried name exactly is selected; its uid field
    /// must parse as a number.
    pub fn uidof(&self, output: &str) -> (r: Result<u32, NdkError>)
        ensures
            (match spec_first_uid_rest(spec_lines(output@), self.package_name@) {
                None => r matches Err(NdkError::PackageNotInOutput { package, output: o })
                    && package@ == self.package_name@ && o@ == output@,
                Some(rest) => if rest.len() >= "uid:"@.len() && rest.subrange(
                    0,
                    "uid:"@.len() as int,
                ) == "uid:"@ {
                    (
                    {
                        let d = rest.skip("uid:"@.len() as int);
                        if d.len() > 0 && all_digits(d) && digits_val(d) <= u32::MAX as nat {
                            r == Ok::<u32, NdkError>(digits_val(d) as u32)
                        } else {
                            r matches Err(NdkError::NotAUid(u)) && u@ == d
                        }
                    })
                } else {
                    r matches Err(NdkError::UidNotInOutput(o)) && o@ == output@
                },
            }),
    {
        let ls = lines(output);
        let ghost lv = spec_lines(output@);
        let expected = "package:".to_owned().concat(self.package_name.as_str());
        let n: usize = ls.len();
        let mut i: usize = 0;
        let mut found: Option<String> = None;
        proof {
            assert(lv.skip(0) =~= lv);
        }
        while i < n && found.is_none()
            invariant
                n == lv.len(),
                lv == ls.deep_view(),
                expected@ == "package:"@ + self.package_name@,
                0 <= i <= n,
                (match found {
                    Some(v) => spec_first_uid_rest(lv, self.package_name@) == Some(v@),
                    None => spec_first_uid_rest(lv, self.package_name@) == spec_first_uid_rest(
                        lv.skip(i as int),
                        self.package_name@,
                    ),
                }),
            decreases n - i,
        {
            let line = &ls[i];
            proof {
                assert(lv[i as int] == line@);
                assert(lv.skip(i as int)[0] == lv[i as int]);
            }
            match split_once_char(line.as_str(), ' ') {
                Some(kv) => {
                    let (left, rest) = kv;
                    proof {
                        let k = choose|k: int|
                            0 <= k < line@.len() && line@[k] == ' ' && (forall|j: int|
                                0 <= j < k ==> line@[j] != ' ') && left@ == line@.take(k) && rest@
                                == line@.skip(k + 1);
                        lemma_find_idx_unique(line@, ' ', k);
                    }
                    if str_eq(left.as_str(), expected.as_str()) {
                        proof {
                            assert(spec_uid_rest(lv[i as int], self.package_name@) == Some(rest@));
                        }
                        found = Some(rest);
                    } else {
                        proof {
                            assert(spec_uid_rest(lv[i as int], self.package_name@) is None);
                            assert(lv.skip(i as int).skip(1) =~= lv.skip(i as int + 1));
                        }
                    }
                },
                None => {
                    proof {
                        lemma_find_idx_first(line@, ' ');
                        assert(spec_find_idx(line@, ' ') is None);
                        assert(spec_uid_rest(lv[i as int], self.package_name@) is None);
                        assert(lv.skip(i as int).skip(1) =~= lv.skip(i as int + 1));
                    }
                },
            }
            i = i + 1;
        }
        match found {
            Some(rest) => {
                match strip_prefix_str(rest.as_str(), "uid:") {
                    Some(digits) => {
                        match parse_u32(digits.as_str()) {
                            Some(v) => Ok(v),
                            None => Err(NdkError::NotAUid(digits)),
                        }
                    },
                    None => Err(NdkError::UidNotInOutput(output.to_owned())),
                }
            },
            None => {
                proof {
                    assert(lv.skip(n as int) =~= Seq::<Seq<char>>::empty());
                    assert(spec_first_uid_rest(lv.skip(n as int), self.package_name@) is None);
                }
                Err(
                    NdkError::PackageNotInOutput {
                        package: self.package_name.clone(),
                        output: output.to_owned(),
                    },
                )
            },
        }
    }
}

} // verus!
