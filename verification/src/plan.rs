//! Build plans: from the environment of a build, captured once, to the
//! ordered steps that carry it out. A plan is made only where nothing that
//! the build needs is missing.

use crate::config::{
    plugin_shim_configuration, shim_configuration, vendor_configuration,
    vendor_library_configuration, BuildConfiguration, Configuration,
};
use crate::discovery::SourceCategory;
use crate::error::{BuildError, Failure};
use crate::header::{
    config_header_text, ndpi_config_header, ndpi_define_patch, ndpi_define_targets, HeaderPatch,
    Target,
};
use crate::link::{
    applies, directive_text, emitted, link_lines, links_of, math_library, math_link,
    os_without_math_library, vendor_library, vendor_link, Link, LinkDirective,
};
use crate::path::{join, joined};
use crate::text::texts_of;
use vstd::prelude::*;
use vstd::string::StringExecFns;

verus! {

/// A directory to look for sources in.
#[derive(Clone, Debug, PartialEq, Eq)]
pub struct SourceDir {
    pub path: String,
    pub category: SourceCategory,
}

/// What a `SourceDir` stands for.
pub ghost struct SourceRoot {
    pub path: Seq<char>,
    pub category: SourceCategory,
}

impl View for SourceDir {
    type V = SourceRoot;

    open spec fn view(&self) -> SourceRoot {
        SourceRoot { path: self.path@, category: self.category }
    }
}

/// One step of a build. The steps of a plan are carried out in order, and
/// the first that fails ends the build.
#[derive(Clone, Debug, PartialEq, Eq)]
pub enum Step {
    /// Create the directory `path`, and those above it.
    CreateDir { path: String },
    /// Copy the public headers found directly in `from` to `to`.
    CopyHeaders { from: String, to: String },
    /// Write `contents` to the file `path`.
    WriteFile { path: String, contents: String },
    /// Read the header of `patch`, and write its patched text to `to`.
    PatchHeader { patch: HeaderPatch, to: String },
    /// Compile the sources found directly in `dirs` into a static library.
    CompileSources { dirs: Vec<SourceDir>, configuration: BuildConfiguration },
    /// Compile `file` into a static library.
    CompileFile { file: String, configuration: BuildConfiguration },
    /// Hand `line` to the build orchestrator.
    Declare { line: String },
}

/// What a `Step` stands for.
pub ghost enum Planned {
    CreateDir { path: Seq<char> },
    CopyHeaders { from: Seq<char>, to: Seq<char> },
    WriteFile { path: Seq<char>, contents: Seq<char> },
    PatchHeader { header: Seq<char>, targets: Seq<Target>, to: Seq<char> },
    CompileSources { dirs: Seq<SourceRoot>, configuration: Configuration },
    CompileFile { file: Seq<char>, configuration: Configuration },
    Declare { line: Seq<char> },
}

impl View for Step {
    type V = Planned;

    open spec fn view(&self) -> Planned {
        match self {
            Step::CreateDir { path } => Planned::CreateDir { path: path@ },
            Step::CopyHeaders { from, to } => Planned::CopyHeaders { from: from@, to: to@ },
            Step::WriteFile { path, contents } => Planned::WriteFile {
                path: path@,
                contents: contents@,
            },
            Step::PatchHeader { patch, to } => Planned::PatchHeader {
                header: patch.header@,
                targets: patch.targets_view(),
                to: to@,
            },
            Step::CompileSources { dirs, configuration } => Planned::CompileSources {
                dirs: Seq::new(dirs@.len(), |i: int| dirs@[i]@),
                configuration: configuration@,
            },
            Step::CompileFile { file, configuration } => Planned::CompileFile {
                file: file@,
                configuration: configuration@,
            },
            Step::Declare { line } => Planned::Declare { line: line@ },
        }
    }
}

/// What `steps` stand for, in order.
pub open spec fn plan_of(steps: Seq<Step>) -> Seq<Planned> {
    Seq::new(steps.len(), |i: int| steps[i]@)
}

/// A declaration for each of `lines`, in order.
pub open spec fn declared(lines: Seq<Seq<char>>) -> Seq<Planned> {
    Seq::new(lines.len(), |i: int| Planned::Declare { line: lines[i] })
}

/// The root of the vendor tree below the package.
pub open spec fn vendor_root(manifest_dir: Seq<char>) -> Seq<char> {
    joined(manifest_dir, "vendor/nDPI"@)
}

/// The vendor's include directory.
pub open spec fn vendor_include_dir(manifest_dir: Seq<char>) -> Seq<char> {
    joined(vendor_root(manifest_dir), "src/include"@)
}

/// The vendor's library directory.
pub open spec fn vendor_lib_dir(manifest_dir: Seq<char>) -> Seq<char> {
    joined(vendor_root(manifest_dir), "src/lib"@)
}

/// The vendor's definitions header, which the build patches.
pub open spec fn vendor_define_header(manifest_dir: Seq<char>) -> Seq<char> {
    joined(vendor_root(manifest_dir), "windows/src/ndpi_define.h"@)
}

/// The directory of the generated headers below the output area.
pub open spec fn generated_include_dir(out_dir: Seq<char>) -> Seq<char> {
    joined(out_dir, "include"@)
}

/// The directories that hold the vendor's sources, each with its category.
pub open spec fn vendor_source_roots(manifest_dir: Seq<char>) -> Seq<SourceRoot> {
    let lib = vendor_lib_dir(manifest_dir);
    seq![
        SourceRoot { path: lib, category: SourceCategory::RootLibrary },
        SourceRoot { path: joined(lib, "protocols"@), category: SourceCategory::ProtocolHandlers },
        SourceRoot {
            path: joined(lib, "third_party/src"@),
            category: SourceCategory::ThirdPartyHelpers,
        },
        SourceRoot {
            path: joined(lib, "third_party/src/hll"@),
            category: SourceCategory::ThirdPartyHelpers,
        },
    ]
}

/// Where the parts of the vendor tree stand.
#[derive(Clone, Debug, PartialEq, Eq)]
pub struct VendorLayout {
    pub root: String,
    pub include_dir: String,
    pub lib_dir: String,
    pub define_header: String,
    pub source_dirs: Vec<SourceDir>,
}

/// A source directory.
fn source_dir(path: String, category: SourceCategory) -> (dir: SourceDir)
    ensures
        dir@ == (SourceRoot { path: path@, category }),
{
    SourceDir { path, category }
}

/// The layout of the vendor tree of the package at `manifest_dir`.
pub fn vendor_layout(manifest_dir: &str) -> (layout: VendorLayout)
    ensures
        layout.root@ == vendor_root(manifest_dir@),
        layout.include_dir@ == vendor_include_dir(manifest_dir@),
        layout.lib_dir@ == vendor_lib_dir(manifest_dir@),
        layout.define_header@ == vendor_define_header(manifest_dir@),
        Seq::new(layout.source_dirs@.len(), |i: int| layout.source_dirs@[i]@)
            == vendor_source_roots(manifest_dir@),
{
    let root = join(manifest_dir, "vendor/nDPI");
    let include_dir = join(root.as_str(), "src/include");
    let lib_dir = join(root.as_str(), "src/lib");
    let define_header = join(root.as_str(), "windows/src/ndpi_define.h");
    let mut source_dirs: Vec<SourceDir> = Vec::new();
    source_dirs.push(source_dir(lib_dir.clone(), SourceCategory::RootLibrary));
    source_dirs.push(
        source_dir(join(lib_dir.as_str(), "protocols"), SourceCategory::ProtocolHandlers),
    );
    source_dirs.push(
        source_dir(join(lib_dir.as_str(), "third_party/src"), SourceCategory::ThirdPartyHelpers),
    );
    source_dirs.push(
        source_dir(
            join(lib_dir.as_str(), "third_party/src/hll"),
            SourceCategory::ThirdPartyHelpers,
        ),
    );
    proof {
        assert(Seq::new(source_dirs@.len(), |i: int| source_dirs@[i]@) =~= vendor_source_roots(
            manifest_dir@,
        ));
    }
    VendorLayout { root, include_dir, lib_dir, define_header, source_dirs }
}

/// Whether the vendor tree is there: both its include directory and its
/// library directory are directories. Where it is not, the build ends, and
/// the error names the root of the tree.
pub fn ensure_ndpi_sources_present(ndpi_dir: &str, include_is_dir: bool, lib_is_dir: bool) -> (r:
    Result<(), BuildError>)
    ensures
        r is Ok <==> include_is_dir && lib_is_dir,
        r matches Err(e) ==> e@ == (Failure::MissingVendorTree { dir: ndpi_dir@ }),
{
    if include_is_dir && lib_is_dir {
        Ok(())
    } else {
        Err(BuildError::MissingVendorTree { dir: String::from_str(ndpi_dir) })
    }
}

/// `prefix` with `rest` after it.
fn prefixed(prefix: &str, rest: &str) -> (out: String)
    ensures
        out@ == prefix@ + rest@,
{
    let mut out = String::from_str(prefix);
    out.append(rest);
    out
}

/// A declaration of `line`.
fn declare(line: String) -> (step: Step)
    ensures
        step@ == (Planned::Declare { line: line@ }),
{
    Step::Declare { line }
}

/// Appends to `steps` a declaration for each of `directives` that holds for
/// the target `target_os`.
fn push_link_steps(steps: &mut Vec<Step>, directives: &Vec<LinkDirective>, target_os: &str)
    ensures
        plan_of(final(steps)@) == plan_of(old(steps)@) + declared(
            emitted(links_of(directives@), target_os@),
        ),
{
    let lines = link_lines(directives, target_os);
    let ghost before = plan_of(steps@);
    let ghost texts = texts_of(lines@);
    let mut i: usize = 0;
    proof {
        assert(plan_of(steps@) =~= before + declared(texts.take(0)));
    }
    while i < lines.len()
        invariant
            0 <= i <= lines.len(),
            texts == texts_of(lines@),
            plan_of(steps@) == before + declared(texts.take(i as int)),
        decreases lines.len() - i,
    {
        let ghost so_far = plan_of(steps@);
        let step = declare(lines[i].clone());
        steps.push(step);
        proof {
            assert(step@ == (Planned::Declare { line: texts[i as int] }));
            assert(plan_of(steps@) =~= so_far.push(step@));
            assert(declared(texts.take(i + 1)) =~= declared(texts.take(i as int)).push(step@));
            assert(plan_of(steps@) =~= before + declared(texts.take(i + 1)));
        }
        i = i + 1;
    }
    proof {
        assert(texts.take(lines.len() as int) =~= texts);
    }
}

/// What the build of the vendor library is given: the directory of its
/// package, its output area, and the operating system it builds for.
#[derive(Clone, Debug, PartialEq, Eq)]
pub struct VendorEnvironment {
    pub manifest_dir: String,
    pub out_dir: String,
    pub target_os: String,
}

/// The steps that build the vendor library: make the directory of the
/// generated headers, copy the public headers there, write the synthesized
/// configuration header and the patched definitions header beside them,
/// compile the sources with the generated headers first in the search
/// order, declare the math library where the target has one, and tell the
/// packages that depend on this one where the headers are.
pub open spec fn vendor_plan(manifest_dir: Seq<char>, out_dir: Seq<char>, target_os: Seq<char>) -> Seq<
    Planned,
> {
    let generated = generated_include_dir(out_dir);
    seq![
        Planned::CreateDir { path: generated },
        Planned::Declare { line: "cargo:rerun-if-changed=build.rs"@ },
        Planned::Declare {
            line: "cargo:rerun-if-changed="@ + vendor_define_header(manifest_dir),
        },
        Planned::CopyHeaders { from: vendor_include_dir(manifest_dir), to: generated },
        Planned::WriteFile {
            path: joined(generated, "ndpi_config.h"@),
            contents: config_header_text("5.0.0"@, "unknown"@),
        },
        Planned::PatchHeader {
            header: vendor_define_header(manifest_dir),
            targets: ndpi_define_targets(),
            to: joined(generated, "ndpi_define.h"@),
        },
        Planned::CompileSources {
            dirs: vendor_source_roots(manifest_dir),
            configuration: vendor_configuration(
                generated,
                vendor_include_dir(manifest_dir),
                vendor_lib_dir(manifest_dir),
            ),
        },
    ] + declared(emitted(seq![math_link()], target_os)) + seq![
        Planned::Declare { line: "cargo:include="@ + generated },
    ]
}

/// Plans the build of the vendor library. There is a plan if and only if
/// the vendor tree is there; without the tree nothing is planned, so that
/// nothing is written and nothing compiled.
pub fn plan_vendor_build(env: &VendorEnvironment, include_is_dir: bool, lib_is_dir: bool) -> (r:
    Result<Vec<Step>, BuildError>)
    ensures
        r is Ok <==> include_is_dir && lib_is_dir,
        r matches Ok(steps) ==> plan_of(steps@) == vendor_plan(
            env.manifest_dir@,
            env.out_dir@,
            env.target_os@,
        ),
        r matches Err(e) ==> e@ == (Failure::MissingVendorTree {
            dir: vendor_root(env.manifest_dir@),
        }),
{
    let layout = vendor_layout(env.manifest_dir.as_str());
    match ensure_ndpi_sources_present(layout.root.as_str(), include_is_dir, lib_is_dir) {
        Err(e) => {
            return Err(e);
        },
        Ok(()) => {},
    }
    let generated = join(env.out_dir.as_str(), "include");
    let configuration = vendor_library_configuration(
        generated.as_str(),
        layout.include_dir.as_str(),
        layout.lib_dir.as_str(),
    );
    let mut steps: Vec<Step> = Vec::new();
    steps.push(Step::CreateDir { path: generated.clone() });
    steps.push(declare(String::from_str("cargo:rerun-if-changed=build.rs")));
    steps.push(declare(prefixed("cargo:rerun-if-changed=", layout.define_header.as_str())));
    steps.push(Step::CopyHeaders { from: layout.include_dir.clone(), to: generated.clone() });
    steps.push(
        Step::WriteFile {
            path: join(generated.as_str(), "ndpi_config.h"),
            contents: ndpi_config_header(),
        },
    );
    steps.push(
        Step::PatchHeader {
            patch: ndpi_define_patch(layout.define_header.as_str()),
            to: join(generated.as_str(), "ndpi_define.h"),
        },
    );
    steps.push(Step::CompileSources { dirs: layout.source_dirs, configuration });
    let ghost head = plan_of(steps@);
    let mut directives: Vec<LinkDirective> = Vec::new();
    directives.push(math_library());
    proof {
        assert(links_of(directives@) =~= seq![math_link()]);
    }
    push_link_steps(&mut steps, &directives, env.target_os.as_str());
    let ghost body = plan_of(steps@);
    steps.push(declare(prefixed("cargo:include=", generated.as_str())));
    proof {
        let last = Planned::Declare { line: "cargo:include="@ + generated@ };
        assert(plan_of(steps@) =~= body + seq![last]);
        assert(head =~= vendor_plan(env.manifest_dir@, env.out_dir@, env.target_os@).take(7));
        assert(plan_of(steps@) =~= vendor_plan(env.manifest_dir@, env.out_dir@, env.target_os@));
    }
    Ok(steps)
}

/// What the build of the plugin is given: the directory of its package,
/// the directory of the host application's headers if the environment names
/// one, the directory of the vendor library's headers if the build of that
/// library gave one, the version of the package, and the operating system
/// it builds for.
#[derive(Clone, Debug, PartialEq, Eq)]
pub struct PluginEnvironment {
    pub manifest_dir: String,
    pub host_include_dir: Option<String>,
    pub vendor_include_dir: Option<String>,
    pub package_version: String,
    pub target_os: String,
}

/// What an optional string holds.
pub open spec fn text_of(s: Option<String>) -> Option<Seq<char>> {
    match s {
        Some(s) => Some(s@),
        None => None,
    }
}

/// The directory of the host application's headers: the configured one, or
/// the place where a system keeps them.
pub open spec fn resolved_host_dir(configured: Option<Seq<char>>) -> Seq<char> {
    match configured {
        Some(dir) => dir,
        None => "/usr/include/suricata"@,
    }
}

/// The directory to look for the host application's headers in.
pub fn host_include_dir(env: &PluginEnvironment) -> (dir: String)
    ensures
        dir@ == resolved_host_dir(text_of(env.host_include_dir)),
{
    match &env.host_include_dir {
        Some(dir) => dir.clone(),
        None => String::from_str("/usr/include/suricata"),
    }
}

/// The steps that build the plugin's own C unit and declare what the
/// plugin is linked with: the vendor library, and the math library where
/// the target has one.
pub open spec fn plugin_plan(
    manifest_dir: Seq<char>,
    host_dir: Seq<char>,
    vendor_include_dir: Seq<char>,
    version: Seq<char>,
    target_os: Seq<char>,
) -> Seq<Planned> {
    seq![
        Planned::Declare { line: "cargo:rerun-if-changed=build.rs"@ },
        Planned::Declare { line: "cargo:rerun-if-changed=Cargo.toml"@ },
        Planned::Declare { line: "cargo:rerun-if-changed=src/plugin.c"@ },
        Planned::Declare { line: "cargo:rerun-if-env-changed=SURICATA_INCLUDE_DIR"@ },
        Planned::Declare { line: "cargo:rerun-if-env-changed=DEP_NDPI_INCLUDE"@ },
        Planned::CompileFile {
            file: joined(manifest_dir, "src/plugin.c"@),
            configuration: shim_configuration(host_dir, vendor_include_dir, version),
        },
    ] + declared(emitted(seq![vendor_link(), math_link()], target_os))
}

/// Plans the build of the plugin. There is a plan if and only if the
/// environment names the directory of the vendor library's headers and the
/// directory of the host application's headers is a directory; the first of
/// the two that is missing is the error.
pub fn plan_plugin_build(env: &PluginEnvironment, host_include_is_dir: bool) -> (r: Result<
    Vec<Step>,
    BuildError,
>)
    ensures
        r is Ok <==> env.vendor_include_dir is Some && host_include_is_dir,
        r matches Ok(steps) ==> plan_of(steps@) == plugin_plan(
            env.manifest_dir@,
            resolved_host_dir(text_of(env.host_include_dir)),
            text_of(env.vendor_include_dir)->0,
            env.package_version@,
            env.target_os@,
        ),
        r matches Err(e) ==> e@ == (if env.vendor_include_dir is None {
            Failure::MissingVendorInclude
        } else {
            Failure::MissingHostInclude { dir: resolved_host_dir(text_of(env.host_include_dir)) }
        }),
{
    let host_dir = host_include_dir(env);
    let vendor_dir = match &env.vendor_include_dir {
        Some(dir) => dir,
        None => {
            return Err(BuildError::MissingVendorInclude);
        },
    };
    if !host_include_is_dir {
        return Err(BuildError::MissingHostInclude { dir: host_dir });
    }
    let configuration = plugin_shim_configuration(
        host_dir.as_str(),
        vendor_dir.as_str(),
        env.package_version.as_str(),
    );
    let mut steps: Vec<Step> = Vec::new();
    steps.push(declare(String::from_str("cargo:rerun-if-changed=build.rs")));
    steps.push(declare(String::from_str("cargo:rerun-if-changed=Cargo.toml")));
    steps.push(declare(String::from_str("cargo:rerun-if-changed=src/plugin.c")));
    steps.push(declare(String::from_str("cargo:rerun-if-env-changed=SURICATA_INCLUDE_DIR")));
    steps.push(declare(String::from_str("cargo:rerun-if-env-changed=DEP_NDPI_INCLUDE")));
    steps.push(
        Step::CompileFile {
            file: join(env.manifest_dir.as_str(), "src/plugin.c"),
            configuration,
        },
    );
    let ghost head = plan_of(steps@);
    let mut directives: Vec<LinkDirective> = Vec::new();
    directives.push(vendor_library());
    directives.push(math_library());
    proof {
        assert(links_of(directives@) =~= seq![vendor_link(), math_link()]);
    }
    push_link_steps(&mut steps, &directives, env.target_os.as_str());
    proof {
        let want = plugin_plan(
            env.manifest_dir@,
            resolved_host_dir(text_of(env.host_include_dir)),
            text_of(env.vendor_include_dir)->0,
            env.package_version@,
            env.target_os@,
        );
        assert(head =~= want.take(6));
        assert(plan_of(steps@) =~= want);
    }
    Ok(steps)
}

/// The line that declares the math library.
pub open spec fn math_library_line() -> Seq<char> {
    "cargo:rustc-link-lib=m"@
}

/// Whether `plan` declares the math library.
pub open spec fn declares_math_library(plan: Seq<Planned>) -> bool {
    exists|i: int|
        0 <= i < plan.len() && #[trigger] plan[i] == (Planned::Declare { line: math_library_line() })
}

/// What a plan declares of libraries: the math library if the target is of
/// another operating system than the one without it, and after `first`.
proof fn lemma_link_declarations(first: Seq<Link>, target_os: Seq<char>)
    ensures
        emitted(first.push(math_link()), target_os) == if target_os == os_without_math_library() {
            emitted(first, target_os)
        } else {
            emitted(first, target_os).push(math_library_line())
        },
        emitted(Seq::<Link>::empty(), target_os) == Seq::<Seq<char>>::empty(),
        emitted(seq![vendor_link()], target_os) == seq![directive_text(vendor_link())],
        directive_text(vendor_link()) != math_library_line(),
{
    let all = first.push(math_link());
    assert(all.drop_last() =~= first);
    assert(all.last() == math_link());
    reveal_strlit("cargo:rustc-link-lib=m");
    reveal_strlit("cargo:rustc-link-lib=");
    reveal_strlit("cargo:rustc-link-lib=static=");
    reveal_strlit("m");
    assert(directive_text(math_link()) =~= math_library_line());
    let one = seq![vendor_link()];
    assert(one.drop_last() =~= Seq::<Link>::empty());
    assert(one.last() == vendor_link());
    assert(emitted(one.drop_last(), target_os) =~= Seq::<Seq<char>>::empty());
    assert(applies(vendor_link(), target_os));
    assert(emitted(one, target_os) =~= seq![directive_text(vendor_link())]);
    assert(directive_text(vendor_link())[21] == 's');
    assert(math_library_line()[21] == 'm');
}

/// The plan of the plugin declares the math library for every target but
/// those of the one operating system that has none.
pub proof fn lemma_plugin_plan_math_library(
    manifest_dir: Seq<char>,
    host_dir: Seq<char>,
    vendor_include_dir: Seq<char>,
    version: Seq<char>,
    target_os: Seq<char>,
)
    ensures
        declares_math_library(
            plugin_plan(manifest_dir, host_dir, vendor_include_dir, version, target_os),
        ) <==> target_os != os_without_math_library(),
{
    let plan = plugin_plan(manifest_dir, host_dir, vendor_include_dir, version, target_os);
    let math = Planned::Declare { line: math_library_line() };
    lemma_link_declarations(seq![vendor_link()], target_os);
    assert(seq![vendor_link()].push(math_link()) =~= seq![vendor_link(), math_link()]);
    reveal_strlit("cargo:rustc-link-lib=m");
    reveal_strlit("cargo:rerun-if-changed=build.rs");
    reveal_strlit("cargo:rerun-if-changed=Cargo.toml");
    reveal_strlit("cargo:rerun-if-changed=src/plugin.c");
    reveal_strlit("cargo:rerun-if-env-changed=SURICATA_INCLUDE_DIR");
    reveal_strlit("cargo:rerun-if-env-changed=DEP_NDPI_INCLUDE");
    assert("cargo:rerun-if-changed=build.rs"@[7] == 'e');
    assert("cargo:rerun-if-changed=Cargo.toml"@[7] == 'e');
    assert("cargo:rerun-if-changed=src/plugin.c"@[7] == 'e');
    assert("cargo:rerun-if-env-changed=SURICATA_INCLUDE_DIR"@[7] == 'e');
    assert("cargo:rerun-if-env-changed=DEP_NDPI_INCLUDE"@[7] == 'e');
    assert(math_library_line()[7] == 'u');
    assert(plan[0] != math);
    assert(plan[1] != math);
    assert(plan[2] != math);
    assert(plan[3] != math);
    assert(plan[4] != math);
    assert(plan[5] != math);
    assert(plan[6] != math);
    if target_os != os_without_math_library() {
        assert(plan.len() == 8);
        assert(plan[7] == math);
    } else {
        assert(plan.len() == 7);
    }
}

/// The plan of the vendor library declares the math library for every
/// target but those of the one operating system that has none.
pub proof fn lemma_vendor_plan_math_library(
    manifest_dir: Seq<char>,
    out_dir: Seq<char>,
    target_os: Seq<char>,
)
    ensures
        declares_math_library(vendor_plan(manifest_dir, out_dir, target_os)) <==> target_os
            != os_without_math_library(),
{
    let plan = vendor_plan(manifest_dir, out_dir, target_os);
    let math = Planned::Declare { line: math_library_line() };
    lemma_link_declarations(Seq::empty(), target_os);
    assert(Seq::<Link>::empty().push(math_link()) =~= seq![math_link()]);
    reveal_strlit("cargo:rustc-link-lib=m");
    reveal_strlit("cargo:rerun-if-changed=build.rs");
    reveal_strlit("cargo:rerun-if-changed=");
    reveal_strlit("cargo:include=");
    let header_line = "cargo:rerun-if-changed="@ + vendor_define_header(manifest_dir);
    let include_line = "cargo:include="@ + generated_include_dir(out_dir);
    assert(header_line[7] == 'e' && math_library_line()[7] == 'u');
    assert(include_line[6] == 'i' && math_library_line()[6] == 'r');
    assert("cargo:rerun-if-changed=build.rs"@[7] == 'e');
    assert(plan[0] != math);
    assert(plan[1] != math);
    assert(plan[2] != math);
    assert(plan[3] != math);
    assert(plan[4] != math);
    assert(plan[5] != math);
    assert(plan[6] != math);
    if target_os != os_without_math_library() {
        assert(plan.len() == 9);
        assert(plan[7] == math);
        assert(plan[8] != math);
    } else {
        assert(plan.len() == 8);
        assert(plan[7] != math);
    }
}

/// The line that has the build run again when `path` changes.
pub fn rerun_if_changed(path: &str) -> (line: String)
    ensures
        line@ == "cargo:rerun-if-changed="@ + path@,
{
    prefixed("cargo:rerun-if-changed=", path)
}

} // verus!
