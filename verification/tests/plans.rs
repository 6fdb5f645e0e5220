use ndpi_plugin::bridge::register_with;
use ndpi_plugin::config::{
    plugin_shim_configuration, vendor_library_configuration, BuildConfiguration, Define,
    HeaderOrigin, IncludeDir,
};
use ndpi_plugin::discovery::SourceCategory;
use ndpi_plugin::error::{BuildError, FsOperation};
use ndpi_plugin::header::{ndpi_config_header, ndpi_define_patch};
use ndpi_plugin::link::{link_lines, math_library, vendor_library, LinkDirective, LinkKind, Platform};
use ndpi_plugin::plan::{
    ensure_ndpi_sources_present, host_include_dir, plan_plugin_build, plan_vendor_build,
    rerun_if_changed, vendor_layout, PluginEnvironment, SourceDir, Step, VendorEnvironment,
};

fn search_dir(path: &str, origin: HeaderOrigin) -> IncludeDir {
    IncludeDir { path: path.to_string(), origin }
}

fn define(name: &str, value: Option<&str>) -> Define {
    Define { name: name.to_string(), value: value.map(|v| v.to_string()) }
}

fn declare(line: &str) -> Step {
    Step::Declare { line: line.to_string() }
}

fn strings(items: &[&str]) -> Vec<String> {
    items.iter().map(|s| s.to_string()).collect()
}

fn vendor_env(target_os: &str) -> VendorEnvironment {
    VendorEnvironment {
        manifest_dir: "/pkg/ndpi-sys".to_string(),
        out_dir: "/target/out".to_string(),
        target_os: target_os.to_string(),
    }
}

fn plugin_env(host: Option<&str>, vendor: Option<&str>, target_os: &str) -> PluginEnvironment {
    PluginEnvironment {
        manifest_dir: "/pkg".to_string(),
        host_include_dir: host.map(|s| s.to_string()),
        vendor_include_dir: vendor.map(|s| s.to_string()),
        package_version: "0.3.1".to_string(),
        target_os: target_os.to_string(),
    }
}

fn vendor_config() -> BuildConfiguration {
    BuildConfiguration {
        includes: vec![
            search_dir("/target/out/include", HeaderOrigin::Generated),
            search_dir("/pkg/ndpi-sys/vendor/nDPI/src/include", HeaderOrigin::Vendor),
            search_dir("/pkg/ndpi-sys/vendor/nDPI/src/lib", HeaderOrigin::Vendor),
            search_dir("/pkg/ndpi-sys/vendor/nDPI/src/lib/third_party/include", HeaderOrigin::Vendor),
        ],
        defines: vec![
            define("NDPI_LIB_COMPILATION", None),
            define("_DEFAULT_SOURCE", Some("1")),
            define("_GNU_SOURCE", Some("1")),
        ],
        flags: strings(&[
            "-std=gnu11",
            "-fPIC",
            "-Wno-unused-function",
            "-Wno-unused-parameter",
            "-Wno-attributes",
        ]),
        library: "ndpi".to_string(),
    }
}

fn vendor_source_dirs() -> Vec<SourceDir> {
    vec![
        SourceDir { path: "/pkg/ndpi-sys/vendor/nDPI/src/lib".to_string(), category: SourceCategory::RootLibrary },
        SourceDir {
            path: "/pkg/ndpi-sys/vendor/nDPI/src/lib/protocols".to_string(),
            category: SourceCategory::ProtocolHandlers,
        },
        SourceDir {
            path: "/pkg/ndpi-sys/vendor/nDPI/src/lib/third_party/src".to_string(),
            category: SourceCategory::ThirdPartyHelpers,
        },
        SourceDir {
            path: "/pkg/ndpi-sys/vendor/nDPI/src/lib/third_party/src/hll".to_string(),
            category: SourceCategory::ThirdPartyHelpers,
        },
    ]
}

fn vendor_steps_before_linking() -> Vec<Step> {
    vec![
        Step::CreateDir { path: "/target/out/include".to_string() },
        declare("cargo:rerun-if-changed=build.rs"),
        declare("cargo:rerun-if-changed=/pkg/ndpi-sys/vendor/nDPI/windows/src/ndpi_define.h"),
        Step::CopyHeaders {
            from: "/pkg/ndpi-sys/vendor/nDPI/src/include".to_string(),
            to: "/target/out/include".to_string(),
        },
        Step::WriteFile {
            path: "/target/out/include/ndpi_config.h".to_string(),
            contents: ndpi_config_header(),
        },
        Step::PatchHeader {
            patch: ndpi_define_patch("/pkg/ndpi-sys/vendor/nDPI/windows/src/ndpi_define.h"),
            to: "/target/out/include/ndpi_define.h".to_string(),
        },
        Step::CompileSources { dirs: vendor_source_dirs(), configuration: vendor_config() },
    ]
}

#[test]
fn the_vendor_layout_stands_below_the_package() {
    let layout = vendor_layout("/pkg/ndpi-sys");
    assert_eq!(layout.root, "/pkg/ndpi-sys/vendor/nDPI");
    assert_eq!(layout.include_dir, "/pkg/ndpi-sys/vendor/nDPI/src/include");
    assert_eq!(layout.lib_dir, "/pkg/ndpi-sys/vendor/nDPI/src/lib");
    assert_eq!(layout.define_header, "/pkg/ndpi-sys/vendor/nDPI/windows/src/ndpi_define.h");
    assert_eq!(layout.source_dirs, vendor_source_dirs());
}

#[test]
fn the_vendor_configuration_puts_generated_headers_first() {
    let c = vendor_library_configuration(
        "/target/out/include",
        "/pkg/ndpi-sys/vendor/nDPI/src/include",
        "/pkg/ndpi-sys/vendor/nDPI/src/lib",
    );
    assert_eq!(c, vendor_config());
    let first_vendor = c.includes.iter().position(|i| i.origin == HeaderOrigin::Vendor).unwrap();
    let last_generated = c.includes.iter().rposition(|i| i.origin == HeaderOrigin::Generated).unwrap();
    assert!(last_generated < first_vendor);
}

#[test]
fn the_shim_configuration_quotes_the_version() {
    let c = plugin_shim_configuration("/usr/include/suricata", "/target/out/include", "1.2.3");
    assert_eq!(
        c,
        BuildConfiguration {
            includes: vec![
                search_dir("/usr/include/suricata", HeaderOrigin::Host),
                search_dir("/target/out/include", HeaderOrigin::Generated),
            ],
            defines: vec![define("NDPI_PLUGIN_VERSION", Some("\"1.2.3\""))],
            flags: strings(&["-std=gnu11", "-Wno-unused-parameter"]),
            library: "plugin_shim".to_string(),
        }
    );
}

#[test]
fn the_vendor_plan_for_a_target_with_a_math_library() {
    let mut want = vendor_steps_before_linking();
    want.push(declare("cargo:rustc-link-lib=m"));
    want.push(declare("cargo:include=/target/out/include"));
    assert_eq!(plan_vendor_build(&vendor_env("linux"), true, true), Ok(want));
}

#[test]
fn the_vendor_plan_for_the_target_without_a_math_library() {
    let mut want = vendor_steps_before_linking();
    want.push(declare("cargo:include=/target/out/include"));
    assert_eq!(plan_vendor_build(&vendor_env("windows"), true, true), Ok(want));
}

#[test]
fn an_unknown_target_gets_the_math_library() {
    for os in ["", "macos", "freebsd", "Windows", "windows "] {
        let steps = plan_vendor_build(&vendor_env(os), true, true).unwrap();
        assert!(steps.contains(&declare("cargo:rustc-link-lib=m")), "{:?}", os);
    }
}

#[test]
fn without_the_vendor_tree_nothing_is_planned() {
    let want = Err(BuildError::MissingVendorTree { dir: "/pkg/ndpi-sys/vendor/nDPI".to_string() });
    assert_eq!(plan_vendor_build(&vendor_env("linux"), false, false), want);
    assert_eq!(plan_vendor_build(&vendor_env("linux"), true, false), want);
    assert_eq!(plan_vendor_build(&vendor_env("linux"), false, true), want);
}

#[test]
fn the_vendor_tree_needs_both_directories() {
    assert_eq!(ensure_ndpi_sources_present("/v", true, true), Ok(()));
    let missing = Err(BuildError::MissingVendorTree { dir: "/v".to_string() });
    assert_eq!(ensure_ndpi_sources_present("/v", true, false), missing);
    assert_eq!(ensure_ndpi_sources_present("/v", false, true), missing);
    assert_eq!(ensure_ndpi_sources_present("/v", false, false), missing);
}

#[test]
fn headers_are_written_before_the_sources_are_compiled() {
    let steps = plan_vendor_build(&vendor_env("linux"), true, true).unwrap();
    let compile = steps.iter().position(|s| matches!(s, Step::CompileSources { .. })).unwrap();
    for (i, step) in steps.iter().enumerate() {
        match step {
            Step::CreateDir { .. }
            | Step::CopyHeaders { .. }
            | Step::WriteFile { .. }
            | Step::PatchHeader { .. } => assert!(i < compile),
            Step::Declare { line } if line.starts_with("cargo:rustc-link-lib") => assert!(i > compile),
            _ => {}
        }
    }
}

#[test]
fn the_host_headers_default_to_the_place_of_the_system() {
    assert_eq!(host_include_dir(&plugin_env(None, Some("/v"), "linux")), "/usr/include/suricata");
    assert_eq!(host_include_dir(&plugin_env(Some("/opt/s/include"), None, "linux")), "/opt/s/include");
}

fn plugin_steps_before_linking(host: &str) -> Vec<Step> {
    vec![
        declare("cargo:rerun-if-changed=build.rs"),
        declare("cargo:rerun-if-changed=Cargo.toml"),
        declare("cargo:rerun-if-changed=src/plugin.c"),
        declare("cargo:rerun-if-env-changed=SURICATA_INCLUDE_DIR"),
        declare("cargo:rerun-if-env-changed=DEP_NDPI_INCLUDE"),
        Step::CompileFile {
            file: "/pkg/src/plugin.c".to_string(),
            configuration: BuildConfiguration {
                includes: vec![
                    search_dir(host, HeaderOrigin::Host),
                    search_dir("/target/out/include", HeaderOrigin::Generated),
                ],
                defines: vec![define("NDPI_PLUGIN_VERSION", Some("\"0.3.1\""))],
                flags: strings(&["-std=gnu11", "-Wno-unused-parameter"]),
                library: "plugin_shim".to_string(),
            },
        },
        declare("cargo:rustc-link-lib=static=ndpi"),
    ]
}

#[test]
fn the_plugin_plan_for_a_target_with_a_math_library() {
    let env = plugin_env(Some("/opt/s/include"), Some("/target/out/include"), "linux");
    let mut want = plugin_steps_before_linking("/opt/s/include");
    want.push(declare("cargo:rustc-link-lib=m"));
    assert_eq!(plan_plugin_build(&env, true), Ok(want));
}

#[test]
fn the_plugin_plan_for_the_target_without_a_math_library() {
    let env = plugin_env(None, Some("/target/out/include"), "windows");
    assert_eq!(plan_plugin_build(&env, true), Ok(plugin_steps_before_linking("/usr/include/suricata")));
}

#[test]
fn without_the_vendor_headers_nothing_is_planned() {
    let env = plugin_env(Some("/opt/s/include"), None, "linux");
    assert_eq!(plan_plugin_build(&env, true), Err(BuildError::MissingVendorInclude));
    assert_eq!(plan_plugin_build(&env, false), Err(BuildError::MissingVendorInclude));
}

#[test]
fn without_the_host_headers_nothing_is_planned() {
    let env = plugin_env(Some("/opt/s/include"), Some("/v"), "linux");
    assert_eq!(
        plan_plugin_build(&env, false),
        Err(BuildError::MissingHostInclude { dir: "/opt/s/include".to_string() })
    );
    let env = plugin_env(None, Some("/v"), "linux");
    assert_eq!(
        plan_plugin_build(&env, false),
        Err(BuildError::MissingHostInclude { dir: "/usr/include/suricata".to_string() })
    );
}

#[test]
fn link_directives_and_their_lines() {
    assert_eq!(
        vendor_library(),
        LinkDirective { library: "ndpi".to_string(), kind: LinkKind::Static, platform: Platform::Any }
    );
    assert_eq!(
        math_library(),
        LinkDirective {
            library: "m".to_string(),
            kind: LinkKind::System,
            platform: Platform::AllBut { target_os: "windows".to_string() },
        }
    );
    assert_eq!(vendor_library().line(), "cargo:rustc-link-lib=static=ndpi");
    assert_eq!(math_library().line(), "cargo:rustc-link-lib=m");
}

#[test]
fn the_math_library_is_linked_everywhere_but_on_windows() {
    let directives = vec![vendor_library(), math_library()];
    assert_eq!(
        link_lines(&directives, "linux"),
        strings(&["cargo:rustc-link-lib=static=ndpi", "cargo:rustc-link-lib=m"])
    );
    assert_eq!(
        link_lines(&directives, "macos"),
        strings(&["cargo:rustc-link-lib=static=ndpi", "cargo:rustc-link-lib=m"])
    );
    assert_eq!(link_lines(&directives, "windows"), strings(&["cargo:rustc-link-lib=static=ndpi"]));
    assert_eq!(
        link_lines(&directives, ""),
        strings(&["cargo:rustc-link-lib=static=ndpi", "cargo:rustc-link-lib=m"])
    );
    assert!(math_library().applies_to("linux"));
    assert!(!math_library().applies_to("windows"));
    assert!(vendor_library().applies_to("windows"));
    assert_eq!(link_lines(&Vec::new(), "linux"), Vec::<String>::new());
}

#[test]
fn a_changed_file_runs_the_build_again() {
    assert_eq!(rerun_if_changed("lib/a.c"), "cargo:rerun-if-changed=lib/a.c");
}

#[test]
fn every_error_names_what_went_wrong() {
    assert_eq!(
        BuildError::MissingVendorTree { dir: "/pkg/vendor/nDPI".to_string() }.message(),
        "nDPI source tree not found at '/pkg/vendor/nDPI'.\nThis repository expects nDPI as a git submodule.\nRun:\n  git submodule update --init --recursive"
    );
    assert_eq!(BuildError::MissingVendorInclude.message(), "missing DEP_NDPI_INCLUDE from ndpi-sys");
    assert_eq!(
        BuildError::MissingHostInclude { dir: "/usr/include/suricata".to_string() }.message(),
        "Suricata include directory not found at '/usr/include/suricata'. Set SURICATA_INCLUDE_DIR to override."
    );
    let ops = [
        (FsOperation::CreateDir, "create directory"),
        (FsOperation::ListDir, "read directory"),
        (FsOperation::Copy, "copy"),
        (FsOperation::Read, "read"),
        (FsOperation::Write, "write"),
    ];
    for (operation, phrase) in ops {
        let e = BuildError::Filesystem {
            operation,
            path: "/out/include/ndpi_define.h".to_string(),
            detail: "permission denied".to_string(),
        };
        assert_eq!(
            e.message(),
            format!("failed to {} '/out/include/ndpi_define.h': permission denied", phrase)
        );
    }
    assert_eq!(
        BuildError::Compilation { diagnostic: "ndpi_main.c:1: error: expected ';'".to_string() }.message(),
        "native compilation failed: ndpi_main.c:1: error: expected ';'"
    );
}

#[test]
fn the_messages_of_the_plans_errors() {
    let e = plan_vendor_build(&vendor_env("linux"), false, true).unwrap_err();
    assert!(e.message().starts_with("nDPI source tree not found at '/pkg/ndpi-sys/vendor/nDPI'."));
    let e = plan_plugin_build(&plugin_env(None, None, "linux"), true).unwrap_err();
    assert_eq!(e.message(), "missing DEP_NDPI_INCLUDE from ndpi-sys");
}

/// A handle as the host sees it: a value of the size of a pointer that it
/// does not look into.
#[derive(Clone, Copy, Debug, PartialEq, Eq)]
struct Handle(usize);

#[test]
fn the_bridge_hands_back_a_null_handle() {
    assert_eq!(register_with(|| Handle(0)), Handle(0));
    assert_eq!(register_with(|| 0usize), 0);
}

#[test]
fn the_bridge_hands_back_the_handle_it_was_given() {
    let given = Handle(0x7f12_3456_7890);
    assert_eq!(register_with(|| given), given);
    assert_eq!(register_with(|| usize::MAX), usize::MAX);
    let boxed = Box::new(7u64);
    let back = register_with(move || boxed);
    assert_eq!(*back, 7);
}

#[test]
fn the_bridge_calls_the_routine_once() {
    let mut calls = 0;
    let handle = register_with(|| {
        calls += 1;
        41usize + calls
    });
    assert_eq!(handle, 42);
    assert_eq!(calls, 1);
}
