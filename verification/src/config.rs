//! Build configurations: what a native compilation is given besides its
//! sources.

use crate::path::{join, joined};
use crate::text::texts_of;
use vstd::prelude::*;
use vstd::string::StringExecFns;

verus! {

/// Where the headers of an include directory come from.
#[derive(Clone, Copy, Debug, PartialEq, Eq)]
pub enum HeaderOrigin {
    /// Written by the build: synthesized and patched headers, and copies.
    Generated,
    /// The vendor tree as it was delivered.
    Vendor,
    /// The host application.
    Host,
}

/// A directory that the compiler searches for headers.
#[derive(Clone, Debug, PartialEq, Eq)]
pub struct IncludeDir {
    pub path: String,
    pub origin: HeaderOrigin,
}

/// A preprocessor definition, with or without a value.
#[derive(Clone, Debug, PartialEq, Eq)]
pub struct Define {
    pub name: String,
    pub value: Option<String>,
}

/// What a static library is compiled with.
#[derive(Clone, Debug, PartialEq, Eq)]
pub struct BuildConfiguration {
    /// The include directories; the compiler searches them in this order.
    pub includes: Vec<IncludeDir>,
    /// The preprocessor definitions.
    pub defines: Vec<Define>,
    /// Compiler flags, each passed on only if the compiler knows it.
    pub flags: Vec<String>,
    /// The name of the library to produce.
    pub library: String,
}

/// What an `IncludeDir` stands for.
pub ghost struct Include {
    pub path: Seq<char>,
    pub origin: HeaderOrigin,
}

/// What a `Define` stands for.
pub ghost struct Definition {
    pub name: Seq<char>,
    pub value: Option<Seq<char>>,
}

/// What a `BuildConfiguration` stands for.
pub ghost struct Configuration {
    pub includes: Seq<Include>,
    pub defines: Seq<Definition>,
    pub flags: Seq<Seq<char>>,
    pub library: Seq<char>,
}

impl View for IncludeDir {
    type V = Include;

    open spec fn view(&self) -> Include {
        Include { path: self.path@, origin: self.origin }
    }
}

impl View for Define {
    type V = Definition;

    open spec fn view(&self) -> Definition {
        Definition {
            name: self.name@,
            value: match self.value {
                Some(value) => Some(value@),
                None => None,
            },
        }
    }
}

impl View for BuildConfiguration {
    type V = Configuration;

    open spec fn view(&self) -> Configuration {
        Configuration {
            includes: Seq::new(self.includes@.len(), |i: int| self.includes@[i]@),
            defines: Seq::new(self.defines@.len(), |i: int| self.defines@[i]@),
            flags: texts_of(self.flags@),
            library: self.library@,
        }
    }
}

/// Whether every directory of generated headers comes before every
/// directory of the vendor's own: a generated header then hides the
/// original of the same name.
pub open spec fn shadowing_in_order(includes: Seq<Include>) -> bool {
    forall|g: int, v: int|
        0 <= g < includes.len() && 0 <= v < includes.len() && (#[trigger] includes[g]).origin
            == HeaderOrigin::Generated && (#[trigger] includes[v]).origin == HeaderOrigin::Vendor
            ==> g < v
}

impl BuildConfiguration {
    /// The invariant of a configuration: generated headers shadow the
    /// vendor's originals.
    pub open spec fn well_formed(&self) -> bool {
        shadowing_in_order(self@.includes)
    }
}

/// The first of the directories that provides a header, given which of them
/// provide it; their number if none does. This is where the compiler finds
/// the header.
pub open spec fn first_provider(provides: Seq<bool>) -> int
    decreases provides.len(),
{
    if provides.len() == 0 {
        0
    } else if provides[0] {
        0
    } else {
        1 + first_provider(provides.drop_first())
    }
}

/// The first provider provides, and nothing before it does.
pub proof fn lemma_first_provider(provides: Seq<bool>)
    ensures
        0 <= first_provider(provides) <= provides.len(),
        first_provider(provides) < provides.len() ==> provides[first_provider(provides)],
        forall|i: int| 0 <= i < first_provider(provides) ==> !provides[i],
    decreases provides.len(),
{
    if provides.len() > 0 && !provides[0] {
        let rest = provides.drop_first();
        lemma_first_provider(rest);
        assert forall|i: int| 0 <= i < first_provider(provides) implies !provides[i] by {
            if i > 0 {
                assert(provides[i] == rest[i - 1]);
            }
        }
    }
}

/// Shadowing: where a directory of generated headers and a directory of the
/// vendor's both provide a header, the compiler finds the header in a
/// directory that is not the vendor's.
pub proof fn lemma_generated_shadows_vendor(includes: Seq<Include>, provides: Seq<bool>, g: int)
    requires
        shadowing_in_order(includes),
        provides.len() == includes.len(),
        0 <= g < includes.len(),
        includes[g].origin == HeaderOrigin::Generated,
        provides[g],
    ensures
        0 <= first_provider(provides) <= g,
        includes[first_provider(provides)].origin != HeaderOrigin::Vendor,
{
    lemma_first_provider(provides);
}

/// The configuration of the vendor library: the generated headers first,
/// then the vendor's include directory, its library directory and the
/// third-party headers below that.
pub open spec fn vendor_configuration(
    generated_dir: Seq<char>,
    include_dir: Seq<char>,
    lib_dir: Seq<char>,
) -> Configuration {
    Configuration {
        includes: seq![
            Include { path: generated_dir, origin: HeaderOrigin::Generated },
            Include { path: include_dir, origin: HeaderOrigin::Vendor },
            Include { path: lib_dir, origin: HeaderOrigin::Vendor },
            Include { path: joined(lib_dir, "third_party/include"@), origin: HeaderOrigin::Vendor },
        ],
        defines: seq![
            Definition { name: "NDPI_LIB_COMPILATION"@, value: None },
            Definition { name: "_DEFAULT_SOURCE"@, value: Some("1"@) },
            Definition { name: "_GNU_SOURCE"@, value: Some("1"@) },
        ],
        flags: seq![
            "-std=gnu11"@,
            "-fPIC"@,
            "-Wno-unused-function"@,
            "-Wno-unused-parameter"@,
            "-Wno-attributes"@,
        ],
        library: "ndpi"@,
    }
}

/// The configuration of the plugin's own C unit: the host's headers, then
/// the headers that the vendor library's build put out, and the plugin's
/// version as a string literal of C.
pub open spec fn shim_configuration(
    host_dir: Seq<char>,
    vendor_include_dir: Seq<char>,
    version: Seq<char>,
) -> Configuration {
    Configuration {
        includes: seq![
            Include { path: host_dir, origin: HeaderOrigin::Host },
            Include { path: vendor_include_dir, origin: HeaderOrigin::Generated },
        ],
        defines: seq![
            Definition { name: "NDPI_PLUGIN_VERSION"@, value: Some("\""@ + version + "\""@) },
        ],
        flags: seq!["-std=gnu11"@, "-Wno-unused-parameter"@],
        library: "plugin_shim"@,
    }
}

/// Both configurations keep the generated headers before the vendor's.
pub proof fn lemma_configurations_shadow(a: Seq<char>, b: Seq<char>, c: Seq<char>)
    ensures
        shadowing_in_order(vendor_configuration(a, b, c).includes),
        shadowing_in_order(shim_configuration(a, b, c).includes),
{
}

/// An include directory.
fn include_dir(path: &str, origin: HeaderOrigin) -> (dir: IncludeDir)
    ensures
        dir@ == (Include { path: path@, origin }),
{
    IncludeDir { path: String::from_str(path), origin }
}

/// A definition of `name` as `value`.
fn define(name: &str, value: Option<String>) -> (d: Define)
    ensures
        d.name@ == name@,
        d.value == value,
{
    Define { name: String::from_str(name), value }
}

/// The configuration that the vendor library is compiled with.
pub fn vendor_library_configuration(generated_dir: &str, include_dir_path: &str, lib_dir: &str) -> (c:
    BuildConfiguration)
    ensures
        c@ == vendor_configuration(generated_dir@, include_dir_path@, lib_dir@),
        c.well_formed(),
{
    let third_party = join(lib_dir, "third_party/include");
    let mut includes: Vec<IncludeDir> = Vec::new();
    includes.push(include_dir(generated_dir, HeaderOrigin::Generated));
    includes.push(include_dir(include_dir_path, HeaderOrigin::Vendor));
    includes.push(include_dir(lib_dir, HeaderOrigin::Vendor));
    includes.push(include_dir(third_party.as_str(), HeaderOrigin::Vendor));
    let mut defines: Vec<Define> = Vec::new();
    defines.push(define("NDPI_LIB_COMPILATION", None));
    defines.push(define("_DEFAULT_SOURCE", Some(String::from_str("1"))));
    defines.push(define("_GNU_SOURCE", Some(String::from_str("1"))));
    let mut flags: Vec<String> = Vec::new();
    flags.push(String::from_str("-std=gnu11"));
    flags.push(String::from_str("-fPIC"));
    flags.push(String::from_str("-Wno-unused-function"));
    flags.push(String::from_str("-Wno-unused-parameter"));
    flags.push(String::from_str("-Wno-attributes"));
    let c = BuildConfiguration { includes, defines, flags, library: String::from_str("ndpi") };
    proof {
        let want = vendor_configuration(generated_dir@, include_dir_path@, lib_dir@);
        assert(c@.includes =~= want.includes);
        assert(c@.defines =~= want.defines);
        assert(c@.flags =~= want.flags);
    }
    c
}

/// The configuration that the plugin's own C unit is compiled with.
pub fn plugin_shim_configuration(host_dir: &str, vendor_include_dir: &str, version: &str) -> (c:
    BuildConfiguration)
    ensures
        c@ == shim_configuration(host_dir@, vendor_include_dir@, version@),
        c.well_formed(),
{
    let mut includes: Vec<IncludeDir> = Vec::new();
    includes.push(include_dir(host_dir, HeaderOrigin::Host));
    includes.push(include_dir(vendor_include_dir, HeaderOrigin::Generated));
    let mut quoted = String::from_str("\"");
    quoted.append(version);
    quoted.append("\"");
    let mut defines: Vec<Define> = Vec::new();
    defines.push(define("NDPI_PLUGIN_VERSION", Some(quoted)));
    let mut flags: Vec<String> = Vec::new();
    flags.push(String::from_str("-std=gnu11"));
    flags.push(String::from_str("-Wno-unused-parameter"));
    let c = BuildConfiguration {
        includes,
        defines,
        flags,
        library: String::from_str("plugin_shim"),
    };
    proof {
        let want = shim_configuration(host_dir@, vendor_include_dir@, version@);
        assert(c@.includes =~= want.includes);
        assert(c@.defines =~= want.defines);
        assert(c@.flags =~= want.flags);
    }
    c
}

} // verus!
