//! The ways in which a build ends without an artifact.

use vstd::prelude::*;
use vstd::string::StringExecFns;

verus! {

/// What was being done to the file system when it failed.
#[derive(Clone, Copy, Debug, PartialEq, Eq)]
pub enum FsOperation {
    CreateDir,
    ListDir,
    Copy,
    Read,
    Write,
}

impl FsOperation {
    /// The words for the operation in a message.
    pub open spec fn phrase(self) -> Seq<char> {
        match self {
            FsOperation::CreateDir => "create directory"@,
            FsOperation::ListDir => "read directory"@,
            FsOperation::Copy => "copy"@,
            FsOperation::Read => "read"@,
            FsOperation::Write => "write"@,
        }
    }
}

/// Why a build was given up. Every one of these is final: nothing is
/// retried, and nothing is built in part.
#[derive(Clone, Debug, PartialEq, Eq)]
pub enum BuildError {
    /// The vendor source tree is not where it is expected.
    MissingVendorTree { dir: String },
    /// The environment names no directory for the vendor library's headers.
    MissingVendorInclude,
    /// The directory of the host application's headers is absent, or is no
    /// directory.
    MissingHostInclude { dir: String },
    /// Reading or writing a header, or a directory of headers, failed.
    Filesystem { operation: FsOperation, path: String, detail: String },
    /// The native compiler failed.
    Compilation { diagnostic: String },
}

/// What a `BuildError` stands for.
pub ghost enum Failure {
    MissingVendorTree { dir: Seq<char> },
    MissingVendorInclude,
    MissingHostInclude { dir: Seq<char> },
    Filesystem { operation: FsOperation, path: Seq<char>, detail: Seq<char> },
    Compilation { diagnostic: Seq<char> },
}

impl View for BuildError {
    type V = Failure;

    open spec fn view(&self) -> Failure {
        match self {
            BuildError::MissingVendorTree { dir } => Failure::MissingVendorTree { dir: dir@ },
            BuildError::MissingVendorInclude => Failure::MissingVendorInclude,
            BuildError::MissingHostInclude { dir } => Failure::MissingHostInclude { dir: dir@ },
            BuildError::Filesystem { operation, path, detail } => Failure::Filesystem {
                operation: *operation,
                path: path@,
                detail: detail@,
            },
            BuildError::Compilation { diagnostic } => Failure::Compilation {
                diagnostic: diagnostic@,
            },
        }
    }
}

/// The message that tells of `failure`: it names what is missing, or gives
/// what the failing tool said.
pub open spec fn message_text(failure: Failure) -> Seq<char> {
    match failure {
        Failure::MissingVendorTree { dir } => "nDPI source tree not found at '"@ + dir
            + "'.\nThis repository expects nDPI as a git submodule.\nRun:\n  git submodule update --init --recursive"@,
        Failure::MissingVendorInclude => "missing DEP_NDPI_INCLUDE from ndpi-sys"@,
        Failure::MissingHostInclude { dir } => "Suricata include directory not found at '"@ + dir
            + "'. Set SURICATA_INCLUDE_DIR to override."@,
        Failure::Filesystem { operation, path, detail } => "failed to "@ + operation.phrase()
            + " '"@ + path + "': "@ + detail,
        Failure::Compilation { diagnostic } => "native compilation failed: "@ + diagnostic,
    }
}

impl BuildError {
    /// The message to end the build with.
    pub fn message(&self) -> (m: String)
        ensures
            m@ == message_text(self@),
    {
        match self {
            BuildError::MissingVendorTree { dir } => {
                let mut m = String::from_str("nDPI source tree not found at '");
                m.append(dir.as_str());
                m.append(
                    "'.\nThis repository expects nDPI as a git submodule.\nRun:\n  git submodule update --init --recursive",
                );
                m
            },
            BuildError::MissingVendorInclude => String::from_str(
                "missing DEP_NDPI_INCLUDE from ndpi-sys",
            ),
            BuildError::MissingHostInclude { dir } => {
                let mut m = String::from_str("Suricata include directory not found at '");
                m.append(dir.as_str());
                m.append("'. Set SURICATA_INCLUDE_DIR to override.");
                m
            },
            BuildError::Filesystem { operation, path, detail } => {
                let mut m = String::from_str("failed to ");
                match operation {
                    FsOperation::CreateDir => m.append("create directory"),
                    FsOperation::ListDir => m.append("read directory"),
                    FsOperation::Copy => m.append("copy"),
                    FsOperation::Read => m.append("read"),
                    FsOperation::Write => m.append("write"),
                }
                m.append(" '");
                m.append(path.as_str());
                m.append("': ");
                m.append(detail.as_str());
                m
            },
            BuildError::Compilation { diagnostic } => {
                let mut m = String::from_str("native compilation failed: ");
                m.append(diagnostic.as_str());
                m
            },
        }
    }
}

} // verus!
