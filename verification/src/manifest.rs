use vstd::prelude::*;
use vstd::string::StringExecFns;

use crate::lockfile::YarnLock;
use crate::rc::YarnRc;

verus! {

/// One known application of the host.
#[derive(Debug, Clone)]
pub struct App {
    /// Unique identifier of the application.
    pub id: String,
    pub name: String,
    /// Creation timestamp, kept verbatim.
    pub created: String,
}

/// One recorded backup of an application.
#[derive(Debug, Clone)]
pub struct Backup {
    /// Unique identifier of the backup.
    pub id: String,
    pub kind: Option<String>,
    pub message: Option<String>,
    /// Creation timestamp, kept verbatim.
    pub created: String,
}

/// The persisted manifest: a format version and the set of known
/// applications.
#[derive(Debug, Clone)]
pub struct Manifest {
    pub version: String,
    pub apps: Vec<App>,
}

/// The `package.json` fields the host reads.
#[derive(Debug, Clone)]
pub struct Package {
    pub name: String,
    /// The `name@major.minor.patch` descriptor of the package manager.
    pub package_manager: String,
}

/// Per-application snapshot of the dependency metadata the collector reads.
#[derive(Debug, Clone)]
pub struct Meta {
    pub package: Package,
    pub yarn_rc: YarnRc,
    pub yarn_lock: YarnLock,
}

/// One persisted dependency snapshot: an application's metadata, keyed by
/// the application and, for historical backup snapshots, by a backup.
#[derive(Debug, Clone)]
pub struct MetaRecord {
    /// The application this snapshot belongs to.
    pub app_id: String,
    /// The backup this snapshot was taken for, when it is a historical one.
    pub backup_id: Option<String>,
    pub meta: Meta,
}

/// Failure to initialize a sandbox root.
#[derive(Debug)]
pub enum InitError {
    /// The target directory already holds files and no overwrite was asked
    /// for.
    NotEmpty,
    /// Any other failure, carried as its message.
    Other(String),
}

/// Failure to open a sandbox root.
#[derive(Debug)]
pub enum OpenError {
    /// The target directory holds no environment.
    Empty,
    /// The manifest was written by an incompatible format version, which is
    /// carried along.
    Version(String),
    /// Any other failure, carried as its message.
    Other(String),
}

/// The manifest format version this host reads and writes.
pub open spec fn manifest_version() -> Seq<char> {
    seq!['1', '.', '0']
}

/// The manifest a fresh sandbox root starts with: the current version and no
/// applications.
pub fn new_manifest() -> (r: Manifest)
    ensures
        r.version@ == manifest_version(),
        r.apps@ =~= Seq::<App>::empty(),
{
    let version = String::from_str("1.0");
    proof {
        reveal_strlit("1.0");
        assert(version@ =~= manifest_version());
    }
    Manifest { version, apps: Vec::new() }
}

/// A manifest written by any other format version is a hard incompatibility:
/// accept the current version exactly, and report the stranger's version.
pub fn check_manifest_version(manifest: &Manifest) -> (r: Result<(), OpenError>)
    ensures
        r is Ok <==> manifest.version@ == manifest_version(),
        match r {
            Ok(()) => true,
            Err(e) => e matches OpenError::Version(v) && v == manifest.version,
        },
{
    let expected = String::from_str("1.0");
    proof {
        reveal_strlit("1.0");
        assert(expected@ =~= manifest_version());
    }
    if manifest.version == expected {
        Ok(())
    } else {
        Err(OpenError::Version(manifest.version.clone()))
    }
}

} // verus!
