use vstd::prelude::*;
use vstd::string::StringExecFns;

use crate::gc::{
    cache_to_delete, metas_ok, plan_gc, pm_ok, pm_parts, release_name_of, releases_to_delete,
    yarn_name, GcPlan,
};
use crate::lockfile::{entry_ok, lock_ok, LockfileParseError};
use crate::manifest::{InitError, Manifest, MetaRecord, OpenError};

verus! {

/// The directories a fresh sandbox root is built from, in creation order:
/// the root itself, the application tree, the backup tree, the private home
/// with the package manager's cache and release stores, and the private
/// temporary directory.
pub open spec fn sandbox_dirs(cwd: Seq<char>) -> Seq<Seq<char>> {
    seq![
        cwd,
        cwd + "/apps"@,
        cwd + "/baka"@,
        cwd + "/home"@,
        cwd + "/home/.yarn"@,
        cwd + "/home/.yarn/cache"@,
        cwd + "/home/.yarn/releases"@,
        cwd + "/tmp"@,
    ]
}

/// The launch-time environment of a sandboxed child: `HOME` and the
/// temporary directories redirected into the sandbox, the package manager
/// pinned to its release file and global folder, and the host's original
/// value of each redirected variable preserved under a prefixed alias.
pub open spec fn launch_env_of(
    cwd: Seq<char>,
    yarn_path: Seq<char>,
    host_home: Option<Seq<char>>,
    host_temp: Option<Seq<char>>,
    host_tmp: Option<Seq<char>>,
    host_tmpdir: Option<Seq<char>>,
) -> Seq<(Seq<char>, Seq<char>)> {
    seq![
        ("HOME"@, cwd + "/home"@),
        ("TEMP"@, cwd + "/tmp"@),
        ("TMP"@, cwd + "/tmp"@),
        ("TMPDIR"@, cwd + "/tmp"@),
        ("YARN_YARN_PATH"@, yarn_path),
        ("YARN_GLOBAL_FOLDER"@, cwd + "/home/.yarn"@),
    ] + host_alias("HOME"@, host_home) + host_alias("TEMP"@, host_temp) + host_alias(
        "TMP"@,
        host_tmp,
    ) + host_alias("TMPDIR"@, host_tmpdir)
}

/// The preserved copy of one host variable, when the host had it set.
pub open spec fn host_alias(key: Seq<char>, value: Option<Seq<char>>) -> Seq<
    (Seq<char>, Seq<char>),
> {
    match value {
        Some(v) => seq![("CIRNO_HOST_"@ + key, v)],
        None => Seq::empty(),
    }
}

/// The character pairs of an environment list.
pub open spec fn env_views(pairs: Seq<(String, String)>) -> Seq<(Seq<char>, Seq<char>)> {
    Seq::new(pairs.len(), |i: int| (pairs[i].0@, pairs[i].1@))
}

/// The host's original values of the variables the sandbox redirects.
pub struct HostEnv {
    pub home: Option<String>,
    pub temp: Option<String>,
    pub tmp: Option<String>,
    pub tmpdir: Option<String>,
}

impl HostEnv {
    pub open spec fn home_view(&self) -> Option<Seq<char>> {
        match self.home {
            Some(s) => Some(s@),
            None => None,
        }
    }

    pub open spec fn temp_view(&self) -> Option<Seq<char>> {
        match self.temp {
            Some(s) => Some(s@),
            None => None,
        }
    }

    pub open spec fn tmp_view(&self) -> Option<Seq<char>> {
        match self.tmp {
            Some(s) => Some(s@),
            None => None,
        }
    }

    pub open spec fn tmpdir_view(&self) -> Option<Seq<char>> {
        match self.tmpdir {
            Some(s) => Some(s@),
            None => None,
        }
    }
}

/// A package-manager descriptor the host cannot launch.
#[derive(Debug, Clone)]
pub enum PackageManagerError {
    /// The descriptor does not have the `name@major.minor.patch` shape; it
    /// is carried along.
    Invalid(String),
    /// The descriptor names a manager other than the supported one; the
    /// stranger's name is carried along.
    Unsupported(String),
}

/// A sandbox root: its path, its manifest, and the persisted dependency
/// snapshots of its applications.
pub struct Cirno {
    /// Absolute path of the sandbox root.
    pub cwd: String,
    /// The persisted manifest.
    pub data: Manifest,
    /// The dependency side-store: one record per application or backup
    /// snapshot.
    pub state: Vec<MetaRecord>,
}

impl Cirno {
    /// Decide what initialization may do with a target directory that holds
    /// `file_count` entries: an empty target is built in place, a nonempty
    /// one is wiped first only when overwriting was asked for, and is
    /// otherwise refused.  On success the result says whether to wipe.
    pub fn check_init_target(file_count: usize, force: bool) -> (r: Result<bool, InitError>)
        ensures
            r is Ok <==> (file_count == 0 || force),
            match r {
                Ok(wipe) => wipe == (file_count > 0),
                Err(e) => e matches InitError::NotEmpty,
            },
    {
        if file_count == 0 {
            Ok(false)
        } else if force {
            Ok(true)
        } else {
            Err(InitError::NotEmpty)
        }
    }

    /// Decide whether a directory that holds `file_count` entries can be
    /// opened as a sandbox root: an empty or missing one holds no
    /// environment.
    pub fn check_open_target(file_count: usize) -> (r: Result<(), OpenError>)
        ensures
            r is Ok <==> file_count > 0,
            match r {
                Ok(()) => true,
                Err(e) => e matches OpenError::Empty,
            },
    {
        if file_count == 0 {
            Err(OpenError::Empty)
        } else {
            Ok(())
        }
    }

    /// The directories initialization creates under a root, in order.  The
    /// creation itself happens at the filesystem edge, one directory at a
    /// time, and a failure part way leaves a partial tree that is reported,
    /// not retried.
    pub fn init_dir_plan(cwd: &String) -> (r: Vec<String>)
        ensures
            r.deep_view() == sandbox_dirs(cwd@),
    {
        let mut dirs: Vec<String> = Vec::new();
        dirs.push(cwd.clone());
        dirs.push(join_suffix(cwd, "/apps"));
        dirs.push(join_suffix(cwd, "/baka"));
        dirs.push(join_suffix(cwd, "/home"));
        dirs.push(join_suffix(cwd, "/home/.yarn"));
        dirs.push(join_suffix(cwd, "/home/.yarn/cache"));
        dirs.push(join_suffix(cwd, "/home/.yarn/releases"));
        dirs.push(join_suffix(cwd, "/tmp"));
        proof {
            assert(dirs.deep_view() =~= sandbox_dirs(cwd@));
        }
        dirs
    }

    /// The version of the supported package manager named by a descriptor:
    /// a malformed descriptor and a foreign manager are each refused with
    /// their own error, exactly as the launcher refuses them.
    pub fn check_package_manager(package_manager: &String) -> (r: Result<
        String,
        PackageManagerError,
    >)
        ensures
            r is Ok <==> (pm_ok(package_manager@) && pm_parts(package_manager@).0 == yarn_name()),
            match r {
                Ok(version) => version@ == pm_parts(package_manager@).1,
                Err(PackageManagerError::Invalid(s)) => !pm_ok(package_manager@) && s
                    == package_manager,
                Err(PackageManagerError::Unsupported(nm)) => {
                    &&& pm_ok(package_manager@)
                    &&& pm_parts(package_manager@).0 != yarn_name()
                    &&& nm@ == pm_parts(package_manager@).0
                },
            },
    {
        match crate::gc::parse_package_manager(package_manager.as_str()) {
            None => Err(PackageManagerError::Invalid(package_manager.clone())),
            Some(parts) => {
                let (name, version) = parts;
                proof {
                    let (cn, cv) = pm_parts(package_manager@);
                    assert(crate::gc::pm_splits(package_manager@, cn, cv));
                    crate::gc::lemma_pm_unique(package_manager@, cn, cv, name@, version@);
                }
                let yarn = String::from_str("yarn");
                proof {
                    reveal_strlit("yarn");
                    assert(yarn@ =~= yarn_name());
                }
                if name.eq(&yarn) {
                    Ok(version)
                } else {
                    Err(PackageManagerError::Unsupported(name))
                }
            },
        }
    }

    /// Path of the release file that serves a package-manager version,
    /// inside this root's shared release store.
    pub fn yarn_release_path(&self, version: &String) -> (r: String)
        ensures
            r@ == self.cwd@ + "/home/.yarn/releases/"@ + release_name_of(version@),
    {
        let mut r = self.cwd.clone();
        r.append("/home/.yarn/releases/");
        let rel = crate::gc::build_release_name(version.as_str());
        r.append(rel.as_str());
        proof {
            assert(r@ =~= self.cwd@ + "/home/.yarn/releases/"@ + release_name_of(version@));
        }
        r
    }

    /// The environment a sandboxed launch runs under.
    pub fn launch_env(&self, yarn_path: &String, host: &HostEnv) -> (r: Vec<(String, String)>)
        ensures
            env_views(r@) == launch_env_of(
                self.cwd@,
                yarn_path@,
                host.home_view(),
                host.temp_view(),
                host.tmp_view(),
                host.tmpdir_view(),
            ),
    {
        let home = join_suffix(&self.cwd, "/home");
        let tmp_dir = join_suffix(&self.cwd, "/tmp");
        let global = join_suffix(&self.cwd, "/home/.yarn");
        let mut pairs: Vec<(String, String)> = Vec::new();
        pairs.push((String::from_str("HOME"), home));
        pairs.push((String::from_str("TEMP"), tmp_dir.clone()));
        pairs.push((String::from_str("TMP"), tmp_dir.clone()));
        pairs.push((String::from_str("TMPDIR"), tmp_dir));
        pairs.push((String::from_str("YARN_YARN_PATH"), yarn_path.clone()));
        pairs.push((String::from_str("YARN_GLOBAL_FOLDER"), global));
        match &host.home {
            Some(v) => {
                pairs.push((alias_key("HOME"), v.clone()));
            },
            None => {},
        }
        match &host.temp {
            Some(v) => {
                pairs.push((alias_key("TEMP"), v.clone()));
            },
            None => {},
        }
        match &host.tmp {
            Some(v) => {
                pairs.push((alias_key("TMP"), v.clone()));
            },
            None => {},
        }
        match &host.tmpdir {
            Some(v) => {
                pairs.push((alias_key("TMPDIR"), v.clone()));
            },
            None => {},
        }
        proof {
            assert(env_views(pairs@) =~= launch_env_of(
                self.cwd@,
                yarn_path@,
                host.home_view(),
                host.temp_view(),
                host.tmp_view(),
                host.tmpdir_view(),
            ));
        }
        pairs
    }

    /// Plan a collection pass over this root, against the candidate
    /// filenames its cache and release directories hold right now.
    pub fn gc_plan(&self, cache_files: &Vec<String>, release_files: &Vec<String>) -> (r: Result<
        GcPlan,
        LockfileParseError,
    >)
        ensures
            r is Ok <==> metas_ok(self.state@),
            match r {
                Ok(plan) => {
                    &&& plan.delete_releases.deep_view() == releases_to_delete(
                        self.state@,
                        release_files.deep_view(),
                    )
                    &&& plan.delete_cache.deep_view() == cache_to_delete(
                        self.state@,
                        cache_files.deep_view(),
                    )
                },
                Err(e) => exists|i: int|
                    {
                        &&& 0 <= i < self.state@.len()
                        &&& !lock_ok(self.state@[i].meta.yarn_lock.packages@)
                        &&& exists|t: int|
                            {
                                &&& 0 <= t < self.state@[i].meta.yarn_lock.packages@.len()
                                &&& !entry_ok(self.state@[i].meta.yarn_lock.packages@[t])
                                &&& e.resolution == self.state@[
                                    i
                                ].meta.yarn_lock.packages@[t].resolution
                            }
                    },
            },
    {
        plan_gc(cache_files, release_files, &self.state)
    }
}

/// A path under a root: the root with a slash-led suffix appended.
fn join_suffix(base: &String, suffix: &str) -> (r: String)
    ensures
        r@ == base@ + suffix@,
{
    let mut r = base.clone();
    r.append(suffix);
    r
}

/// The preserved-host-value name of a redirected variable.
fn alias_key(key: &str) -> (r: String)
    ensures
        r@ == "CIRNO_HOST_"@ + key@,
{
    let mut r = String::from_str("CIRNO_HOST_");
    r.append(key);
    r
}

} // verus!
