use vstd::prelude::*;
use vstd::string::StringExecFns;

use crate::daemon::ProcessOutcome;

verus! {

/// The host's configuration file, as far as it is read today.
#[derive(Debug, Clone)]
pub struct CirnoConfig {
    pub version: String,
    pub config: CirnoConfigConfig,
    pub apps: Vec<CirnoConfigApps>,
}

/// The `config` block of the configuration file; no field of it is read
/// yet.
#[derive(Debug, Clone, PartialEq, Eq, Structural)]
pub struct CirnoConfigConfig {}

/// One entry of the `apps` block of the configuration file; no field of it
/// is read yet.
#[derive(Debug, Clone, PartialEq, Eq, Structural)]
pub struct CirnoConfigApps {}

/// The host's directory layout, derived once from the executable's
/// directory: the binaries beside it, and the data tree under it.
#[derive(Debug, Clone)]
pub struct EnvironmentState {
    pub exe_dir: String,
    pub bin_dir: String,
    pub config_path: String,
    pub data_dir: String,
    pub apps_dir: String,
    pub baka_dir: String,
    pub home_dir: String,
    pub home_yarn_dir: String,
    pub home_yarn_cache_dir: String,
    pub home_yarn_releases_dir: String,
    pub home_appdata_dir: String,
    pub home_appdata_local_dir: String,
    pub home_appdata_roaming_dir: String,
    pub logs_dir: String,
    pub tmp_dir: String,
    pub config: CirnoConfig,
}

impl EnvironmentState {
    /// Derive the whole layout from the executable's directory.  Reading
    /// the configuration file and creating the directories stay at the
    /// filesystem edge.
    pub fn derive(exe_dir: String, config: CirnoConfig) -> (r: EnvironmentState)
        ensures
            r.exe_dir == exe_dir,
            r.config == config,
            r.bin_dir@ == exe_dir@ + "/bin"@,
            r.data_dir@ == exe_dir@ + "/data"@,
            r.config_path@ == exe_dir@ + "/data/cirno.yml"@,
            r.apps_dir@ == exe_dir@ + "/data/apps"@,
            r.baka_dir@ == exe_dir@ + "/data/baka"@,
            r.home_dir@ == exe_dir@ + "/data/home"@,
            r.home_yarn_dir@ == exe_dir@ + "/data/home/.yarn"@,
            r.home_yarn_cache_dir@ == exe_dir@ + "/data/home/.yarn/cache"@,
            r.home_yarn_releases_dir@ == exe_dir@ + "/data/home/.yarn/releases"@,
            r.home_appdata_dir@ == exe_dir@ + "/data/home/AppData"@,
            r.home_appdata_local_dir@ == exe_dir@ + "/data/home/AppData/Local"@,
            r.home_appdata_roaming_dir@ == exe_dir@ + "/data/home/AppData/Roaming"@,
            r.logs_dir@ == exe_dir@ + "/data/logs"@,
            r.tmp_dir@ == exe_dir@ + "/data/tmp"@,
    {
        let bin_dir = concat_path(&exe_dir, "/bin");
        let data_dir = concat_path(&exe_dir, "/data");
        let config_path = concat_path(&exe_dir, "/data/cirno.yml");
        let apps_dir = concat_path(&exe_dir, "/data/apps");
        let baka_dir = concat_path(&exe_dir, "/data/baka");
        let home_dir = concat_path(&exe_dir, "/data/home");
        let home_yarn_dir = concat_path(&exe_dir, "/data/home/.yarn");
        let home_yarn_cache_dir = concat_path(&exe_dir, "/data/home/.yarn/cache");
        let home_yarn_releases_dir = concat_path(&exe_dir, "/data/home/.yarn/releases");
        let home_appdata_dir = concat_path(&exe_dir, "/data/home/AppData");
        let home_appdata_local_dir = concat_path(&exe_dir, "/data/home/AppData/Local");
        let home_appdata_roaming_dir = concat_path(&exe_dir, "/data/home/AppData/Roaming");
        let logs_dir = concat_path(&exe_dir, "/data/logs");
        let tmp_dir = concat_path(&exe_dir, "/data/tmp");
        EnvironmentState {
            exe_dir,
            bin_dir,
            config_path,
            data_dir,
            apps_dir,
            baka_dir,
            home_dir,
            home_yarn_dir,
            home_yarn_cache_dir,
            home_yarn_releases_dir,
            home_appdata_dir,
            home_appdata_local_dir,
            home_appdata_roaming_dir,
            logs_dir,
            tmp_dir,
            config,
        }
    }

    /// The directories the host creates at startup, in creation order.
    pub fn creation_dirs(&self) -> (r: Vec<String>)
        ensures
            r.deep_view() == seq![
                self.apps_dir@,
                self.baka_dir@,
                self.home_yarn_cache_dir@,
                self.home_yarn_releases_dir@,
                self.logs_dir@,
                self.tmp_dir@,
            ],
    {
        let mut dirs: Vec<String> = Vec::new();
        dirs.push(self.apps_dir.clone());
        dirs.push(self.baka_dir.clone());
        dirs.push(self.home_yarn_cache_dir.clone());
        dirs.push(self.home_yarn_releases_dir.clone());
        dirs.push(self.logs_dir.clone());
        dirs.push(self.tmp_dir.clone());
        proof {
            assert(dirs.deep_view() =~= seq![
                self.apps_dir@,
                self.baka_dir@,
                self.home_yarn_cache_dir@,
                self.home_yarn_releases_dir@,
                self.logs_dir@,
                self.tmp_dir@,
            ]);
        }
        dirs
    }
}

/// The exit of a child process that did not end cleanly: its code, or none
/// when a signal ended it.
#[derive(Debug, Clone, Copy, PartialEq, Eq, Structural)]
pub struct ExitStatusError {
    code: Option<i32>,
}

impl ExitStatusError {
    /// An exit of code zero is no error: the code carried here, if any, is
    /// nonzero.
    pub closed spec fn spec_code(&self) -> Option<i32> {
        self.code
    }

    pub fn new(code: Option<i32>) -> (r: ExitStatusError)
        requires
            code != Some(0i32),
        ensures
            r.spec_code() == code,
    {
        ExitStatusError { code }
    }

    /// The exit code the child reported, if it reported one.
    pub fn code(&self) -> (r: Option<i32>)
        ensures
            r == self.spec_code(),
    {
        self.code
    }
}

/// Classify what one run of a child reported: a clean exit, an exit with a
/// code, or a signal.
pub fn outcome_of(result: &Result<(), ExitStatusError>) -> (r: ProcessOutcome)
    ensures
        r == match result {
            Ok(()) => ProcessOutcome::Exited(0),
            Err(e) => match e.spec_code() {
                Some(code) => ProcessOutcome::Exited(code),
                None => ProcessOutcome::Signaled,
            },
        },
{
    match result {
        Ok(()) => ProcessOutcome::Exited(0),
        Err(e) => match e.code() {
            Some(code) => ProcessOutcome::Exited(code),
            None => ProcessOutcome::Signaled,
        },
    }
}

/// The plain description of one child process launch: what to run, with
/// which arguments, where.  Spawning it happens at the process edge.
#[derive(Debug, Clone)]
pub struct CirnoProc {
    pub program: String,
    pub args: Vec<String>,
    pub cwd: String,
}

impl CirnoProc {
    pub fn new(program: String, args: Vec<String>, cwd: String) -> (r: CirnoProc)
        ensures
            r.program == program,
            r.args == args,
            r.cwd == cwd,
    {
        CirnoProc { program, args, cwd }
    }

    /// A launch of the bundled node binary.
    pub fn new_node(env: &EnvironmentState, args: Vec<String>, cwd: String) -> (r: CirnoProc)
        ensures
            r.program@ == env.bin_dir@ + "/node"@,
            r.args == args,
            r.cwd == cwd,
    {
        CirnoProc::new(concat_path(&env.bin_dir, "/node"), args, cwd)
    }

    /// A launch of the bundled package manager under node: the manager's
    /// script becomes the first argument.
    pub fn new_yarn(env: &EnvironmentState, args: &Vec<String>, cwd: String) -> (r: CirnoProc)
        ensures
            r.program@ == env.bin_dir@ + "/node"@,
            r.args.deep_view() == seq![env.bin_dir@ + "/yarn.cjs"@] + args.deep_view(),
            r.cwd == cwd,
    {
        let mut full_args: Vec<String> = Vec::new();
        full_args.push(concat_path(&env.bin_dir, "/yarn.cjs"));
        let mut i: usize = 0;
        while i < args.len()
            invariant
                0 <= i <= args@.len(),
                full_args.deep_view() == seq![env.bin_dir@ + "/yarn.cjs"@] + args.deep_view().take(
                    i as int,
                ),
            decreases args@.len() - i,
        {
            let ghost old_deep = full_args.deep_view();
            full_args.push(args[i].clone());
            proof {
                assert(full_args.deep_view() =~= old_deep.push(args@[i as int]@));
                assert(args.deep_view()[i as int] == args@[i as int]@);
                assert(full_args.deep_view() =~= seq![env.bin_dir@ + "/yarn.cjs"@]
                    + args.deep_view().take(i + 1));
            }
            i = i + 1;
        }
        proof {
            assert(args.deep_view().take(args.deep_view().len() as int) =~= args.deep_view());
        }
        CirnoProc::new(concat_path(&env.bin_dir, "/node"), full_args, cwd)
    }
}

/// A path under a base directory: the base with a slash-led suffix.
fn concat_path(base: &String, suffix: &str) -> (r: String)
    ensures
        r@ == base@ + suffix@,
{
    let mut r = base.clone();
    r.append(suffix);
    r
}

} // verus!
