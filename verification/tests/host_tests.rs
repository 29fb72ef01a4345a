use cirno::cirno::{Cirno, HostEnv, PackageManagerError};
use cirno::daemon::ProcessDaemonIntl;
use cirno::manifest::{check_manifest_version, new_manifest, InitError, Manifest, OpenError};
use cirno::rc::{CompressionLevel, NodeLinker, SemverRangePrefix, YarnRc};
use cirno::sandbox::{outcome_of, CirnoConfig, CirnoConfigConfig, CirnoProc, EnvironmentState,
    ExitStatusError};
use cirno::daemon::ProcessOutcome;
use cirno::server::{resolve_claim, ApiError, AppClaim};
use cirno::windows::{WryStateRegistry, WryStateRegistryError};

fn config() -> CirnoConfig {
    CirnoConfig {
        version: "1.0".to_string(),
        config: CirnoConfigConfig {},
        apps: Vec::new(),
    }
}

fn sample_cirno() -> Cirno {
    Cirno {
        cwd: "/srv/cirno".to_string(),
        data: new_manifest(),
        state: Vec::new(),
    }
}

#[test]
fn manifest_version_is_checked_exactly() {
    assert!(check_manifest_version(&new_manifest()).is_ok());
    let stranger = Manifest {
        version: "2.0".to_string(),
        apps: Vec::new(),
    };
    match check_manifest_version(&stranger) {
        Err(OpenError::Version(v)) => assert_eq!(v, "2.0"),
        _ => panic!("a foreign version must be a hard incompatibility"),
    }
}

#[test]
fn new_manifest_is_empty_at_current_version() {
    let m = new_manifest();
    assert_eq!(m.version, "1.0");
    assert!(m.apps.is_empty());
}

#[test]
fn init_refuses_a_nonempty_target_unless_forced() {
    assert!(matches!(Cirno::check_init_target(0, false), Ok(false)));
    assert!(matches!(Cirno::check_init_target(0, true), Ok(false)));
    assert!(matches!(Cirno::check_init_target(3, true), Ok(true)));
    assert!(matches!(
        Cirno::check_init_target(3, false),
        Err(InitError::NotEmpty)
    ));
}

#[test]
fn open_requires_an_existing_environment() {
    assert!(Cirno::check_open_target(1).is_ok());
    assert!(matches!(Cirno::check_open_target(0), Err(OpenError::Empty)));
}

#[test]
fn init_plans_the_whole_skeleton_in_order() {
    let dirs = Cirno::init_dir_plan(&"/srv/cirno".to_string());
    assert_eq!(
        dirs,
        vec![
            "/srv/cirno".to_string(),
            "/srv/cirno/apps".to_string(),
            "/srv/cirno/baka".to_string(),
            "/srv/cirno/home".to_string(),
            "/srv/cirno/home/.yarn".to_string(),
            "/srv/cirno/home/.yarn/cache".to_string(),
            "/srv/cirno/home/.yarn/releases".to_string(),
            "/srv/cirno/tmp".to_string(),
        ]
    );
}

#[test]
fn launch_env_redirects_and_preserves_host_values() {
    let cirno = sample_cirno();
    let host = HostEnv {
        home: Some("/home/user".to_string()),
        temp: None,
        tmp: None,
        tmpdir: Some("/tmp".to_string()),
    };
    let yarn_path = "/srv/cirno/home/.yarn/releases/yarn-4.1.0.cjs".to_string();
    let env = cirno.launch_env(&yarn_path, &host);
    let expect = |k: &str, v: &str| (k.to_string(), v.to_string());
    assert_eq!(
        env,
        vec![
            expect("HOME", "/srv/cirno/home"),
            expect("TEMP", "/srv/cirno/tmp"),
            expect("TMP", "/srv/cirno/tmp"),
            expect("TMPDIR", "/srv/cirno/tmp"),
            expect("YARN_YARN_PATH", &yarn_path),
            expect("YARN_GLOBAL_FOLDER", "/srv/cirno/home/.yarn"),
            expect("CIRNO_HOST_HOME", "/home/user"),
            expect("CIRNO_HOST_TMPDIR", "/tmp"),
        ]
    );
}

#[test]
fn package_manager_checks_mirror_the_launcher() {
    match Cirno::check_package_manager(&"yarn@4.1.0".to_string()) {
        Ok(version) => assert_eq!(version, "4.1.0"),
        Err(_) => panic!("the supported manager must be accepted"),
    }
    match Cirno::check_package_manager(&"npm@10.0.0".to_string()) {
        Err(PackageManagerError::Unsupported(name)) => assert_eq!(name, "npm"),
        _ => panic!("a foreign manager must be refused by name"),
    }
    match Cirno::check_package_manager(&"not a descriptor".to_string()) {
        Err(PackageManagerError::Invalid(s)) => assert_eq!(s, "not a descriptor"),
        _ => panic!("a malformed descriptor must be refused whole"),
    }
}

#[test]
fn release_path_names_the_exact_version() {
    let cirno = sample_cirno();
    assert_eq!(
        cirno.yarn_release_path(&"4.1.0".to_string()),
        "/srv/cirno/home/.yarn/releases/yarn-4.1.0.cjs"
    );
}

#[test]
fn environment_layout_derives_from_the_executable_dir() {
    let env = EnvironmentState::derive("/opt/cirno".to_string(), config());
    assert_eq!(env.bin_dir, "/opt/cirno/bin");
    assert_eq!(env.data_dir, "/opt/cirno/data");
    assert_eq!(env.config_path, "/opt/cirno/data/cirno.yml");
    assert_eq!(env.apps_dir, "/opt/cirno/data/apps");
    assert_eq!(env.home_yarn_cache_dir, "/opt/cirno/data/home/.yarn/cache");
    assert_eq!(env.home_yarn_releases_dir, "/opt/cirno/data/home/.yarn/releases");
    assert_eq!(env.tmp_dir, "/opt/cirno/data/tmp");
    assert_eq!(
        env.creation_dirs(),
        vec![
            "/opt/cirno/data/apps".to_string(),
            "/opt/cirno/data/baka".to_string(),
            "/opt/cirno/data/home/.yarn/cache".to_string(),
            "/opt/cirno/data/home/.yarn/releases".to_string(),
            "/opt/cirno/data/logs".to_string(),
            "/opt/cirno/data/tmp".to_string(),
        ]
    );
}

#[test]
fn yarn_launch_prepends_the_manager_script() {
    let env = EnvironmentState::derive("/opt/cirno".to_string(), config());
    let proc = CirnoProc::new_yarn(
        &env,
        &vec!["start".to_string()],
        "/opt/cirno/data/apps/web".to_string(),
    );
    assert_eq!(proc.program, "/opt/cirno/bin/node");
    assert_eq!(
        proc.args,
        vec!["/opt/cirno/bin/yarn.cjs".to_string(), "start".to_string()]
    );
    assert_eq!(proc.cwd, "/opt/cirno/data/apps/web");
}

#[test]
fn exit_status_carries_its_code() {
    let err = ExitStatusError::new(Some(52));
    assert_eq!(err.code(), Some(52));
    let signal = ExitStatusError::new(None);
    assert_eq!(signal.code(), None);
}

#[test]
fn run_results_classify_into_outcomes() {
    assert_eq!(outcome_of(&Ok(())), ProcessOutcome::Exited(0));
    assert_eq!(
        outcome_of(&Err(ExitStatusError::new(Some(52)))),
        ProcessOutcome::Exited(52)
    );
    assert_eq!(
        outcome_of(&Err(ExitStatusError::new(None))),
        ProcessOutcome::Signaled
    );
}

#[test]
fn bearer_claims_resolve_only_for_live_processes() {
    let mut daemon = ProcessDaemonIntl::new();
    let slot = daemon.start(&"alpha".to_string(), true).unwrap();
    let token = slot.to_string();
    match resolve_claim(&daemon, Some(&token)) {
        Ok(AppClaim::Service(_)) => {},
        _ => panic!("a live slot must yield a service claim"),
    }
    assert_eq!(resolve_claim(&daemon, None), Err(ApiError::AuthorizationError));
    assert_eq!(
        resolve_claim(&daemon, Some(&"200".to_string())),
        Err(ApiError::AuthorizationError)
    );
}

#[test]
fn api_errors_map_to_status_codes() {
    assert_eq!(ApiError::AuthorizationError.status_code(), 403);
    assert_eq!(ApiError::InvalidJsonError("nope".to_string()).status_code(), 400);
}

#[test]
fn window_slots_are_assigned_lowest_first_and_reused() {
    let mut windows = WryStateRegistry::new();
    assert_eq!(windows.create(None), Ok(0));
    assert_eq!(windows.create(None), Ok(1));
    assert_eq!(windows.get(0).unwrap().id, 0);
    assert_eq!(windows.destroy(0), Ok(()));
    assert_eq!(
        windows.get(0),
        Err(WryStateRegistryError::WindowNotFound(0))
    );
    assert_eq!(windows.create(None), Ok(0));
    assert_eq!(windows.get(64), Err(WryStateRegistryError::InvalidId(64)));
    assert_eq!(
        windows.destroy(64),
        Err(WryStateRegistryError::InvalidId(64))
    );
}

#[test]
fn window_registry_fills_up() {
    let mut windows = WryStateRegistry::new();
    for i in 0..64 {
        assert_eq!(windows.create(None), Ok(i as u8));
    }
    assert_eq!(windows.create(None), Err(WryStateRegistryError::RegistryFull));
}

#[test]
fn compression_levels_round_trip_their_codes() {
    for code in 0..=9u8 {
        let level = CompressionLevel::from_code(code).unwrap();
        assert_eq!(level.code(), Some(code));
    }
    assert_eq!(CompressionLevel::from_code(10), None);
    assert_eq!(CompressionLevel::Mixed.code(), None);
}

#[test]
fn semver_prefixes_round_trip_their_text() {
    for prefix in [
        SemverRangePrefix::Caret,
        SemverRangePrefix::Tilde,
        SemverRangePrefix::Bare,
    ] {
        assert_eq!(SemverRangePrefix::from_text(&prefix.text()), Some(prefix));
    }
    assert_eq!(SemverRangePrefix::Caret.text(), "^");
    assert_eq!(SemverRangePrefix::Tilde.text(), "~");
    assert_eq!(SemverRangePrefix::Bare.text(), "");
    assert_eq!(SemverRangePrefix::from_text("v"), None);
}

#[test]
fn sandbox_default_config_pins_the_linker_and_disables_chatter() {
    let rc = YarnRc::sandbox_default();
    assert_eq!(rc.enable_tips, Some(false));
    assert_eq!(rc.enable_telemetry, Some(false));
    assert_eq!(rc.node_linker, Some(NodeLinker::Pnp));
    assert_eq!(rc.pnp_enable_esm_loader, Some(true));
    assert_eq!(rc.cache_folder, None);
    assert_eq!(rc.yarn_path, None);
}

#[test]
fn gc_plan_runs_through_the_root() {
    let cirno = sample_cirno();
    let plan = cirno
        .gc_plan(
            &vec!["orphan-abc123.zip".to_string()],
            &vec!["yarn-1.0.0.cjs".to_string()],
        )
        .unwrap();
    // an empty application set protects nothing
    assert_eq!(plan.delete_cache, vec!["orphan-abc123.zip".to_string()]);
    assert_eq!(plan.delete_releases, vec!["yarn-1.0.0.cjs".to_string()]);
}
