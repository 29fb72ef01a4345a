use vstd::prelude::*;
use vstd::string::StringExecFns;

verus! {

/// Behavior followed when a cache entry was built by an earlier release or
/// under different compression settings.
#[derive(Debug, Clone, Copy, PartialEq, Eq, Structural)]
pub enum CacheMigrationMode {
    RequiredOnly,
    MatchSpec,
    Always,
}

/// Behavior followed when a cache entry's checksum differs from the lockfile.
#[derive(Debug, Clone, Copy, PartialEq, Eq, Structural)]
pub enum ChecksumBehavior {
    Throw,
    Update,
    Ignore,
    Reset,
}

/// Compression level employed for cache archives: a numeric level, or a mixed
/// mode that stores files uncompressed when compression would not pay.
#[derive(Debug, Clone, Copy, PartialEq, Eq, Structural)]
pub enum CompressionLevel {
    L0,
    L1,
    L2,
    L3,
    L4,
    L5,
    L6,
    L7,
    L8,
    L9,
    Mixed,
}

impl CompressionLevel {
    /// The numeric code this level is written as; `Mixed` has none and is
    /// written as the text `mixed` instead.
    pub fn code(&self) -> (r: Option<u8>)
        ensures
            r == match self {
                CompressionLevel::L0 => Some(0u8),
                CompressionLevel::L1 => Some(1u8),
                CompressionLevel::L2 => Some(2u8),
                CompressionLevel::L3 => Some(3u8),
                CompressionLevel::L4 => Some(4u8),
                CompressionLevel::L5 => Some(5u8),
                CompressionLevel::L6 => Some(6u8),
                CompressionLevel::L7 => Some(7u8),
                CompressionLevel::L8 => Some(8u8),
                CompressionLevel::L9 => Some(9u8),
                CompressionLevel::Mixed => None,
            },
    {
        match self {
            CompressionLevel::L0 => Some(0),
            CompressionLevel::L1 => Some(1),
            CompressionLevel::L2 => Some(2),
            CompressionLevel::L3 => Some(3),
            CompressionLevel::L4 => Some(4),
            CompressionLevel::L5 => Some(5),
            CompressionLevel::L6 => Some(6),
            CompressionLevel::L7 => Some(7),
            CompressionLevel::L8 => Some(8),
            CompressionLevel::L9 => Some(9),
            CompressionLevel::Mixed => None,
        }
    }

    /// The level a numeric code denotes; codes above 9 denote none.
    pub fn from_code(code: u8) -> (r: Option<CompressionLevel>)
        ensures
            r == match code {
                0u8 => Some(CompressionLevel::L0),
                1u8 => Some(CompressionLevel::L1),
                2u8 => Some(CompressionLevel::L2),
                3u8 => Some(CompressionLevel::L3),
                4u8 => Some(CompressionLevel::L4),
                5u8 => Some(CompressionLevel::L5),
                6u8 => Some(CompressionLevel::L6),
                7u8 => Some(CompressionLevel::L7),
                8u8 => Some(CompressionLevel::L8),
                9u8 => Some(CompressionLevel::L9),
                _ => None,
            },
    {
        match code {
            0 => Some(CompressionLevel::L0),
            1 => Some(CompressionLevel::L1),
            2 => Some(CompressionLevel::L2),
            3 => Some(CompressionLevel::L3),
            4 => Some(CompressionLevel::L4),
            5 => Some(CompressionLevel::L5),
            6 => Some(CompressionLevel::L6),
            7 => Some(CompressionLevel::L7),
            8 => Some(CompressionLevel::L8),
            9 => Some(CompressionLevel::L9),
            _ => None,
        }
    }
}

/// A log routing rule: messages are matched by code, by exact text, or by
/// glob pattern, and assigned a new level.
#[derive(Debug, Clone)]
pub enum LogFilter {
    Code { code: String, level: LogLevel },
    Text { text: String, level: LogLevel },
    Pattern { pattern: String, level: LogLevel },
}

/// Level assigned to a matched log message.
#[derive(Debug, Clone, Copy, PartialEq, Eq, Structural)]
pub enum LogLevel {
    Info,
    Warning,
    Error,
    Discard,
}

/// Per-host overrides of the network settings.
#[derive(Debug, Clone)]
pub struct NetworkSetting {
    pub enable_network: bool,
    pub http_proxy: String,
    pub https_ca_file_path: String,
    pub https_cert_file_path: String,
    pub https_key_file_path: String,
    pub https_proxy: String,
}

/// How far hoisting may move packages under the node-modules linker.
#[derive(Debug, Clone, Copy, PartialEq, Eq, Structural)]
pub enum NmHoistingLimits {
    Workspaces,
    Dependencies,
    NoLimit,
}

/// How files are laid out under the node-modules linker.
#[derive(Debug, Clone, Copy, PartialEq, Eq, Structural)]
pub enum NmMode {
    Classic,
    HardlinksLocal,
    HardlinksGlobal,
}

/// The linker used to install packages.
#[derive(Debug, Clone, Copy, PartialEq, Eq, Structural)]
pub enum NodeLinker {
    NodeModules,
    Pnp,
    Pnpm,
}

/// Default access when publishing packages.
#[derive(Debug, Clone, Copy, PartialEq, Eq, Structural)]
pub enum NpmPublishAccess {
    Public,
    Restricted,
}

/// Per-registry authentication settings.
#[derive(Debug, Clone)]
pub struct NpmRegistry {
    pub npm_always_auth: bool,
    pub npm_auth_ident: String,
    pub npm_auth_token: String,
}

/// Per-scope registry settings.
#[derive(Debug, Clone)]
pub struct NpmScope {
    pub npm_publish_registry: String,
    pub npm_registry_server: String,
    pub npm_always_auth: bool,
    pub npm_auth_ident: String,
    pub npm_auth_token: String,
}

/// Extra dependencies grafted onto a published package.
#[derive(Debug, Clone)]
pub struct PackageExtension {
    pub dependencies: Vec<(String, String)>,
    pub peer_dependencies: Vec<(String, String)>,
    pub peer_dependencies_meta: Vec<(String, PeerDependencyMeta)>,
}

/// Whether a peer dependency may be left unsatisfied.
#[derive(Debug, Clone, Copy, PartialEq, Eq, Structural)]
pub struct PeerDependencyMeta {
    pub optional: bool,
}

/// How unlisted dependencies resolve under Plug'n'Play.
#[derive(Debug, Clone, Copy, PartialEq, Eq, Structural)]
pub enum PnpFallbackMode {
    NoFallback,
    DependenciesOnly,
    All,
}

/// Strictness of the Plug'n'Play resolution.
#[derive(Debug, Clone, Copy, PartialEq, Eq, Structural)]
pub enum PnpMode {
    Strict,
    Loose,
}

/// Styling of the installation progress bars.
#[derive(Debug, Clone, Copy, PartialEq, Eq, Structural)]
pub enum ProgressBarStyle {
    Patrick,
    Simba,
    Jack,
    Hogsfather,
    Default,
}

/// Default prefix of semver ranges created when adding dependencies: written
/// as `^`, `~`, or the empty string.
#[derive(Debug, Clone, Copy, PartialEq, Eq, Structural)]
pub enum SemverRangePrefix {
    Caret,
    Tilde,
    Bare,
}

impl SemverRangePrefix {
    /// The text this prefix is written as.
    pub fn text(&self) -> (r: String)
        ensures
            r@ == match self {
                SemverRangePrefix::Caret => "^"@,
                SemverRangePrefix::Tilde => "~"@,
                SemverRangePrefix::Bare => ""@,
            },
    {
        match self {
            SemverRangePrefix::Caret => String::from_str("^"),
            SemverRangePrefix::Tilde => String::from_str("~"),
            SemverRangePrefix::Bare => String::from_str(""),
        }
    }

    /// The prefix a text denotes, if any.
    pub fn from_text(s: &str) -> (r: Option<SemverRangePrefix>)
        ensures
            r == if s@ == "^"@ {
                Some(SemverRangePrefix::Caret)
            } else if s@ == "~"@ {
                Some(SemverRangePrefix::Tilde)
            } else if s@ == ""@ {
                Some(SemverRangePrefix::Bare)
            } else {
                None::<SemverRangePrefix>
            },
    {
        proof {
            reveal_strlit("^");
            reveal_strlit("~");
            reveal_strlit("");
        }
        let n = s.unicode_len();
        if n == 0 {
            proof {
                assert(s@ =~= ""@);
            }
            return Some(SemverRangePrefix::Bare);
        }
        if n == 1 {
            let c = s.get_char(0);
            if c == '^' {
                proof {
                    assert(s@ =~= "^"@);
                }
                return Some(SemverRangePrefix::Caret);
            }
            if c == '~' {
                proof {
                    assert(s@ =~= "~"@);
                }
                return Some(SemverRangePrefix::Tilde);
            }
        }
        proof {
            assert(s@ != "^"@);
            assert(s@ != "~"@);
            assert(s@ != ""@);
        }
        None
    }
}

/// The operating systems, CPU architectures, and C libraries for which
/// platform-specific packages are fetched.
#[derive(Debug, Clone)]
pub struct SupportedArchitectures {
    pub os: Vec<String>,
    pub cpu: Vec<String>,
    pub libc: Vec<String>,
}

/// Where heavy tasks run.
#[derive(Debug, Clone, Copy, PartialEq, Eq, Structural)]
pub enum TaskPoolMode {
    Async,
    Workers,
}

/// How links are made on Windows.
#[derive(Debug, Clone, Copy, PartialEq, Eq, Structural)]
pub enum WinLinkType {
    Junctions,
    Symlinks,
}

/// The package manager's own configuration file (`.yarnrc.yml`): every
/// setting is optional, and map-valued settings are kept as key/value pairs.
#[derive(Debug, Clone, Default)]
pub struct YarnRc {
    pub cache_folder: Option<String>,
    pub cache_migration_mode: Option<CacheMigrationMode>,
    pub changeset_base_refs: Option<Vec<String>>,
    pub changeset_ignore_patterns: Option<Vec<String>>,
    pub checksum_behavior: Option<ChecksumBehavior>,
    pub clone_concurrency: Option<usize>,
    pub compression_level: Option<CompressionLevel>,
    pub constraints_path: Option<String>,
    pub default_language_name: Option<String>,
    pub default_protocol: Option<String>,
    pub default_semver_range_prefix: Option<SemverRangePrefix>,
    pub deferred_version_folder: Option<String>,
    pub enable_colors: Option<bool>,
    pub enable_constraints_checks: Option<bool>,
    pub enable_global_cache: Option<bool>,
    pub enable_hardened_mode: Option<bool>,
    pub enable_hyperlinks: Option<bool>,
    pub enable_immutable_cache: Option<bool>,
    pub enable_immutable_installs: Option<bool>,
    pub enable_inline_builds: Option<bool>,
    pub enable_inline_hunks: Option<bool>,
    pub enable_message_names: Option<bool>,
    pub enable_mirror: Option<bool>,
    pub enable_network: Option<bool>,
    pub enable_offline_mode: Option<bool>,
    pub enable_progress_bars: Option<bool>,
    pub enable_scripts: Option<bool>,
    pub enable_strict_ssl: Option<bool>,
    pub enable_telemetry: Option<bool>,
    pub enable_timers: Option<bool>,
    pub enable_tips: Option<bool>,
    pub enable_transparent_workspaces: Option<bool>,
    pub global_folder: Option<String>,
    pub http_proxy: Option<String>,
    pub http_retry: Option<usize>,
    pub http_timeout: Option<String>,
    pub https_ca_file_path: Option<String>,
    pub https_cert_file_path: Option<String>,
    pub https_key_file_path: Option<String>,
    pub https_proxy: Option<String>,
    pub ignore_path: Option<bool>,
    pub immutable_patterns: Option<Vec<String>>,
    pub init_scope: Option<String>,
    pub init_fields: Option<Vec<(String, String)>>,
    pub inject_environment_files: Option<Vec<String>>,
    pub install_state_path: Option<String>,
    pub log_filters: Option<Vec<LogFilter>>,
    pub network_concurrency: Option<usize>,
    pub network_settings: Option<Vec<(String, NetworkSetting)>>,
    pub nm_hoisting_limits: Option<NmHoistingLimits>,
    pub nm_self_references: Option<bool>,
    pub nm_mode: Option<NmMode>,
    pub node_linker: Option<NodeLinker>,
    pub npm_minimal_age_gate: Option<String>,
    pub npm_preapproved_packages: Option<Vec<String>>,
    pub pnpm_store_folder: Option<String>,
    pub win_link_type: Option<WinLinkType>,
    pub npm_always_auth: Option<bool>,
    pub npm_audit_registry: Option<String>,
    pub npm_auth_ident: Option<String>,
    pub npm_auth_token: Option<String>,
    pub npm_publish_access: Option<NpmPublishAccess>,
    pub npm_publish_provenance: Option<bool>,
    pub npm_audit_exclude_packages: Option<Vec<String>>,
    pub npm_audit_ignore_advisories: Option<Vec<String>>,
    pub npm_publish_registry: Option<String>,
    pub npm_registries: Option<Vec<(String, NpmRegistry)>>,
    pub npm_registry_server: Option<String>,
    pub npm_scopes: Option<Vec<(String, NpmScope)>>,
    pub package_extensions: Option<Vec<(String, PackageExtension)>>,
    pub patch_folder: Option<String>,
    pub pnp_enable_esm_loader: Option<bool>,
    pub pnp_enable_inlining: Option<bool>,
    pub pnp_fallback_mode: Option<PnpFallbackMode>,
    pub pnp_ignore_patterns: Option<Vec<String>>,
    pub pnp_mode: Option<PnpMode>,
    pub pnp_shebang: Option<String>,
    pub pnp_unplugged_folder: Option<String>,
    pub prefer_deferred_versions: Option<bool>,
    pub prefer_interactive: Option<bool>,
    pub prefer_reuse: Option<bool>,
    pub prefer_truncated_lines: Option<bool>,
    pub progress_bar_style: Option<ProgressBarStyle>,
    pub supported_architectures: Option<SupportedArchitectures>,
    pub task_pool_concurrency: Option<String>,
    pub task_pool_mode: Option<TaskPoolMode>,
    pub telemetry_interval: Option<String>,
    pub telemetry_user_id: Option<String>,
    pub ts_enable_auto_types: Option<bool>,
    pub unsafe_http_whitelist: Option<Vec<String>>,
    pub virtual_folder: Option<String>,
    pub yarn_path: Option<String>,
}

impl YarnRc {
    /// The configuration written into a fresh sandbox: tips and telemetry
    /// off, the Plug'n'Play linker, and its ESM loader on; everything else
    /// left unset.
    pub fn sandbox_default() -> (r: YarnRc)
        ensures
            r.enable_tips == Some(false),
            r.enable_telemetry == Some(false),
            r.node_linker == Some(NodeLinker::Pnp),
            r.pnp_enable_esm_loader == Some(true),
            r.cache_folder is None,
            r.yarn_path is None,
    {
        YarnRc {
            cache_folder: None,
            cache_migration_mode: None,
            changeset_base_refs: None,
            changeset_ignore_patterns: None,
            checksum_behavior: None,
            clone_concurrency: None,
            compression_level: None,
            constraints_path: None,
            default_language_name: None,
            default_protocol: None,
            default_semver_range_prefix: None,
            deferred_version_folder: None,
            enable_colors: None,
            enable_constraints_checks: None,
            enable_global_cache: None,
            enable_hardened_mode: None,
            enable_hyperlinks: None,
            enable_immutable_cache: None,
            enable_immutable_installs: None,
            enable_inline_builds: None,
            enable_inline_hunks: None,
            enable_message_names: None,
            enable_mirror: None,
            enable_network: None,
            enable_offline_mode: None,
            enable_progress_bars: None,
            enable_scripts: None,
            enable_strict_ssl: None,
            enable_telemetry: Some(false),
            enable_timers: None,
            enable_tips: Some(false),
            enable_transparent_workspaces: None,
            global_folder: None,
            http_proxy: None,
            http_retry: None,
            http_timeout: None,
            https_ca_file_path: None,
            https_cert_file_path: None,
            https_key_file_path: None,
            https_proxy: None,
            ignore_path: None,
            immutable_patterns: None,
            init_scope: None,
            init_fields: None,
            inject_environment_files: None,
            install_state_path: None,
            log_filters: None,
            network_concurrency: None,
            network_settings: None,
            nm_hoisting_limits: None,
            nm_self_references: None,
            nm_mode: None,
            node_linker: Some(NodeLinker::Pnp),
            npm_minimal_age_gate: None,
            npm_preapproved_packages: None,
            pnpm_store_folder: None,
            win_link_type: None,
            npm_always_auth: None,
            npm_audit_registry: None,
            npm_auth_ident: None,
            npm_auth_token: None,
            npm_publish_access: None,
            npm_publish_provenance: None,
            npm_audit_exclude_packages: None,
            npm_audit_ignore_advisories: None,
            npm_publish_registry: None,
            npm_registries: None,
            npm_registry_server: None,
            npm_scopes: None,
            package_extensions: None,
            patch_folder: None,
            pnp_enable_esm_loader: Some(true),
            pnp_enable_inlining: None,
            pnp_fallback_mode: None,
            pnp_ignore_patterns: None,
            pnp_mode: None,
            pnp_shebang: None,
            pnp_unplugged_folder: None,
            prefer_deferred_versions: None,
            prefer_interactive: None,
            prefer_reuse: None,
            prefer_truncated_lines: None,
            progress_bar_style: None,
            supported_architectures: None,
            task_pool_concurrency: None,
            task_pool_mode: None,
            telemetry_interval: None,
            telemetry_user_id: None,
            ts_enable_auto_types: None,
            unsafe_http_whitelist: None,
            virtual_folder: None,
            yarn_path: None,
        }
    }
}

} // verus!
