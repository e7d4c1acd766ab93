//! Policy layers: what a preset, a configuration file or the command line asks for,
//! and how one layer is laid over another.
use crate::errors::{PolicyError, PolicyFault};
use crate::launch::HostOs;
use crate::levels::{IsolationLevel, PresetKind};
use crate::lists::{
    append_list, copy_list, distinct, lemma_distinct_concat, no_texts, one_text, three_texts, two_texts,
    without_repetitions, Sameness,
};
use crate::number::{decimal, labelled_number};
use crate::text::{opt_text, opt_texts};
use vstd::prelude::*;

verus! {

broadcast use vstd::seq::group_seq_axioms;

/// What one layer asks for; `None` leaves the question to the layer below.
pub struct PolicyLayer {
    pub level: Option<IsolationLevel>,
    pub allow_net: Option<Seq<Seq<char>>>,
    pub network_deny_all_other: Option<bool>,
    pub filesystem_writable: Option<Seq<Seq<char>>>,
    pub filesystem_readonly: Option<Seq<Seq<char>>>,
    pub filesystem_deny: Option<Seq<Seq<char>>>,
    pub env_passthrough: Option<Seq<Seq<char>>>,
    pub env_deny: Option<Seq<Seq<char>>>,
    pub max_cpu: Option<u32>,
    pub max_ram: Option<Seq<char>>,
    pub max_disk: Option<Seq<char>>,
    pub timeout: Option<Seq<char>>,
}

/// The layer that asks for nothing.
pub open spec fn empty_layer() -> PolicyLayer {
    PolicyLayer {
        level: None,
        allow_net: None,
        network_deny_all_other: None,
        filesystem_writable: None,
        filesystem_readonly: None,
        filesystem_deny: None,
        env_passthrough: None,
        env_deny: None,
        max_cpu: None,
        max_ram: None,
        max_disk: None,
        timeout: None,
    }
}

/// A layer of the policy.
#[derive(Debug, Clone)]
pub struct PolicySpec {
    pub level: Option<IsolationLevel>,
    pub allow_net: Option<Vec<String>>,
    pub network_deny_all_other: Option<bool>,
    pub filesystem_writable: Option<Vec<String>>,
    pub filesystem_readonly: Option<Vec<String>>,
    pub filesystem_deny: Option<Vec<String>>,
    pub env_passthrough: Option<Vec<String>>,
    pub env_deny: Option<Vec<String>>,
    pub max_cpu: Option<u32>,
    pub max_ram: Option<String>,
    pub max_disk: Option<String>,
    pub timeout: Option<String>,
}

impl View for PolicySpec {
    type V = PolicyLayer;

    open spec fn view(&self) -> PolicyLayer {
        PolicyLayer {
            level: self.level,
            allow_net: opt_texts(self.allow_net),
            network_deny_all_other: self.network_deny_all_other,
            filesystem_writable: opt_texts(self.filesystem_writable),
            filesystem_readonly: opt_texts(self.filesystem_readonly),
            filesystem_deny: opt_texts(self.filesystem_deny),
            env_passthrough: opt_texts(self.env_passthrough),
            env_deny: opt_texts(self.env_deny),
            max_cpu: self.max_cpu,
            max_ram: opt_text(self.max_ram),
            max_disk: opt_text(self.max_disk),
            timeout: opt_text(self.timeout),
        }
    }
}

impl Default for PolicySpec {
    fn default() -> (spec: Self)
        ensures
            spec@ == empty_layer(),
    {
        PolicySpec {
            level: None,
            allow_net: None,
            network_deny_all_other: None,
            filesystem_writable: None,
            filesystem_readonly: None,
            filesystem_deny: None,
            env_passthrough: None,
            env_deny: None,
            max_cpu: None,
            max_ram: None,
            max_disk: None,
            timeout: None,
        }
    }
}

/// What the command line asks for.
#[derive(Debug, Clone)]
pub struct PolicyOverrides {
    pub level: Option<IsolationLevel>,
    pub allow_net: Option<Vec<String>>,
    pub network_deny_all_other: Option<bool>,
    pub filesystem_writable: Option<Vec<String>>,
    pub filesystem_readonly: Option<Vec<String>>,
    pub filesystem_deny: Option<Vec<String>>,
    pub env_passthrough: Option<Vec<String>>,
    pub env_deny: Option<Vec<String>>,
    pub max_cpu: Option<u32>,
    pub max_ram: Option<String>,
    pub max_disk: Option<String>,
    pub timeout: Option<String>,
}

impl View for PolicyOverrides {
    type V = PolicyLayer;

    open spec fn view(&self) -> PolicyLayer {
        PolicyLayer {
            level: self.level,
            allow_net: opt_texts(self.allow_net),
            network_deny_all_other: self.network_deny_all_other,
            filesystem_writable: opt_texts(self.filesystem_writable),
            filesystem_readonly: opt_texts(self.filesystem_readonly),
            filesystem_deny: opt_texts(self.filesystem_deny),
            env_passthrough: opt_texts(self.env_passthrough),
            env_deny: opt_texts(self.env_deny),
            max_cpu: self.max_cpu,
            max_ram: opt_text(self.max_ram),
            max_disk: opt_text(self.max_disk),
            timeout: opt_text(self.timeout),
        }
    }
}

impl Default for PolicyOverrides {
    fn default() -> (overrides: Self)
        ensures
            overrides@ == empty_layer(),
    {
        PolicyOverrides {
            level: None,
            allow_net: None,
            network_deny_all_other: None,
            filesystem_writable: None,
            filesystem_readonly: None,
            filesystem_deny: None,
            env_passthrough: None,
            env_deny: None,
            max_cpu: None,
            max_ram: None,
            max_disk: None,
            timeout: None,
        }
    }
}

impl PolicyOverrides {
    /// The overrides as a layer.
    pub fn to_spec(self) -> (spec: PolicySpec)
        ensures
            spec@ == self@,
    {
        PolicySpec {
            level: self.level,
            allow_net: self.allow_net,
            network_deny_all_other: self.network_deny_all_other,
            filesystem_writable: self.filesystem_writable,
            filesystem_readonly: self.filesystem_readonly,
            filesystem_deny: self.filesystem_deny,
            env_passthrough: self.env_passthrough,
            env_deny: self.env_deny,
            max_cpu: self.max_cpu,
            max_ram: self.max_ram,
            max_disk: self.max_disk,
            timeout: self.timeout,
        }
    }
}

// ---------------------------------------------------------------------------
// The configuration file

/// A configuration file.
#[derive(Debug, Clone, Default)]
pub struct ConfigFile {
    pub version: Option<u32>,
    pub sandbox: Option<SandboxConfig>,
    pub network: Option<NetworkConfig>,
    pub filesystem: Option<FilesystemConfig>,
    pub environment: Option<EnvironmentConfig>,
}

/// The `[sandbox]` section.
#[derive(Debug, Clone, Default)]
pub struct SandboxConfig {
    pub level: Option<IsolationLevel>,
    pub timeout: Option<String>,
    pub max_cpu: Option<u32>,
    pub max_ram: Option<String>,
    pub max_disk: Option<String>,
}

/// The `[network]` section.
#[derive(Debug, Clone, Default)]
pub struct NetworkConfig {
    pub allow: Option<Vec<String>>,
    pub deny_all_other: Option<bool>,
}

/// The `[filesystem]` section.
#[derive(Debug, Clone, Default)]
pub struct FilesystemConfig {
    pub writable: Option<Vec<String>>,
    pub readonly: Option<Vec<String>>,
    pub deny: Option<Vec<String>>,
}

/// The `[environment]` section.
#[derive(Debug, Clone, Default)]
pub struct EnvironmentConfig {
    pub passthrough: Option<Vec<String>>,
    pub deny: Option<Vec<String>>,
}

/// What reading a configuration file came to.
#[derive(Debug, Clone)]
pub enum ConfigSource {
    /// The file could not be read; the text tells why.
    Unreadable(String),
    /// The file is not a configuration; the text tells why.
    Malformed(String),
    /// The configuration that the file holds.
    Parsed(ConfigFile),
}

/// The only version of the configuration format.
pub const CONFIG_VERSION: u32 = 1;

/// The layer that a configuration file asks for.
pub open spec fn config_layer(config: ConfigFile) -> PolicyLayer {
    PolicyLayer {
        level: match config.sandbox {
            Some(s) => s.level,
            None => None,
        },
        timeout: match config.sandbox {
            Some(s) => opt_text(s.timeout),
            None => None,
        },
        max_cpu: match config.sandbox {
            Some(s) => s.max_cpu,
            None => None,
        },
        max_ram: match config.sandbox {
            Some(s) => opt_text(s.max_ram),
            None => None,
        },
        max_disk: match config.sandbox {
            Some(s) => opt_text(s.max_disk),
            None => None,
        },
        allow_net: match config.network {
            Some(n) => opt_texts(n.allow),
            None => None,
        },
        network_deny_all_other: match config.network {
            Some(n) => n.deny_all_other,
            None => None,
        },
        filesystem_writable: match config.filesystem {
            Some(f) => opt_texts(f.writable),
            None => None,
        },
        filesystem_readonly: match config.filesystem {
            Some(f) => opt_texts(f.readonly),
            None => None,
        },
        filesystem_deny: match config.filesystem {
            Some(f) => opt_texts(f.deny),
            None => None,
        },
        env_passthrough: match config.environment {
            Some(e) => opt_texts(e.passthrough),
            None => None,
        },
        env_deny: match config.environment {
            Some(e) => opt_texts(e.deny),
            None => None,
        },
    }
}

fn copy_text(value: &Option<String>) -> (out: Option<String>)
    ensures
        opt_text(out) == opt_text(*value),
{
    match value {
        Some(s) => Some(s.clone()),
        None => None,
    }
}

fn copy_texts(value: &Option<Vec<String>>) -> (out: Option<Vec<String>>)
    ensures
        opt_texts(out) == opt_texts(*value),
{
    match value {
        Some(v) => Some(copy_list(v)),
        None => None,
    }
}

impl ConfigFile {
    /// The configuration of the file at `path`, given what reading it came to. A version
    /// other than the one this library knows is refused; no version means that one.
    pub fn load(path: &str, source: ConfigSource) -> (r: Result<ConfigFile, PolicyError>)
        ensures
            match source {
                ConfigSource::Unreadable(reason) => r matches Err(e) && e@
                    == (PolicyFault::ConfigRead { path: path@, source: reason@ }),
                ConfigSource::Malformed(reason) => r matches Err(e) && e@
                    == PolicyFault::ConfigParse(reason@),
                ConfigSource::Parsed(config) => match config.version {
                    Some(version) if version != CONFIG_VERSION => r matches Err(e) && e@
                        == PolicyFault::ConfigParse(
                        "unsupported config version: "@ + decimal(version as nat),
                    ),
                    _ => r == Ok::<ConfigFile, PolicyError>(config),
                },
            },
    {
        match source {
            ConfigSource::Unreadable(reason) => Err(
                PolicyError::ConfigRead { path: path.to_string(), source: reason },
            ),
            ConfigSource::Malformed(reason) => Err(PolicyError::ConfigParse(reason)),
            ConfigSource::Parsed(config) => {
                if let Some(version) = config.version {
                    if version != CONFIG_VERSION {
                        return Err(
                            PolicyError::ConfigParse(
                                labelled_number("unsupported config version: ", version as u128),
                            ),
                        );
                    }
                }
                Ok(config)
            },
        }
    }

    /// The configuration as a layer.
    pub fn to_spec(&self) -> (spec: PolicySpec)
        ensures
            spec@ == config_layer(*self),
    {
        let mut spec = PolicySpec::default();
        if let Some(sandbox) = &self.sandbox {
            spec.level = sandbox.level;
            spec.timeout = copy_text(&sandbox.timeout);
            spec.max_cpu = sandbox.max_cpu;
            spec.max_ram = copy_text(&sandbox.max_ram);
            spec.max_disk = copy_text(&sandbox.max_disk);
        }
        if let Some(network) = &self.network {
            spec.allow_net = copy_texts(&network.allow);
            spec.network_deny_all_other = network.deny_all_other;
        }
        if let Some(filesystem) = &self.filesystem {
            spec.filesystem_writable = copy_texts(&filesystem.writable);
            spec.filesystem_readonly = copy_texts(&filesystem.readonly);
            spec.filesystem_deny = copy_texts(&filesystem.deny);
        }
        if let Some(environment) = &self.environment {
            spec.env_passthrough = copy_texts(&environment.passthrough);
            spec.env_deny = copy_texts(&environment.deny);
        }
        spec
    }
}

// ---------------------------------------------------------------------------
// Laying one layer over another

/// The overlay's answer where it has one, else that of the base.
pub open spec fn merged_value<T>(base: Option<T>, overlay: Option<T>) -> Option<T> {
    match overlay {
        Some(value) => Some(value),
        None => base,
    }
}

/// Both lists, the base first, without repetitions; where one layer has no list, the
/// other's as it is.
pub open spec fn merged_list(
    kind: Sameness,
    base: Option<Seq<Seq<char>>>,
    overlay: Option<Seq<Seq<char>>>,
) -> Option<Seq<Seq<char>>> {
    match (base, overlay) {
        (Some(a), Some(b)) => Some(distinct(kind, a + b)),
        (None, Some(b)) => Some(b),
        (_, None) => base,
    }
}

/// `overlay` laid over `base`, on a machine with that system.
pub open spec fn merged_layer(os: HostOs, base: PolicyLayer, overlay: PolicyLayer) -> PolicyLayer {
    PolicyLayer {
        level: merged_value(base.level, overlay.level),
        allow_net: merged_list(Sameness::Text, base.allow_net, overlay.allow_net),
        network_deny_all_other: merged_value(
            base.network_deny_all_other,
            overlay.network_deny_all_other,
        ),
        filesystem_writable: merged_list(
            Sameness::Path(os),
            base.filesystem_writable,
            overlay.filesystem_writable,
        ),
        filesystem_readonly: merged_list(
            Sameness::Path(os),
            base.filesystem_readonly,
            overlay.filesystem_readonly,
        ),
        filesystem_deny: merged_list(
            Sameness::Path(os),
            base.filesystem_deny,
            overlay.filesystem_deny,
        ),
        env_passthrough: merged_list(
            Sameness::Text,
            base.env_passthrough,
            overlay.env_passthrough,
        ),
        env_deny: merged_list(Sameness::Text, base.env_deny, overlay.env_deny),
        max_cpu: merged_value(base.max_cpu, overlay.max_cpu),
        max_ram: merged_value(base.max_ram, overlay.max_ram),
        max_disk: merged_value(base.max_disk, overlay.max_disk),
        timeout: merged_value(base.timeout, overlay.timeout),
    }
}

proof fn lemma_merged_list_associative(
    kind: Sameness,
    a: Option<Seq<Seq<char>>>,
    b: Option<Seq<Seq<char>>>,
    c: Option<Seq<Seq<char>>>,
)
    ensures
        merged_list(kind, merged_list(kind, a, b), c) == merged_list(
            kind,
            a,
            merged_list(kind, b, c),
        ),
{
    if a is Some && b is Some && c is Some {
        let (x, y, z) = (a->0, b->0, c->0);
        lemma_distinct_concat(kind, x + y, z);
        lemma_distinct_concat(kind, x, y + z);
        assert((x + y) + z =~= x + (y + z));
    }
}

/// The empty layer changes nothing, whether it is laid over another or another over it.
pub proof fn lemma_merge_empty(os: HostOs, layer: PolicyLayer)
    ensures
        merged_layer(os, layer, empty_layer()) == layer,
        merged_layer(os, empty_layer(), layer) == layer,
{
}

/// Layers can be combined in any grouping: laying `c` over `b` first, or `b` over `a`
/// first, comes to the same policy.
pub proof fn lemma_merge_associative(os: HostOs, a: PolicyLayer, b: PolicyLayer, c: PolicyLayer)
    ensures
        merged_layer(os, merged_layer(os, a, b), c) == merged_layer(os, a, merged_layer(os, b, c)),
{
    lemma_merged_list_associative(Sameness::Text, a.allow_net, b.allow_net, c.allow_net);
    lemma_merged_list_associative(
        Sameness::Path(os),
        a.filesystem_writable,
        b.filesystem_writable,
        c.filesystem_writable,
    );
    lemma_merged_list_associative(
        Sameness::Path(os),
        a.filesystem_readonly,
        b.filesystem_readonly,
        c.filesystem_readonly,
    );
    lemma_merged_list_associative(
        Sameness::Path(os),
        a.filesystem_deny,
        b.filesystem_deny,
        c.filesystem_deny,
    );
    lemma_merged_list_associative(
        Sameness::Text,
        a.env_passthrough,
        b.env_passthrough,
        c.env_passthrough,
    );
    lemma_merged_list_associative(Sameness::Text, a.env_deny, b.env_deny, c.env_deny);
}

fn merge_vec(kind: Sameness, base: Option<Vec<String>>, overlay: Option<Vec<String>>) -> (out:
    Option<Vec<String>>)
    ensures
        opt_texts(out) == merged_list(kind, opt_texts(base), opt_texts(overlay)),
{
    match (base, overlay) {
        (base, None) => base,
        (None, Some(incoming)) => Some(incoming),
        (Some(existing), Some(incoming)) => {
            let all = append_list(existing, &incoming);
            Some(without_repetitions(kind, &all))
        },
    }
}

impl PolicySpec {
    /// `overlay` laid over this layer, on a machine with that system.
    pub fn merge(self, overlay: PolicySpec, os: HostOs) -> (merged: PolicySpec)
        ensures
            merged@ == merged_layer(os, self@, overlay@),
    {
        PolicySpec {
            level: if overlay.level.is_some() {
                overlay.level
            } else {
                self.level
            },
            allow_net: merge_vec(Sameness::Text, self.allow_net, overlay.allow_net),
            network_deny_all_other: if overlay.network_deny_all_other.is_some() {
                overlay.network_deny_all_other
            } else {
                self.network_deny_all_other
            },
            filesystem_writable: merge_vec(
                Sameness::Path(os),
                self.filesystem_writable,
                overlay.filesystem_writable,
            ),
            filesystem_readonly: merge_vec(
                Sameness::Path(os),
                self.filesystem_readonly,
                overlay.filesystem_readonly,
            ),
            filesystem_deny: merge_vec(
                Sameness::Path(os),
                self.filesystem_deny,
                overlay.filesystem_deny,
            ),
            env_passthrough: merge_vec(
                Sameness::Text,
                self.env_passthrough,
                overlay.env_passthrough,
            ),
            env_deny: merge_vec(Sameness::Text, self.env_deny, overlay.env_deny),
            max_cpu: if overlay.max_cpu.is_some() {
                overlay.max_cpu
            } else {
                self.max_cpu
            },
            max_ram: if overlay.max_ram.is_some() {
                overlay.max_ram
            } else {
                self.max_ram
            },
            max_disk: if overlay.max_disk.is_some() {
                overlay.max_disk
            } else {
                self.max_disk
            },
            timeout: if overlay.timeout.is_some() {
                overlay.timeout
            } else {
                self.timeout
            },
        }
    }
}

// ---------------------------------------------------------------------------
// Presets

/// The layer of a preset, on a machine whose directory for temporary files is `temp_dir`.
pub open spec fn preset_layer(preset: PresetKind, temp_dir: Seq<char>) -> PolicyLayer {
    match preset {
        PresetKind::AiAgent => PolicyLayer {
            level: Some(IsolationLevel::Safe),
            allow_net: Some(seq!["api.openai.com:443"@, "api.anthropic.com:443"@]),
            network_deny_all_other: Some(true),
            filesystem_writable: Some(seq!["."@, temp_dir]),
            filesystem_readonly: Some(Seq::<Seq<char>>::empty()),
            filesystem_deny: Some(seq!["/etc/passwd"@, "/proc"@, "/sys"@]),
            env_passthrough: Some(seq!["OPENAI_API_KEY"@, "ANTHROPIC_API_KEY"@, "NODE_ENV"@]),
            env_deny: Some(seq!["AWS_SECRET_*"@, "DATABASE_*"@]),
            max_cpu: Some(1),
            max_ram: Some("1g"@),
            max_disk: Some("2g"@),
            timeout: Some("10m"@),
        },
        PresetKind::WebServer => PolicyLayer {
            level: Some(IsolationLevel::Safe),
            allow_net: Some(seq!["127.0.0.1:3000"@, "127.0.0.1:8080"@, "127.0.0.1:9000"@]),
            network_deny_all_other: Some(true),
            filesystem_writable: Some(seq!["."@, temp_dir]),
            filesystem_readonly: Some(Seq::<Seq<char>>::empty()),
            filesystem_deny: Some(seq!["/proc"@, "/sys"@]),
            env_passthrough: Some(seq!["NODE_ENV"@]),
            env_deny: Some(seq!["AWS_SECRET_*"@, "DATABASE_*"@]),
            max_cpu: Some(2),
            max_ram: Some("1g"@),
            max_disk: Some("2g"@),
            timeout: Some("30m"@),
        },
        PresetKind::Hermetic => PolicyLayer {
            level: Some(IsolationLevel::Safe),
            allow_net: Some(Seq::<Seq<char>>::empty()),
            network_deny_all_other: Some(true),
            filesystem_writable: Some(seq!["."@, temp_dir]),
            filesystem_readonly: Some(Seq::<Seq<char>>::empty()),
            filesystem_deny: Some(seq!["/etc"@, "/proc"@, "/sys"@]),
            env_passthrough: Some(Seq::<Seq<char>>::empty()),
            env_deny: Some(seq!["*"@]),
            max_cpu: Some(1),
            max_ram: Some("256m"@),
            max_disk: Some("512m"@),
            timeout: Some("5m"@),
        },
    }
}

impl PresetKind {
    /// The layer of the preset.
    pub fn default_spec(self, temp_dir: &str) -> (spec: PolicySpec)
        ensures
            spec@ == preset_layer(self, temp_dir@),
    {
        match self {
            PresetKind::AiAgent => PolicySpec {
                level: Some(IsolationLevel::Safe),
                allow_net: Some(two_texts("api.openai.com:443", "api.anthropic.com:443")),
                network_deny_all_other: Some(true),
                filesystem_writable: Some(two_texts(".", temp_dir)),
                filesystem_readonly: Some(no_texts()),
                filesystem_deny: Some(three_texts("/etc/passwd", "/proc", "/sys")),
                env_passthrough: Some(
                    three_texts("OPENAI_API_KEY", "ANTHROPIC_API_KEY", "NODE_ENV"),
                ),
                env_deny: Some(two_texts("AWS_SECRET_*", "DATABASE_*")),
                max_cpu: Some(1),
                max_ram: Some("1g".to_string()),
                max_disk: Some("2g".to_string()),
                timeout: Some("10m".to_string()),
            },
            PresetKind::WebServer => PolicySpec {
                level: Some(IsolationLevel::Safe),
                allow_net: Some(
                    three_texts("127.0.0.1:3000", "127.0.0.1:8080", "127.0.0.1:9000"),
                ),
                network_deny_all_other: Some(true),
                filesystem_writable: Some(two_texts(".", temp_dir)),
                filesystem_readonly: Some(no_texts()),
                filesystem_deny: Some(two_texts("/proc", "/sys")),
                env_passthrough: Some(one_text("NODE_ENV")),
                env_deny: Some(two_texts("AWS_SECRET_*", "DATABASE_*")),
                max_cpu: Some(2),
                max_ram: Some("1g".to_string()),
                max_disk: Some("2g".to_string()),
                timeout: Some("30m".to_string()),
            },
            PresetKind::Hermetic => PolicySpec {
                level: Some(IsolationLevel::Safe),
                allow_net: Some(no_texts()),
                network_deny_all_other: Some(true),
                filesystem_writable: Some(two_texts(".", temp_dir)),
                filesystem_readonly: Some(no_texts()),
                filesystem_deny: Some(three_texts("/etc", "/proc", "/sys")),
                env_passthrough: Some(no_texts()),
                env_deny: Some(one_text("*")),
                max_cpu: Some(1),
                max_ram: Some("256m".to_string()),
                max_disk: Some("512m".to_string()),
                timeout: Some("5m".to_string()),
            },
        }
    }
}

} // verus!
