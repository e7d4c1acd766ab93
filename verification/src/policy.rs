//! The resolved policy: every question answered, every rule checked.
use crate::duration::Duration;
use crate::errors::{PolicyError, PolicyFault};
use crate::glob::{any_pattern_matches, matches_glob_any};
use crate::launch::HostOs;
use crate::layers::{
    config_layer, empty_layer, merged_layer, preset_layer, ConfigFile, PolicyLayer, PolicyOverrides,
    PolicySpec,
};
use crate::levels::{level_name, IsolationLevel, PresetKind};
use crate::lists::{distinct, holds, list_holds, no_texts, two_texts, without_repetitions, Sameness};
use crate::number::{decimal, decimal_text};
use crate::paths::{join_path, joined_path};
use crate::text::{
    concat, is_empty, join, joined, lemma_texts_push, opt_text, texts, trim, trimmed,
};
use crate::units::{
    format_bytes, format_duration, formatted_bytes, formatted_millis, parse_human_duration,
    parse_human_size, parsed_millis, parsed_size,
};
use vstd::prelude::*;

verus! {

broadcast use vstd::seq::group_seq_axioms;

/// What a resolved policy says.
pub struct PolicyModel {
    pub working_dir: Seq<char>,
    pub level: IsolationLevel,
    pub allow_net: Seq<Seq<char>>,
    pub network_deny_all_other: bool,
    pub filesystem_writable: Seq<Seq<char>>,
    pub filesystem_readonly: Seq<Seq<char>>,
    pub filesystem_deny: Seq<Seq<char>>,
    pub env_passthrough: Seq<Seq<char>>,
    pub env_deny: Seq<Seq<char>>,
    pub max_cpu: u32,
    pub max_ram_bytes: u64,
    pub max_disk_bytes: u64,
    /// In nanoseconds.
    pub timeout: nat,
}

/// A policy with every question answered.
#[derive(Debug, Clone)]
pub struct ResolvedPolicy {
    pub working_dir: String,
    pub level: IsolationLevel,
    pub allow_net: Vec<String>,
    pub network_deny_all_other: bool,
    pub filesystem_writable: Vec<String>,
    pub filesystem_readonly: Vec<String>,
    pub filesystem_deny: Vec<String>,
    pub env_passthrough: Vec<String>,
    pub env_deny: Vec<String>,
    pub max_cpu: u32,
    pub max_ram_bytes: u64,
    pub max_disk_bytes: u64,
    pub timeout: Duration,
}

impl View for ResolvedPolicy {
    type V = PolicyModel;

    open spec fn view(&self) -> PolicyModel {
        PolicyModel {
            working_dir: self.working_dir@,
            level: self.level,
            allow_net: texts(self.allow_net@),
            network_deny_all_other: self.network_deny_all_other,
            filesystem_writable: texts(self.filesystem_writable@),
            filesystem_readonly: texts(self.filesystem_readonly@),
            filesystem_deny: texts(self.filesystem_deny@),
            env_passthrough: texts(self.env_passthrough@),
            env_deny: texts(self.env_deny@),
            max_cpu: self.max_cpu,
            max_ram_bytes: self.max_ram_bytes,
            max_disk_bytes: self.max_disk_bytes,
            timeout: self.timeout@,
        }
    }
}

// ---------------------------------------------------------------------------
// Defaults

/// The limits of a level: processors, memory, disk, time.
pub open spec fn level_limits(level: IsolationLevel) -> (u32, Seq<char>, Seq<char>, Seq<char>) {
    match level {
        IsolationLevel::Fast => (1, "256m"@, "512m"@, "60s"@),
        IsolationLevel::Safe => (1, "512m"@, "1g"@, "5m"@),
        IsolationLevel::Paranoid => (1, "256m"@, "512m"@, "5m"@),
    }
}

/// The limits that a level sets where no layer does.
#[derive(Debug, Clone, Copy)]
pub struct LevelDefaults {
    pub max_cpu: u32,
    pub max_ram: &'static str,
    pub max_disk: &'static str,
    pub timeout: &'static str,
}

/// The limits of `level`.
pub fn level_defaults(level: IsolationLevel) -> (d: LevelDefaults)
    ensures
        (d.max_cpu, d.max_ram@, d.max_disk@, d.timeout@) == level_limits(level),
{
    match level {
        IsolationLevel::Fast => LevelDefaults {
            max_cpu: 1,
            max_ram: "256m",
            max_disk: "512m",
            timeout: "60s",
        },
        IsolationLevel::Safe => LevelDefaults {
            max_cpu: 1,
            max_ram: "512m",
            max_disk: "1g",
            timeout: "5m",
        },
        IsolationLevel::Paranoid => LevelDefaults {
            max_cpu: 1,
            max_ram: "256m",
            max_disk: "512m",
            timeout: "5m",
        },
    }
}

/// The variables that a command needs to find its way around the machine.
pub open spec fn infra_env_keys() -> Seq<Seq<char>> {
    seq![
        "PATH"@,
        "HOME"@,
        "USER"@,
        "LOGNAME"@,
        "TMPDIR"@,
        "TEMP"@,
        "TMP"@,
        "SystemRoot"@,
        "ComSpec"@,
        "SHELL"@,
        "TERM"@,
    ]
}

/// The variables that a command needs to find its way around the machine.
pub fn safe_infra_env_keys() -> (out: Vec<String>)
    ensures
        texts(out@) == infra_env_keys(),
{
    let out: Vec<String> = vec![
        "PATH".to_string(),
        "HOME".to_string(),
        "USER".to_string(),
        "LOGNAME".to_string(),
        "TMPDIR".to_string(),
        "TEMP".to_string(),
        "TMP".to_string(),
        "SystemRoot".to_string(),
        "ComSpec".to_string(),
        "SHELL".to_string(),
        "TERM".to_string(),
    ];
    assert(texts(out@) =~= infra_env_keys());
    out
}

// ---------------------------------------------------------------------------
// Normal forms of lists

/// The entries without surrounding white space; those with nothing left are dropped.
pub open spec fn trimmed_entries(list: Seq<Seq<char>>) -> Seq<Seq<char>>
    decreases list.len(),
{
    if list.len() == 0 {
        Seq::<Seq<char>>::empty()
    } else {
        let before = trimmed_entries(list.drop_last());
        let last = trimmed(list.last());
        if last.len() == 0 {
            before
        } else {
            before.push(last)
        }
    }
}

/// The normal form of a list of texts: trimmed, without empty entries and repetitions.
pub open spec fn normal_texts(list: Seq<Seq<char>>) -> Seq<Seq<char>> {
    distinct(Sameness::Text, trimmed_entries(list))
}

fn trim_entries(list: &Vec<String>) -> (out: Vec<String>)
    ensures
        texts(out@) == trimmed_entries(texts(list@)),
{
    let mut out: Vec<String> = Vec::new();
    let ghost all = texts(list@);
    assert(texts(out@) =~= trimmed_entries(all.take(0)));
    for i in 0..list.len()
        invariant
            all == texts(list@),
            texts(out@) == trimmed_entries(all.take(i as int)),
    {
        assert(all.take(i + 1).drop_last() =~= all.take(i as int));
        let entry = trim(list[i].as_str());
        if !is_empty(entry.as_str()) {
            proof {
                lemma_texts_push(out@, entry);
            }
            out.push(entry);
        }
    }
    assert(all.take(all.len() as int) =~= all);
    out
}

fn normalize_strings(list: &Vec<String>) -> (out: Vec<String>)
    ensures
        texts(out@) == normal_texts(texts(list@)),
{
    let entries = trim_entries(list);
    without_repetitions(Sameness::Text, &entries)
}

fn normalize_paths(os: HostOs, list: &Vec<String>) -> (out: Vec<String>)
    ensures
        texts(out@) == distinct(Sameness::Path(os), texts(list@)),
{
    without_repetitions(Sameness::Path(os), list)
}

/// The names that no pattern matches.
pub open spec fn unmatched(names: Seq<Seq<char>>, patterns: Seq<Seq<char>>) -> Seq<Seq<char>> {
    names.filter(|name: Seq<char>| !any_pattern_matches(patterns, name))
}

fn keep_unmatched(names: &Vec<String>, patterns: &Vec<String>) -> (out: Vec<String>)
    ensures
        texts(out@) == unmatched(texts(names@), texts(patterns@)),
{
    let mut out: Vec<String> = Vec::new();
    let ghost all = texts(names@);
    let ghost keep = |name: Seq<char>| !any_pattern_matches(texts(patterns@), name);
    assert(all.take(0).filter(keep) =~= Seq::<Seq<char>>::empty()) by {
        reveal(Seq::filter);
    }
    assert(texts(out@) =~= all.take(0).filter(keep));
    for i in 0..names.len()
        invariant
            all == texts(names@),
            keep == (|name: Seq<char>| !any_pattern_matches(texts(patterns@), name)),
            texts(out@) == all.take(i as int).filter(keep),
    {
        proof {
            reveal(Seq::filter);
        }
        assert(all.take(i + 1).drop_last() =~= all.take(i as int));
        if !matches_glob_any(names[i].as_str(), patterns) {
            proof {
                lemma_texts_push(out@, names@[i as int]);
            }
            out.push(names[i].clone());
        }
    }
    assert(all.take(all.len() as int) =~= all);
    out
}

// ---------------------------------------------------------------------------
// Rules

/// The paths as seen from the working directory.
pub open spec fn placed(os: HostOs, working_dir: Seq<char>, list: Seq<Seq<char>>) -> Seq<Seq<char>> {
    list.map_values(|path: Seq<char>| joined_path(os, working_dir, path))
}

/// The paths of the first list, as seen from the working directory, that the second
/// list names too.
pub open spec fn conflicts(
    os: HostOs,
    working_dir: Seq<char>,
    left: Seq<Seq<char>>,
    right: Seq<Seq<char>>,
) -> Seq<Seq<char>> {
    placed(os, working_dir, left).filter(
        |path: Seq<char>| holds(Sameness::Path(os), placed(os, working_dir, right), path),
    )
}

/// What is told of two lists that name the same paths.
pub open spec fn conflict_text(
    left_label: Seq<char>,
    right_label: Seq<char>,
    paths: Seq<Seq<char>>,
) -> Seq<char> {
    left_label + " conflicts with "@ + right_label + " for: "@ + joined(paths, ", "@)
}

/// The first rule that the policy breaks, in words.
pub open spec fn broken_rule(os: HostOs, m: PolicyModel) -> Option<Seq<char>> {
    let writable_readonly = conflicts(os, m.working_dir, m.filesystem_writable, m.filesystem_readonly);
    let writable_deny = conflicts(os, m.working_dir, m.filesystem_writable, m.filesystem_deny);
    let readonly_deny = conflicts(os, m.working_dir, m.filesystem_readonly, m.filesystem_deny);
    if m.max_cpu == 0 {
        Some("max_cpu must be greater than zero"@)
    } else if m.max_ram_bytes == 0 {
        Some("max_ram must be greater than zero"@)
    } else if m.max_disk_bytes == 0 {
        Some("max_disk must be greater than zero"@)
    } else if m.timeout == 0 {
        Some("timeout must be greater than zero"@)
    } else if !m.network_deny_all_other && m.allow_net.len() == 0 {
        Some("open network requires an explicit allow_net list"@)
    } else if writable_readonly.len() > 0 {
        Some(conflict_text("filesystem writable"@, "filesystem readonly"@, writable_readonly))
    } else if writable_deny.len() > 0 {
        Some(conflict_text("filesystem writable"@, "filesystem deny"@, writable_deny))
    } else if readonly_deny.len() > 0 {
        Some(conflict_text("filesystem readonly"@, "filesystem deny"@, readonly_deny))
    } else {
        None
    }
}

/// The paths as seen from the working directory.
pub fn place_paths(os: HostOs, working_dir: &str, list: &Vec<String>) -> (out: Vec<String>)
    ensures
        texts(out@) == placed(os, working_dir@, texts(list@)),
{
    let mut out: Vec<String> = Vec::new();
    for i in 0..list.len()
        invariant
            out.len() == i,
            forall|j: int|
                0 <= j < i ==> out@[j]@ == joined_path(os, working_dir@, #[trigger] list@[j]@),
    {
        out.push(join_path(os, working_dir, list[i].as_str()));
    }
    assert(texts(out@) =~= placed(os, working_dir@, texts(list@)));
    out
}

fn conflicting_paths(os: HostOs, working_dir: &str, left: &Vec<String>, right: &Vec<String>) -> (out: Vec<
    String,
>)
    ensures
        texts(out@) == conflicts(os, working_dir@, texts(left@), texts(right@)),
{
    let placed_left = place_paths(os, working_dir, left);
    let placed_right = place_paths(os, working_dir, right);
    let mut out: Vec<String> = Vec::new();
    let ghost all = texts(placed_left@);
    let ghost clash = |path: Seq<char>|
        holds(Sameness::Path(os), placed(os, working_dir@, texts(right@)), path);
    assert(all.take(0).filter(clash) =~= Seq::<Seq<char>>::empty()) by {
        reveal(Seq::filter);
    }
    assert(texts(out@) =~= all.take(0).filter(clash));
    for i in 0..placed_left.len()
        invariant
            all == texts(placed_left@),
            texts(placed_right@) == placed(os, working_dir@, texts(right@)),
            clash == (|path: Seq<char>|
                holds(Sameness::Path(os), placed(os, working_dir@, texts(right@)), path)),
            texts(out@) == all.take(i as int).filter(clash),
    {
        proof {
            reveal(Seq::filter);
        }
        assert(all.take(i + 1).drop_last() =~= all.take(i as int));
        if list_holds(Sameness::Path(os), &placed_right, placed_left[i].as_str()) {
            proof {
                lemma_texts_push(out@, placed_left@[i as int]);
            }
            out.push(placed_left[i].clone());
        }
    }
    assert(all.take(all.len() as int) =~= all);
    out
}

fn validate_path_conflicts(
    os: HostOs,
    working_dir: &str,
    left_label: &str,
    left: &Vec<String>,
    right_label: &str,
    right: &Vec<String>,
) -> (r: Result<(), PolicyError>)
    ensures
        ({
            let paths = conflicts(os, working_dir@, texts(left@), texts(right@));
            if paths.len() == 0 {
                r == Ok::<(), PolicyError>(())
            } else {
                r matches Err(e) && e@ == PolicyFault::InvalidPolicyConfiguration(
                    conflict_text(left_label@, right_label@, paths),
                )
            }
        }),
{
    let paths = conflicting_paths(os, working_dir, left, right);
    assert(texts(paths@).len() == paths.len());
    if paths.len() == 0 {
        return Ok(());
    }
    let mut text = concat(left_label, " conflicts with ");
    text.append(right_label);
    text.append(" for: ");
    text.append(join(&paths, ", ").as_str());
    Err(PolicyError::InvalidPolicyConfiguration(text))
}

// ---------------------------------------------------------------------------
// Resolution

/// The policy that a layer comes to in a working directory, or why it comes to none.
pub open spec fn resolved_layer(
    os: HostOs,
    working_dir: Seq<char>,
    temp_dir: Seq<char>,
    layer: PolicyLayer,
) -> Result<PolicyModel, PolicyFault> {
    let level = match layer.level {
        Some(level) => level,
        None => IsolationLevel::Safe,
    };
    let limits = level_limits(level);
    let env_deny = layer.env_deny.unwrap_or(Seq::<Seq<char>>::empty());
    let ram = layer.max_ram.unwrap_or(limits.1);
    let disk = layer.max_disk.unwrap_or(limits.2);
    let time = layer.timeout.unwrap_or(limits.3);
    if parsed_size(ram) is None {
        Err(PolicyFault::InvalidSize(ram))
    } else if parsed_size(disk) is None {
        Err(PolicyFault::InvalidSize(disk))
    } else if parsed_millis(time) is None {
        Err(PolicyFault::InvalidDuration(time))
    } else {
        let policy = PolicyModel {
            working_dir,
            level,
            allow_net: normal_texts(layer.allow_net.unwrap_or(Seq::<Seq<char>>::empty())),
            network_deny_all_other: layer.network_deny_all_other.unwrap_or(true),
            filesystem_writable: distinct(
                Sameness::Path(os),
                layer.filesystem_writable.unwrap_or(seq![working_dir, temp_dir]),
            ),
            filesystem_readonly: distinct(
                Sameness::Path(os),
                layer.filesystem_readonly.unwrap_or(Seq::<Seq<char>>::empty()),
            ),
            filesystem_deny: distinct(
                Sameness::Path(os),
                layer.filesystem_deny.unwrap_or(Seq::<Seq<char>>::empty()),
            ),
            env_passthrough: unmatched(
                normal_texts(layer.env_passthrough.unwrap_or(infra_env_keys())),
                env_deny,
            ),
            env_deny: normal_texts(env_deny),
            max_cpu: layer.max_cpu.unwrap_or(limits.0),
            max_ram_bytes: parsed_size(ram)->0,
            max_disk_bytes: parsed_size(disk)->0,
            timeout: parsed_millis(time)->0 as nat * 1_000_000,
        };
        match broken_rule(os, policy) {
            Some(rule) => Err(PolicyFault::InvalidPolicyConfiguration(rule)),
            None => Ok(policy),
        }
    }
}

/// The layers in force, one over the other: preset, configuration file, command line.
pub open spec fn stacked_layers(
    os: HostOs,
    temp_dir: Seq<char>,
    preset: Option<PresetKind>,
    config: Option<ConfigFile>,
    overrides: PolicyLayer,
) -> PolicyLayer {
    let base = match preset {
        Some(kind) => preset_layer(kind, temp_dir),
        None => empty_layer(),
    };
    let configured = match config {
        Some(file) => merged_layer(os, base, config_layer(file)),
        None => base,
    };
    merged_layer(os, configured, overrides)
}

/// The policy that preset, configuration file and command line come to.
pub fn resolve_policy(
    os: HostOs,
    working_dir: &str,
    temp_dir: &str,
    preset: Option<PresetKind>,
    config: Option<ConfigFile>,
    overrides: PolicyOverrides,
) -> (r: Result<ResolvedPolicy, PolicyError>)
    ensures
        match resolved_layer(
            os,
            working_dir@,
            temp_dir@,
            stacked_layers(os, temp_dir@, preset, config, overrides@),
        ) {
            Ok(model) => r matches Ok(policy) && policy@ == model,
            Err(fault) => r matches Err(e) && e@ == fault,
        },
{
    let mut spec = match preset {
        Some(kind) => kind.default_spec(temp_dir),
        None => PolicySpec::default(),
    };
    if let Some(config) = config {
        spec = spec.merge(config.to_spec(), os);
    }
    spec = spec.merge(overrides.to_spec(), os);
    ResolvedPolicy::from_spec(os, working_dir, temp_dir, spec)
}

fn text_or(value: &Option<String>, default: &str) -> (out: String)
    ensures
        out@ == opt_text(*value).unwrap_or(default@),
{
    match value {
        Some(text) => text.clone(),
        None => default.to_string(),
    }
}

impl ResolvedPolicy {
    /// The policy that a layer comes to.
    pub fn from_spec(os: HostOs, working_dir: &str, temp_dir: &str, spec: PolicySpec) -> (r: Result<
        ResolvedPolicy,
        PolicyError,
    >)
        ensures
            match resolved_layer(os, working_dir@, temp_dir@, spec@) {
                Ok(model) => r matches Ok(policy) && policy@ == model,
                Err(fault) => r matches Err(e) && e@ == fault,
            },
    {
        let level = match spec.level {
            Some(level) => level,
            None => IsolationLevel::default(),
        };
        let defaults = level_defaults(level);
        let allow_net = match &spec.allow_net {
            Some(list) => normalize_strings(list),
            None => normalize_strings(&no_texts()),
        };
        let network_deny_all_other = match spec.network_deny_all_other {
            Some(deny) => deny,
            None => true,
        };
        let filesystem_writable = match &spec.filesystem_writable {
            Some(list) => normalize_paths(os, list),
            None => normalize_paths(os, &two_texts(working_dir, temp_dir)),
        };
        let filesystem_readonly = match &spec.filesystem_readonly {
            Some(list) => normalize_paths(os, list),
            None => normalize_paths(os, &no_texts()),
        };
        let filesystem_deny = match &spec.filesystem_deny {
            Some(list) => normalize_paths(os, list),
            None => normalize_paths(os, &no_texts()),
        };
        let env_names = match &spec.env_passthrough {
            Some(list) => normalize_strings(list),
            None => normalize_strings(&safe_infra_env_keys()),
        };
        let deny_patterns = match spec.env_deny {
            Some(list) => list,
            None => no_texts(),
        };
        let env_passthrough = keep_unmatched(&env_names, &deny_patterns);
        let env_deny = normalize_strings(&deny_patterns);
        let max_cpu = match spec.max_cpu {
            Some(count) => count,
            None => defaults.max_cpu,
        };
        let ram = text_or(&spec.max_ram, defaults.max_ram);
        let max_ram_bytes = match parse_human_size(ram.as_str()) {
            Ok(bytes) => bytes,
            Err(e) => return Err(e),
        };
        let disk = text_or(&spec.max_disk, defaults.max_disk);
        let max_disk_bytes = match parse_human_size(disk.as_str()) {
            Ok(bytes) => bytes,
            Err(e) => return Err(e),
        };
        let time = text_or(&spec.timeout, defaults.timeout);
        let timeout = match parse_human_duration(time.as_str()) {
            Ok(duration) => duration,
            Err(e) => return Err(e),
        };
        let policy = ResolvedPolicy {
            working_dir: working_dir.to_string(),
            level,
            allow_net,
            network_deny_all_other,
            filesystem_writable,
            filesystem_readonly,
            filesystem_deny,
            env_passthrough,
            env_deny,
            max_cpu,
            max_ram_bytes,
            max_disk_bytes,
            timeout,
        };
        match policy.validate(os) {
            Ok(()) => Ok(policy),
            Err(e) => Err(e),
        }
    }

    /// Checks the policy against the rules.
    pub fn validate(&self, os: HostOs) -> (r: Result<(), PolicyError>)
        ensures
            match broken_rule(os, self@) {
                Some(rule) => r matches Err(e) && e@ == PolicyFault::InvalidPolicyConfiguration(
                    rule,
                ),
                None => r == Ok::<(), PolicyError>(()),
            },
    {
        if self.max_cpu == 0 {
            return Err(
                PolicyError::InvalidPolicyConfiguration(
                    "max_cpu must be greater than zero".to_string(),
                ),
            );
        }
        if self.max_ram_bytes == 0 {
            return Err(
                PolicyError::InvalidPolicyConfiguration(
                    "max_ram must be greater than zero".to_string(),
                ),
            );
        }
        if self.max_disk_bytes == 0 {
            return Err(
                PolicyError::InvalidPolicyConfiguration(
                    "max_disk must be greater than zero".to_string(),
                ),
            );
        }
        if self.timeout.is_zero() {
            return Err(
                PolicyError::InvalidPolicyConfiguration(
                    "timeout must be greater than zero".to_string(),
                ),
            );
        }
        assert(texts(self.allow_net@).len() == self.allow_net.len());
        if !self.network_deny_all_other && self.allow_net.len() == 0 {
            return Err(
                PolicyError::InvalidPolicyConfiguration(
                    "open network requires an explicit allow_net list".to_string(),
                ),
            );
        }
        match validate_path_conflicts(
            os,
            self.working_dir.as_str(),
            "filesystem writable",
            &self.filesystem_writable,
            "filesystem readonly",
            &self.filesystem_readonly,
        ) {
            Ok(()) => {},
            Err(e) => return Err(e),
        }
        match validate_path_conflicts(
            os,
            self.working_dir.as_str(),
            "filesystem writable",
            &self.filesystem_writable,
            "filesystem deny",
            &self.filesystem_deny,
        ) {
            Ok(()) => {},
            Err(e) => return Err(e),
        }
        validate_path_conflicts(
            os,
            self.working_dir.as_str(),
            "filesystem readonly",
            &self.filesystem_readonly,
            "filesystem deny",
            &self.filesystem_deny,
        )
    }
}

// ---------------------------------------------------------------------------
// The policy told to the user

/// A list in brackets.
pub open spec fn bracketed(list: Seq<Seq<char>>) -> Seq<char> {
    "["@ + joined(list, ", "@) + "]"@
}

/// `true` or `false`.
pub open spec fn bool_name(value: bool) -> Seq<char> {
    if value {
        "true"@
    } else {
        "false"@
    }
}

/// The lines that tell a policy.
pub open spec fn policy_summary(m: PolicyModel) -> Seq<Seq<char>> {
    seq![
        "level = "@ + level_name(m.level),
        "allow_net = "@ + bracketed(m.allow_net),
        "deny_all_other = "@ + bool_name(m.network_deny_all_other),
        "fs_writable = "@ + bracketed(m.filesystem_writable),
        "fs_readonly = "@ + bracketed(m.filesystem_readonly),
        "env_passthrough = "@ + bracketed(m.env_passthrough),
        "max_cpu = "@ + decimal(m.max_cpu as nat),
        "max_ram = "@ + formatted_bytes(m.max_ram_bytes as nat),
        "max_disk = "@ + formatted_bytes(m.max_disk_bytes as nat),
        "timeout = "@ + formatted_millis(m.timeout / 1_000_000),
    ]
}

/// A list of texts in brackets.
pub fn format_list(list: &Vec<String>) -> (out: String)
    ensures
        out@ == bracketed(texts(list@)),
{
    let mut out = concat("[", join(list, ", ").as_str());
    out.append("]");
    out
}

/// `true` or `false`.
pub fn bool_text(value: bool) -> (out: &'static str)
    ensures
        out@ == bool_name(value),
{
    if value {
        "true"
    } else {
        "false"
    }
}

impl ResolvedPolicy {
    /// The lines that tell the policy.
    pub fn summary_lines(&self) -> (out: Vec<String>)
        ensures
            texts(out@) == policy_summary(self@),
    {
        let out: Vec<String> = vec![
            concat("level = ", self.level.label()),
            concat("allow_net = ", format_list(&self.allow_net).as_str()),
            concat("deny_all_other = ", bool_text(self.network_deny_all_other)),
            concat("fs_writable = ", format_list(&self.filesystem_writable).as_str()),
            concat("fs_readonly = ", format_list(&self.filesystem_readonly).as_str()),
            concat("env_passthrough = ", format_list(&self.env_passthrough).as_str()),
            concat("max_cpu = ", decimal_text(self.max_cpu as u128).as_str()),
            concat("max_ram = ", format_bytes(self.max_ram_bytes).as_str()),
            concat("max_disk = ", format_bytes(self.max_disk_bytes).as_str()),
            concat("timeout = ", format_duration(self.timeout).as_str()),
        ];
        assert(texts(out@) =~= policy_summary(self@));
        out
    }
}

// ---------------------------------------------------------------------------
// The environment

/// The contents of a list of pairs of strings.
pub open spec fn pair_texts(v: Seq<(String, String)>) -> Seq<(Seq<char>, Seq<char>)> {
    Seq::new(v.len(), |i: int| (v[i].0@, v[i].1@))
}

/// The policy lets the variable of that name through: a passthrough pattern matches
/// it and no deny pattern does.
pub open spec fn passes_env(m: PolicyModel, name: Seq<char>) -> bool {
    any_pattern_matches(m.env_passthrough, name) && !any_pattern_matches(m.env_deny, name)
}

/// The variables that the policy lets through.
pub open spec fn passed_env(m: PolicyModel, vars: Seq<(Seq<char>, Seq<char>)>) -> Seq<
    (Seq<char>, Seq<char>),
> {
    vars.filter(|var: (Seq<char>, Seq<char>)| passes_env(m, var.0))
}

proof fn lemma_pair_texts_push(v: Seq<(String, String)>, p: (String, String))
    ensures
        pair_texts(v.push(p)) == pair_texts(v).push((p.0@, p.1@)),
{
    assert(pair_texts(v.push(p)) =~= pair_texts(v).push((p.0@, p.1@)));
}

impl ResolvedPolicy {
    /// Of the variables `vars`, those that the policy lets through, in order.
    pub fn filtered_env_pairs(&self, vars: &Vec<(String, String)>) -> (out: Vec<(String, String)>)
        ensures
            pair_texts(out@) == passed_env(self@, pair_texts(vars@)),
    {
        let mut out: Vec<(String, String)> = Vec::new();
        let ghost all = pair_texts(vars@);
        let ghost keep = |var: (Seq<char>, Seq<char>)| passes_env(self@, var.0);
        assert(all.take(0).filter(keep) =~= Seq::<(Seq<char>, Seq<char>)>::empty()) by {
            reveal(Seq::filter);
        }
        assert(pair_texts(out@) =~= all.take(0).filter(keep));
        for i in 0..vars.len()
            invariant
                all == pair_texts(vars@),
                keep == (|var: (Seq<char>, Seq<char>)| passes_env(self@, var.0)),
                pair_texts(out@) == all.take(i as int).filter(keep),
        {
            proof {
                reveal(Seq::filter);
            }
            assert(all.take(i + 1).drop_last() =~= all.take(i as int));
            assert(all.take(i + 1).last() == all[i as int]);
            let name = &vars[i].0;
            let value = &vars[i].1;
            if matches_glob_any(name.as_str(), &self.env_passthrough) && !matches_glob_any(
                name.as_str(),
                &self.env_deny,
            ) {
                let pair = (name.clone(), value.clone());
                proof {
                    lemma_pair_texts_push(out@, pair);
                }
                out.push(pair);
            }
        }
        assert(all.take(all.len() as int) =~= all);
        out
    }
}

} // verus!
