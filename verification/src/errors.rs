//! What can go wrong, and how it is told to the user.
use crate::text::concat;
use vstd::prelude::*;

verus! {

broadcast use vstd::seq::group_seq_axioms;

/// Errors of the policy compiler.
#[derive(Debug)]
pub enum PolicyError {
    InvalidIsolationLevel(String),
    InvalidPreset(String),
    InvalidSize(String),
    InvalidDuration(String),
    InvalidFilesystemAllowSpec(String),
    InvalidPolicyConfiguration(String),
    ConfigRead { path: String, source: String },
    ConfigParse(String),
}

/// The contents of a `PolicyError`.
pub enum PolicyFault {
    InvalidIsolationLevel(Seq<char>),
    InvalidPreset(Seq<char>),
    InvalidSize(Seq<char>),
    InvalidDuration(Seq<char>),
    InvalidFilesystemAllowSpec(Seq<char>),
    InvalidPolicyConfiguration(Seq<char>),
    ConfigRead { path: Seq<char>, source: Seq<char> },
    ConfigParse(Seq<char>),
}

impl View for PolicyError {
    type V = PolicyFault;

    open spec fn view(&self) -> PolicyFault {
        match *self {
            PolicyError::InvalidIsolationLevel(s) => PolicyFault::InvalidIsolationLevel(s@),
            PolicyError::InvalidPreset(s) => PolicyFault::InvalidPreset(s@),
            PolicyError::InvalidSize(s) => PolicyFault::InvalidSize(s@),
            PolicyError::InvalidDuration(s) => PolicyFault::InvalidDuration(s@),
            PolicyError::InvalidFilesystemAllowSpec(s) => PolicyFault::InvalidFilesystemAllowSpec(
                s@,
            ),
            PolicyError::InvalidPolicyConfiguration(s) => PolicyFault::InvalidPolicyConfiguration(
                s@,
            ),
            PolicyError::ConfigRead { path, source } => PolicyFault::ConfigRead {
                path: path@,
                source: source@,
            },
            PolicyError::ConfigParse(s) => PolicyFault::ConfigParse(s@),
        }
    }
}

/// The message that tells a policy error.
pub open spec fn policy_message(fault: PolicyFault) -> Seq<char> {
    match fault {
        PolicyFault::InvalidIsolationLevel(s) => "invalid isolation level: "@ + s,
        PolicyFault::InvalidPreset(s) => "invalid preset: "@ + s,
        PolicyFault::InvalidSize(s) => "invalid human-readable size: "@ + s,
        PolicyFault::InvalidDuration(s) => "invalid human-readable duration: "@ + s,
        PolicyFault::InvalidFilesystemAllowSpec(s) => "invalid filesystem allow spec: "@ + s,
        PolicyFault::InvalidPolicyConfiguration(s) => "invalid policy configuration: "@ + s,
        PolicyFault::ConfigRead { path, source } => "failed to read config file "@ + path + ": "@
            + source,
        PolicyFault::ConfigParse(s) => "failed to parse config file: "@ + s,
    }
}

impl PolicyError {
    /// The message for the user.
    pub fn message(&self) -> (out: String)
        ensures
            out@ == policy_message(self@),
    {
        match self {
            PolicyError::InvalidIsolationLevel(s) => concat("invalid isolation level: ", s.as_str()),
            PolicyError::InvalidPreset(s) => concat("invalid preset: ", s.as_str()),
            PolicyError::InvalidSize(s) => concat("invalid human-readable size: ", s.as_str()),
            PolicyError::InvalidDuration(s) => concat(
                "invalid human-readable duration: ",
                s.as_str(),
            ),
            PolicyError::InvalidFilesystemAllowSpec(s) => concat(
                "invalid filesystem allow spec: ",
                s.as_str(),
            ),
            PolicyError::InvalidPolicyConfiguration(s) => concat(
                "invalid policy configuration: ",
                s.as_str(),
            ),
            PolicyError::ConfigRead { path, source } => {
                let mut out = concat("failed to read config file ", path.as_str());
                out.append(": ");
                out.append(source.as_str());
                out
            },
            PolicyError::ConfigParse(s) => concat("failed to parse config file: ", s.as_str()),
        }
    }
}

/// Errors of running a command in the sandbox.
#[derive(Debug)]
pub enum SandboxError {
    EmptyCommand,
    LaunchFailed(String),
    BackendUnavailable(String),
    Policy(String),
    Io(String),
    TimedOut,
}

/// The contents of a `SandboxError`.
pub enum SandboxFault {
    EmptyCommand,
    LaunchFailed(Seq<char>),
    BackendUnavailable(Seq<char>),
    Policy(Seq<char>),
    Io(Seq<char>),
    TimedOut,
}

impl View for SandboxError {
    type V = SandboxFault;

    open spec fn view(&self) -> SandboxFault {
        match *self {
            SandboxError::EmptyCommand => SandboxFault::EmptyCommand,
            SandboxError::LaunchFailed(s) => SandboxFault::LaunchFailed(s@),
            SandboxError::BackendUnavailable(s) => SandboxFault::BackendUnavailable(s@),
            SandboxError::Policy(s) => SandboxFault::Policy(s@),
            SandboxError::Io(s) => SandboxFault::Io(s@),
            SandboxError::TimedOut => SandboxFault::TimedOut,
        }
    }
}

/// The message that tells a sandbox error.
pub open spec fn sandbox_message(fault: SandboxFault) -> Seq<char> {
    match fault {
        SandboxFault::EmptyCommand => "empty command"@,
        SandboxFault::LaunchFailed(s) => "launch failed: "@ + s,
        SandboxFault::BackendUnavailable(s) => "backend unavailable: "@ + s,
        SandboxFault::Policy(s) => "policy error: "@ + s,
        SandboxFault::Io(s) => "io error: "@ + s,
        SandboxFault::TimedOut => "timed out"@,
    }
}

impl SandboxError {
    /// The message for the user.
    pub fn message(&self) -> (out: String)
        ensures
            out@ == sandbox_message(self@),
    {
        match self {
            SandboxError::EmptyCommand => "empty command".to_string(),
            SandboxError::LaunchFailed(s) => concat("launch failed: ", s.as_str()),
            SandboxError::BackendUnavailable(s) => concat("backend unavailable: ", s.as_str()),
            SandboxError::Policy(s) => concat("policy error: ", s.as_str()),
            SandboxError::Io(s) => concat("io error: ", s.as_str()),
            SandboxError::TimedOut => "timed out".to_string(),
        }
    }
}

} // verus!
