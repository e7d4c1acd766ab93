//! Diagnoses: whether a policy holds, and what the machine is ready for.
use crate::backend::{
    compat_promise, default_backend, secure_promise, BackendCapabilities, CapabilityModel, SandboxBackend,
};
use crate::errors::{sandbox_message, SandboxError};
use crate::launch::HostOs;
use crate::lists::{append_list, copy_list, push_line};
use crate::policy::policy_summary;
use crate::runner::RunContext;
use crate::text::{
    concat, is_empty, join, joined, opt_text, opt_texts, texts, trim, trimmed,
};
use vstd::prelude::*;

verus! {

broadcast use vstd::seq::group_seq_axioms;

/// `yes` or `no`.
pub open spec fn yes_no(value: bool) -> Seq<char> {
    if value {
        "yes"@
    } else {
        "no"@
    }
}

/// `yes` or `no`.
pub fn availability_flag(value: bool) -> (out: &'static str)
    ensures
        out@ == yes_no(value),
{
    if value {
        "yes"
    } else {
        "no"
    }
}

/// Entries as items of a list.
pub open spec fn bulleted(list: Seq<Seq<char>>) -> Seq<Seq<char>> {
    list.map_values(|entry: Seq<char>| "  - "@ + entry)
}

fn bullet_list(list: &Vec<String>) -> (out: Vec<String>)
    ensures
        texts(out@) == bulleted(texts(list@)),
{
    let mut out: Vec<String> = Vec::new();
    for i in 0..list.len()
        invariant
            out.len() == i,
            forall|j: int| 0 <= j < i ==> out@[j]@ == "  - "@ + #[trigger] list@[j]@,
    {
        out.push(concat("  - ", list[i].as_str()));
    }
    assert(texts(out@) =~= bulleted(texts(list@)));
    out
}

/// A heading over a list; nothing where the list is empty.
pub open spec fn noted(list: Seq<Seq<char>>) -> Seq<Seq<char>> {
    if list.len() == 0 {
        Seq::<Seq<char>>::empty()
    } else {
        seq!["notes:"@] + bulleted(list)
    }
}

fn push_notes(lines: Vec<String>, notes: &Vec<String>) -> (out: Vec<String>)
    ensures
        texts(out@) == texts(lines@) + noted(texts(notes@)),
{
    assert(texts(notes@).len() == notes.len());
    if notes.len() == 0 {
        assert(texts(lines@) + noted(texts(notes@)) =~= texts(lines@));
        return lines;
    }
    let headed = push_line(lines, "notes:".to_string());
    let out = append_list(headed, &bullet_list(notes));
    assert(texts(out@) =~= texts(lines@) + noted(texts(notes@)));
    out
}

// ---------------------------------------------------------------------------
// Validation

/// Whether a policy holds, and what it says.
#[derive(Debug, Clone)]
pub struct ValidationReport {
    pub tool: String,
    pub backend: String,
    pub secure_enforcement: bool,
    pub valid: bool,
    pub policy_summary: Option<Vec<String>>,
    pub policy_error: Option<String>,
    pub notes: Vec<String>,
}

/// The contents of a `ValidationReport`.
pub struct ValidationModel {
    pub tool: Seq<char>,
    pub backend: Seq<char>,
    pub secure_enforcement: bool,
    pub valid: bool,
    pub policy_summary: Option<Seq<Seq<char>>>,
    pub policy_error: Option<Seq<char>>,
    pub notes: Seq<Seq<char>>,
}

impl View for ValidationReport {
    type V = ValidationModel;

    open spec fn view(&self) -> ValidationModel {
        ValidationModel {
            tool: self.tool@,
            backend: self.backend@,
            secure_enforcement: self.secure_enforcement,
            valid: self.valid,
            policy_summary: opt_texts(self.policy_summary),
            policy_error: opt_text(self.policy_error),
            notes: texts(self.notes@),
        }
    }
}

/// What a policy that was resolved, or was not, is reported as.
pub open spec fn validation(
    tool: Seq<char>,
    capabilities: CapabilityModel,
    outcome: Result<RunContext, SandboxError>,
) -> ValidationModel {
    ValidationModel {
        tool,
        backend: capabilities.name,
        secure_enforcement: capabilities.secure_enforcement,
        valid: outcome is Ok,
        policy_summary: match outcome {
            Ok(context) => Some(policy_summary(context.policy@)),
            Err(_) => None,
        },
        policy_error: match outcome {
            Ok(_) => None,
            Err(e) => Some(sandbox_message(e@)),
        },
        notes: capabilities.notes,
    }
}

/// The report on a policy.
pub fn validate(
    tool: &str,
    capabilities: &BackendCapabilities,
    outcome: &Result<RunContext, SandboxError>,
) -> (report: ValidationReport)
    ensures
        report@ == validation(tool@, capabilities@, *outcome),
{
    ValidationReport {
        tool: tool.to_string(),
        backend: capabilities.name.to_string(),
        secure_enforcement: capabilities.secure_enforcement,
        valid: match outcome {
            Ok(_) => true,
            Err(_) => false,
        },
        policy_summary: match outcome {
            Ok(context) => Some(context.policy.summary_lines()),
            Err(_) => None,
        },
        policy_error: match outcome {
            Ok(_) => None,
            Err(e) => Some(e.message()),
        },
        notes: copy_list(&capabilities.notes),
    }
}

/// The lines that tell a validation: an error, or else the policy.
pub open spec fn validation_lines(m: ValidationModel) -> Seq<Seq<char>> {
    seq![
        "MicroBox validate"@,
        "backend = "@ + m.backend,
        "secure_enforcement = "@ + yes_no(m.secure_enforcement),
        "valid = "@ + yes_no(m.valid),
    ] + match (m.policy_error, m.policy_summary) {
        (Some(error), _) => seq!["policy_error = "@ + error],
        (None, Some(summary)) => summary,
        (None, None) => Seq::<Seq<char>>::empty(),
    } + noted(m.notes)
}

/// A validation as text.
pub fn render_validation(report: &ValidationReport) -> (out: String)
    ensures
        out@ == joined(validation_lines(report@), "\n"@),
{
    let head: Vec<String> = vec![
        "MicroBox validate".to_string(),
        concat("backend = ", report.backend.as_str()),
        concat("secure_enforcement = ", availability_flag(report.secure_enforcement)),
        concat("valid = ", availability_flag(report.valid)),
    ];
    let ghost first = seq![
        "MicroBox validate"@,
        "backend = "@ + report.backend@,
        "secure_enforcement = "@ + yes_no(report.secure_enforcement),
        "valid = "@ + yes_no(report.valid),
    ];
    assert(texts(head@) =~= first);
    let body = if let Some(error) = &report.policy_error {
        let out = push_line(head, concat("policy_error = ", error.as_str()));
        assert(texts(out@) =~= first + seq!["policy_error = "@ + error@]);
        out
    } else if let Some(summary) = &report.policy_summary {
        append_list(head, summary)
    } else {
        assert(first + Seq::<Seq<char>>::empty() =~= first);
        head
    };
    let lines = push_notes(body, &report.notes);
    assert(texts(lines@) =~= validation_lines(report@));
    join(&lines, "\n")
}

/// The exit code of a validation.
pub fn validation_exit_code(report: &ValidationReport) -> (code: i32)
    ensures
        code == if report.valid {
            0i32
        } else {
            1
        },
{
    if report.valid {
        0
    } else {
        1
    }
}

// ---------------------------------------------------------------------------
// Readiness

/// What was found out about the machine.
#[derive(Debug)]
pub struct MachineFacts {
    /// The names of the operating system and the processor.
    pub os_name: String,
    pub arch_name: String,
    pub os: HostOs,
    /// Whether the kernel has what the secure backend needs.
    pub kernel_features: bool,
    pub config_exists: bool,
    /// Whether the programs are there.
    pub docker: bool,
    pub podman: bool,
    pub bwrap: bool,
    pub firejail: bool,
    pub python: bool,
    /// Whether the container runtimes answer.
    pub docker_answers: bool,
    pub podman_answers: bool,
    /// The variables `E2B_API_KEY` and `E2B_DOMAIN`.
    pub e2b_api_key: Option<String>,
    pub e2b_domain: Option<String>,
}

/// A variable that has more than white space in it.
pub open spec fn is_given(value: Option<Seq<char>>) -> bool {
    value matches Some(text) && trimmed(text).len() > 0
}

/// Whether a variable has more than white space in it.
pub fn given(value: &Option<String>) -> (r: bool)
    ensures
        r == is_given(opt_text(*value)),
{
    match value {
        Some(text) => !is_empty(trim(text.as_str()).as_str()),
        None => false,
    }
}

/// A hosted sandbox can be reached: there is a key and an interpreter to use it.
pub open spec fn e2b_usable(facts: MachineFacts) -> bool {
    is_given(opt_text(facts.e2b_api_key)) && facts.python
}

/// How a hosted sandbox would be reached.
pub open spec fn e2b_mode_name(facts: MachineFacts) -> Seq<char> {
    if is_given(opt_text(facts.e2b_domain)) {
        "self-hosted"@
    } else if e2b_usable(facts) {
        "hosted"@
    } else {
        "unavailable"@
    }
}

/// Whether a hosted sandbox can be reached.
pub fn e2b_available(facts: &MachineFacts) -> (r: bool)
    ensures
        r == e2b_usable(*facts),
{
    given(&facts.e2b_api_key) && facts.python
}

/// How a hosted sandbox would be reached.
pub fn e2b_mode(facts: &MachineFacts) -> (out: &'static str)
    ensures
        out@ == e2b_mode_name(*facts),
{
    if given(&facts.e2b_domain) {
        "self-hosted"
    } else if e2b_available(facts) {
        "hosted"
    } else {
        "unavailable"
    }
}

/// Whether a container runtime can be used: it is there and it answers.
pub fn container_runtime_ready(present: bool, answers: bool) -> (r: bool)
    ensures
        r == (present && answers),
{
    present && answers
}

/// Which other sandboxes there are.
pub open spec fn peer_line(facts: MachineFacts) -> Seq<char> {
    let linux = facts.os == HostOs::Linux;
    "peer_targets = docker:"@ + yes_no(facts.docker && facts.docker_answers) + ", podman:"@
        + yes_no(facts.podman && facts.podman_answers) + ", bwrap:"@ + yes_no(
        linux && facts.bwrap,
    ) + ", firejail:"@ + yes_no(linux && facts.firejail) + ", e2b:"@ + yes_no(e2b_usable(facts))
}

/// The first lines of the readiness report.
pub open spec fn readiness_head(facts: MachineFacts, m: CapabilityModel, resolved: bool) -> Seq<
    Seq<char>,
> {
    seq![
        "MicroBox doctor"@,
        "platform = "@ + facts.os_name@ + "-"@ + facts.arch_name@,
        "backend = "@ + m.name,
        "production_ready = "@ + yes_no(
            m.secure_enforcement && facts.os == HostOs::Linux && facts.kernel_features,
        ),
        "secure_enforcement = "@ + yes_no(m.secure_enforcement),
        "config_found = "@ + yes_no(facts.config_exists),
        "policy_resolved = "@ + yes_no(resolved),
        "features = cli, validate, bench, benchmark reports, peer sandbox comparisons, policy compiler, preset resolution, config discovery, cross-platform compat backend, Linux outbound allowlists"@,
    ]
}

/// The lines of the readiness report about the default policy.
pub open spec fn readiness_policy(outcome: Result<RunContext, SandboxError>) -> Seq<Seq<char>> {
    match outcome {
        Err(e) => seq!["policy_error = "@ + sandbox_message(e@)],
        Ok(context) => seq!["policy_summary:"@] + bulleted(policy_summary(context.policy@)),
    }
}

/// What is told of the support for Linux.
pub open spec fn linux_line(os: HostOs) -> Seq<char> {
    if os == HostOs::Linux {
        "linux_support = secure backend with namespaces, Landlock, seccomp, and cgroup best-effort"@
    } else {
        "linux_support = build on Linux for full sandbox enforcement"@
    }
}

/// What the backend that the machine has by default promises.
pub open spec fn default_promise(os: HostOs) -> CapabilityModel {
    if os == HostOs::Linux {
        secure_promise()
    } else {
        compat_promise()
    }
}

/// The lines of the readiness report.
pub open spec fn readiness_lines(
    facts: MachineFacts,
    outcome: Result<RunContext, SandboxError>,
) -> Seq<Seq<char>> {
    let m = default_promise(facts.os);
    readiness_head(facts, m, outcome is Ok) + readiness_policy(outcome) + seq![
        peer_line(facts),
        "e2b_mode = "@ + e2b_mode_name(facts),
    ] + noted(m.notes) + seq![linux_line(facts.os)]
}

fn on_linux(os: HostOs) -> (r: bool)
    ensures
        r == (os == HostOs::Linux),
{
    match os {
        HostOs::Linux => true,
        _ => false,
    }
}

fn render_head(facts: &MachineFacts, capabilities: &BackendCapabilities, resolved: bool) -> (out:
    Vec<String>)
    ensures
        texts(out@) == readiness_head(*facts, capabilities@, resolved),
{
    let mut platform = concat("platform = ", facts.os_name.as_str());
    platform.append("-");
    platform.append(facts.arch_name.as_str());
    let ready = capabilities.secure_enforcement && on_linux(facts.os) && facts.kernel_features;
    let out: Vec<String> = vec![
        "MicroBox doctor".to_string(),
        platform,
        concat("backend = ", capabilities.name),
        concat("production_ready = ", availability_flag(ready)),
        concat("secure_enforcement = ", availability_flag(capabilities.secure_enforcement)),
        concat("config_found = ", availability_flag(facts.config_exists)),
        concat("policy_resolved = ", availability_flag(resolved)),
        "features = cli, validate, bench, benchmark reports, peer sandbox comparisons, policy compiler, preset resolution, config discovery, cross-platform compat backend, Linux outbound allowlists".to_string(),
    ];
    assert(texts(out@) =~= readiness_head(*facts, capabilities@, resolved));
    out
}

fn render_peers(facts: &MachineFacts) -> (out: String)
    ensures
        out@ == peer_line(*facts),
{
    let linux = on_linux(facts.os);
    let mut out = concat(
        "peer_targets = docker:",
        availability_flag(container_runtime_ready(facts.docker, facts.docker_answers)),
    );
    out.append(", podman:");
    out.append(availability_flag(container_runtime_ready(facts.podman, facts.podman_answers)));
    out.append(", bwrap:");
    out.append(availability_flag(linux && facts.bwrap));
    out.append(", firejail:");
    out.append(availability_flag(linux && facts.firejail));
    out.append(", e2b:");
    out.append(availability_flag(e2b_available(facts)));
    out
}

fn render_policy(outcome: &Result<RunContext, SandboxError>) -> (out: Vec<String>)
    ensures
        texts(out@) == readiness_policy(*outcome),
{
    match outcome {
        Err(e) => {
            let out: Vec<String> = vec![concat("policy_error = ", e.message().as_str())];
            assert(texts(out@) =~= readiness_policy(*outcome));
            out
        },
        Ok(context) => {
            let head: Vec<String> = vec!["policy_summary:".to_string()];
            assert(texts(head@) =~= seq!["policy_summary:"@]);
            append_list(head, &bullet_list(&context.policy.summary_lines()))
        },
    }
}

/// What the machine is ready for.
#[derive(Debug, Clone)]
pub struct DoctorReport {
    pub lines: Vec<String>,
}

/// The report on what the machine is ready for; `outcome` is what the policy without any
/// arguments came to.
pub fn diagnose(facts: &MachineFacts, outcome: &Result<RunContext, SandboxError>) -> (report:
    DoctorReport)
    ensures
        texts(report.lines@) == readiness_lines(*facts, *outcome),
{
    let backend = default_backend(facts.os);
    let capabilities = backend.capabilities();
    let resolved = match outcome {
        Ok(_) => true,
        Err(_) => false,
    };
    let head = render_head(facts, &capabilities, resolved);
    let lines = append_list(head, &render_policy(outcome));
    let lines = push_line(lines, render_peers(facts));
    let lines = push_line(lines, concat("e2b_mode = ", e2b_mode(facts)));
    let lines = push_notes(lines, &capabilities.notes);
    let support = match facts.os {
        HostOs::Linux => "linux_support = secure backend with namespaces, Landlock, seccomp, and cgroup best-effort",
        _ => "linux_support = build on Linux for full sandbox enforcement",
    };
    let lines = push_line(lines, support.to_string());
    assert(texts(lines@) =~= readiness_lines(*facts, *outcome));
    DoctorReport { lines }
}

/// The report on what the machine is ready for, as text.
pub fn render(facts: &MachineFacts, outcome: &Result<RunContext, SandboxError>) -> (out: String)
    ensures
        out@ == joined(readiness_lines(*facts, *outcome), "\n"@),
{
    let report = diagnose(facts, outcome);
    join(&report.lines, "\n")
}

} // verus!
