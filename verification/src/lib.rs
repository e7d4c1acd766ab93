//! A policy-first sandbox runtime: the policy compiler, the command planner,
//! the kernel filter builder and the benchmark reporter, each with its contract.
pub mod args;
pub mod backend;
pub mod backend_laws;
pub mod command;
pub mod config_laws;
pub mod diagnose;
pub mod duration;
pub mod errors;
pub mod glob;
pub mod grant_laws;
pub mod grants;
pub mod hardening;
pub mod hardening_laws;
pub mod landlock;
pub mod launch;
pub mod launch_laws;
pub mod layers;
pub mod levels;
pub mod lists;
pub mod network;
pub mod network_laws;
pub mod number;
pub mod outcome_laws;
pub mod path_laws;
pub mod paths;
pub mod peer_laws;
pub mod peers;
pub mod policy;
pub mod policy_laws;
pub mod render;
pub mod render_laws;
pub mod report;
pub mod report_laws;
pub mod request;
pub mod run_laws;
pub mod runner;
pub mod sampling;
pub mod sampling_laws;
pub mod scenario;
pub mod seccomp;
pub mod seccomp_laws;
pub mod text;
pub mod text_laws;
pub mod units;
pub mod volume_laws;
pub mod wording_laws;
pub mod workspace;
pub mod workspace_laws;
