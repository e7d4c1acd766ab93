//! Isolation levels and presets, and the names they go by.
use crate::errors::{PolicyError, PolicyFault};
use crate::text::{
    is_space, lemma_lowered_fixed, lemma_trimmed_fixed, lowercase, lowered, same_text, trim, trimmed,
};
use vstd::prelude::*;

verus! {

broadcast use vstd::seq::group_seq_axioms;

/// How strictly a command is confined by default.
#[derive(Debug, Clone, Copy, PartialEq, Eq, Structural)]
pub enum IsolationLevel {
    Fast,
    Safe,
    Paranoid,
}

impl Default for IsolationLevel {
    fn default() -> (level: Self)
        ensures
            level == IsolationLevel::Safe,
    {
        IsolationLevel::Safe
    }
}

/// A policy that comes with the sandbox.
#[derive(Debug, Clone, Copy, PartialEq, Eq, Structural)]
pub enum PresetKind {
    AiAgent,
    WebServer,
    Hermetic,
}

/// A name as the user may write it: without surrounding white space, in lower case.
pub open spec fn plain_name(input: Seq<char>) -> Seq<char> {
    lowered(trimmed(input))
}

/// The name of a level.
pub open spec fn level_name(level: IsolationLevel) -> Seq<char> {
    match level {
        IsolationLevel::Fast => "fast"@,
        IsolationLevel::Safe => "safe"@,
        IsolationLevel::Paranoid => "paranoid"@,
    }
}

/// The level that a name stands for.
pub open spec fn named_level(input: Seq<char>) -> Option<IsolationLevel> {
    let name = plain_name(input);
    if name == "fast"@ {
        Some(IsolationLevel::Fast)
    } else if name == "safe"@ {
        Some(IsolationLevel::Safe)
    } else if name == "paranoid"@ {
        Some(IsolationLevel::Paranoid)
    } else {
        None
    }
}

/// The name of a preset.
pub open spec fn preset_name(preset: PresetKind) -> Seq<char> {
    match preset {
        PresetKind::AiAgent => "ai-agent"@,
        PresetKind::WebServer => "web-server"@,
        PresetKind::Hermetic => "hermetic"@,
    }
}

/// The preset that a name or one of its short forms stands for.
pub open spec fn named_preset(input: Seq<char>) -> Option<PresetKind> {
    let name = plain_name(input);
    if name == "ai-agent"@ || name == "aiagent"@ || name == "agent"@ {
        Some(PresetKind::AiAgent)
    } else if name == "web-server"@ || name == "webserver"@ || name == "web"@ {
        Some(PresetKind::WebServer)
    } else if name == "hermetic"@ {
        Some(PresetKind::Hermetic)
    } else {
        None
    }
}

proof fn lemma_plain(name: Seq<char>)
    requires
        name.len() > 0,
        forall|i: int| 0 <= i < name.len() ==> ('a' <= #[trigger] name[i] <= 'z' || name[i] == '-'),
    ensures
        plain_name(name) == name,
{
    assert(!is_space(name[0]) && !is_space(name[name.len() - 1]));
    lemma_trimmed_fixed(name);
    lemma_lowered_fixed(name);
}

/// Reading the name of a level gives the level back.
pub proof fn lemma_level_roundtrip(level: IsolationLevel)
    ensures
        named_level(level_name(level)) == Some(level),
{
    reveal_strlit("fast");
    reveal_strlit("safe");
    reveal_strlit("paranoid");
    lemma_plain(level_name(level));
    assert("fast"@[0] == 'f' && "safe"@[0] == 's' && "paranoid"@[0] == 'p');
}

/// Reading the name of a preset gives the preset back.
pub proof fn lemma_preset_roundtrip(preset: PresetKind)
    ensures
        named_preset(preset_name(preset)) == Some(preset),
{
    reveal_strlit("ai-agent");
    reveal_strlit("aiagent");
    reveal_strlit("agent");
    reveal_strlit("web-server");
    reveal_strlit("webserver");
    reveal_strlit("web");
    reveal_strlit("hermetic");
    lemma_plain(preset_name(preset));
    assert("ai-agent"@[0] == 'a' && "aiagent"@[0] == 'a' && "agent"@[0] == 'a');
    assert("web-server"@[0] == 'w' && "webserver"@[0] == 'w' && "web"@[0] == 'w');
    assert("hermetic"@[0] == 'h');
}

impl IsolationLevel {
    /// The name of the level.
    pub fn label(&self) -> (out: &'static str)
        ensures
            out@ == level_name(*self),
    {
        match self {
            IsolationLevel::Fast => "fast",
            IsolationLevel::Safe => "safe",
            IsolationLevel::Paranoid => "paranoid",
        }
    }

    /// The level of that name.
    pub fn from_str(input: &str) -> (r: Result<IsolationLevel, PolicyError>)
        ensures
            match named_level(input@) {
                Some(level) => r == Ok::<IsolationLevel, PolicyError>(level),
                None => r matches Err(e) && e@ == PolicyFault::InvalidIsolationLevel(
                    plain_name(input@),
                ),
            },
    {
        let bare = trim(input);
        let name = lowercase(bare.as_str());
        if same_text(name.as_str(), "fast") {
            Ok(IsolationLevel::Fast)
        } else if same_text(name.as_str(), "safe") {
            Ok(IsolationLevel::Safe)
        } else if same_text(name.as_str(), "paranoid") {
            Ok(IsolationLevel::Paranoid)
        } else {
            Err(PolicyError::InvalidIsolationLevel(name))
        }
    }
}

impl PresetKind {
    /// The name of the preset.
    pub fn label(&self) -> (out: &'static str)
        ensures
            out@ == preset_name(*self),
    {
        match self {
            PresetKind::AiAgent => "ai-agent",
            PresetKind::WebServer => "web-server",
            PresetKind::Hermetic => "hermetic",
        }
    }

    /// The preset of that name.
    pub fn from_str(input: &str) -> (r: Result<PresetKind, PolicyError>)
        ensures
            match named_preset(input@) {
                Some(preset) => r == Ok::<PresetKind, PolicyError>(preset),
                None => r matches Err(e) && e@ == PolicyFault::InvalidPreset(plain_name(input@)),
            },
    {
        let bare = trim(input);
        let name = lowercase(bare.as_str());
        if same_text(name.as_str(), "ai-agent") || same_text(name.as_str(), "aiagent")
            || same_text(name.as_str(), "agent") {
            Ok(PresetKind::AiAgent)
        } else if same_text(name.as_str(), "web-server") || same_text(name.as_str(), "webserver")
            || same_text(name.as_str(), "web") {
            Ok(PresetKind::WebServer)
        } else if same_text(name.as_str(), "hermetic") {
            Ok(PresetKind::Hermetic)
        } else {
            Err(PolicyError::InvalidPreset(name))
        }
    }
}

} // verus!
