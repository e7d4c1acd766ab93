//! What holds of every resolved policy.
use crate::errors::PolicyFault;
use crate::glob::{any_pattern_matches, lemma_star_matches_all, pattern_matches};
use crate::launch::HostOs;
use crate::layers::{
    config_layer, empty_layer, merged_layer, merged_list, preset_layer, ConfigFile, PolicyLayer,
};
use crate::levels::{IsolationLevel, PresetKind};
use crate::lists::{
    absorbed, distinct, holds, lemma_absorbed_concat, lemma_absorbed_holds, same_item, Sameness,
};
use crate::number::{decimal, digits_value};
use crate::paths::{joined_path, same_path};
use crate::policy::{
    conflicts, infra_env_keys, normal_texts, passes_env, placed, resolved_layer, stacked_layers,
    trimmed_entries, PolicyModel,
};
use crate::text::{
    has_suffix, is_space, lemma_lowered_fixed, lemma_trimmed_fixed, strip_back, strip_front, trimmed,
};
use crate::units::{
    formatted_bytes, formatted_millis, lemma_duration_roundtrip, lemma_size_roundtrip, parsed_millis,
    parsed_size,
};
use vstd::prelude::*;

verus! {

broadcast use vstd::seq::group_seq_axioms;

proof fn lemma_filter_empty(s: Seq<Seq<char>>, p: spec_fn(Seq<char>) -> bool, i: int)
    requires
        s.filter(p).len() == 0,
        0 <= i < s.len(),
    ensures
        !p(s[i]),
    decreases s.len(),
{
    reveal(Seq::filter);
    if i < s.len() - 1 {
        lemma_filter_empty(s.drop_last(), p, i);
    }
}

proof fn lemma_no_conflict(
    os: HostOs,
    working_dir: Seq<char>,
    left: Seq<Seq<char>>,
    right: Seq<Seq<char>>,
    i: int,
    j: int,
)
    requires
        conflicts(os, working_dir, left, right).len() == 0,
        0 <= i < left.len(),
        0 <= j < right.len(),
    ensures
        !same_path(os, joined_path(os, working_dir, left[i]), joined_path(os, working_dir, right[j])),
{
    let clash = |path: Seq<char>| holds(Sameness::Path(os), placed(os, working_dir, right), path);
    lemma_filter_empty(placed(os, working_dir, left), clash, i);
    assert(!clash(placed(os, working_dir, left)[i]));
    assert(placed(os, working_dir, right)[j] == joined_path(os, working_dir, right[j]));
}

/// A policy that resolves breaks no rule: its limits are positive, its network is open
/// only towards a list of endpoints, and no path stands under two of the headings
/// writable, read-only and denied.
pub proof fn lemma_resolved_keeps_rules(
    os: HostOs,
    working_dir: Seq<char>,
    temp_dir: Seq<char>,
    layer: PolicyLayer,
    m: PolicyModel,
)
    requires
        resolved_layer(os, working_dir, temp_dir, layer) == Ok::<PolicyModel, PolicyFault>(m),
    ensures
        m.max_cpu > 0,
        m.max_ram_bytes > 0,
        m.max_disk_bytes > 0,
        m.timeout > 0,
        m.network_deny_all_other || m.allow_net.len() > 0,
        forall|i: int, j: int|
            0 <= i < m.filesystem_writable.len() && 0 <= j < m.filesystem_readonly.len()
                ==> !same_path(
                os,
                joined_path(os, working_dir, #[trigger] m.filesystem_writable[i]),
                joined_path(os, working_dir, #[trigger] m.filesystem_readonly[j]),
            ),
        forall|i: int, j: int|
            0 <= i < m.filesystem_writable.len() && 0 <= j < m.filesystem_deny.len()
                ==> !same_path(
                os,
                joined_path(os, working_dir, #[trigger] m.filesystem_writable[i]),
                joined_path(os, working_dir, #[trigger] m.filesystem_deny[j]),
            ),
        forall|i: int, j: int|
            0 <= i < m.filesystem_readonly.len() && 0 <= j < m.filesystem_deny.len()
                ==> !same_path(
                os,
                joined_path(os, working_dir, #[trigger] m.filesystem_readonly[i]),
                joined_path(os, working_dir, #[trigger] m.filesystem_deny[j]),
            ),
{
    assert forall|i: int, j: int|
        0 <= i < m.filesystem_writable.len() && 0 <= j < m.filesystem_readonly.len()
            implies !same_path(
        os,
        joined_path(os, working_dir, #[trigger] m.filesystem_writable[i]),
        joined_path(os, working_dir, #[trigger] m.filesystem_readonly[j]),
    ) by {
        lemma_no_conflict(os, working_dir, m.filesystem_writable, m.filesystem_readonly, i, j);
    }
    assert forall|i: int, j: int|
        0 <= i < m.filesystem_writable.len() && 0 <= j < m.filesystem_deny.len()
            implies !same_path(
        os,
        joined_path(os, working_dir, #[trigger] m.filesystem_writable[i]),
        joined_path(os, working_dir, #[trigger] m.filesystem_deny[j]),
    ) by {
        lemma_no_conflict(os, working_dir, m.filesystem_writable, m.filesystem_deny, i, j);
    }
    assert forall|i: int, j: int|
        0 <= i < m.filesystem_readonly.len() && 0 <= j < m.filesystem_deny.len()
            implies !same_path(
        os,
        joined_path(os, working_dir, #[trigger] m.filesystem_readonly[i]),
        joined_path(os, working_dir, #[trigger] m.filesystem_deny[j]),
    ) by {
        lemma_no_conflict(os, working_dir, m.filesystem_readonly, m.filesystem_deny, i, j);
    }
}

proof fn lemma_trimmed_ends(s: Seq<char>)
    ensures
        trimmed(s).len() > 0 ==> !is_space(trimmed(s)[0]) && !is_space(trimmed(s).last()),
{
    let p = |c: char| is_space(c);
    lemma_front_ends(s, p);
    lemma_back_ends(strip_front(s, p), p);
}

proof fn lemma_front_ends(s: Seq<char>, p: spec_fn(char) -> bool)
    ensures
        strip_front(s, p).len() > 0 ==> !p(strip_front(s, p)[0]),
    decreases s.len(),
{
    if s.len() > 0 && p(s[0]) {
        lemma_front_ends(s.skip(1), p);
    }
}

proof fn lemma_back_ends(s: Seq<char>, p: spec_fn(char) -> bool)
    ensures
        ({
            let t = strip_back(s, p);
            t.len() > 0 ==> t.len() <= s.len() && t[0] == s[0] && !p(t.last())
        }),
    decreases s.len(),
{
    if s.len() > 0 && p(s.last()) {
        lemma_back_ends(s.drop_last(), p);
    }
}

/// Trimming a pattern does not change what it matches.
pub proof fn lemma_trimmed_pattern(pattern: Seq<char>, name: Seq<char>)
    ensures
        pattern_matches(trimmed(pattern), name) == pattern_matches(pattern, name),
{
    lemma_trimmed_ends(pattern);
    lemma_trimmed_fixed(trimmed(pattern));
}

/// Every entry of a trimmed list is the trimmed form of an entry of the list.
pub proof fn lemma_trimmed_entry(list: Seq<Seq<char>>, i: int) -> (j: int)
    requires
        0 <= i < trimmed_entries(list).len(),
    ensures
        0 <= j < list.len(),
        trimmed_entries(list)[i] == trimmed(list[j]),
        trimmed_entries(list)[i].len() > 0,
    decreases list.len(),
{
    let before = trimmed_entries(list.drop_last());
    if i < before.len() {
        lemma_trimmed_entry(list.drop_last(), i)
    } else {
        list.len() - 1
    }
}

/// Every entry of a list without repetitions is an entry of the list.
pub proof fn lemma_distinct_text(list: Seq<Seq<char>>, i: int) -> (j: int)
    requires
        0 <= i < distinct(Sameness::Text, list).len(),
    ensures
        0 <= j < list.len(),
        list[j] == distinct(Sameness::Text, list)[i],
{
    let x = distinct(Sameness::Text, list)[i];
    assert(same_item(Sameness::Text, distinct(Sameness::Text, list)[i], x));
    lemma_absorbed_holds(Sameness::Text, Seq::<Seq<char>>::empty(), list, x);
    assert(holds(Sameness::Text, list, x));
    choose|j: int| 0 <= j < list.len() && same_item(Sameness::Text, #[trigger] list[j], x)
}

/// A name that a normalised list of patterns matches, the list itself matches too.
proof fn lemma_normal_patterns(patterns: Seq<Seq<char>>, name: Seq<char>)
    requires
        any_pattern_matches(normal_texts(patterns), name),
    ensures
        any_pattern_matches(patterns, name),
{
    let normal = normal_texts(patterns);
    let i = choose|i: int| 0 <= i < normal.len() && #[trigger] pattern_matches(normal[i], name);
    let j = lemma_distinct_text(trimmed_entries(patterns), i);
    let k = lemma_trimmed_entry(patterns, j);
    lemma_trimmed_pattern(patterns[k], name);
}

proof fn lemma_filter_member(s: Seq<Seq<char>>, p: spec_fn(Seq<char>) -> bool, i: int)
    requires
        0 <= i < s.filter(p).len(),
    ensures
        p(s.filter(p)[i]),
    decreases s.len(),
{
    reveal(Seq::filter);
    if i < s.drop_last().filter(p).len() {
        lemma_filter_member(s.drop_last(), p, i);
    }
}

/// A name that is denied is not passed through: no entry of the passthrough list of a
/// resolved policy matches one of its own deny patterns.
pub proof fn lemma_denied_names_not_passed(
    os: HostOs,
    working_dir: Seq<char>,
    temp_dir: Seq<char>,
    layer: PolicyLayer,
    m: PolicyModel,
    i: int,
)
    requires
        resolved_layer(os, working_dir, temp_dir, layer) == Ok::<PolicyModel, PolicyFault>(m),
        0 <= i < m.env_passthrough.len(),
    ensures
        !any_pattern_matches(m.env_deny, m.env_passthrough[i]),
{
    let deny = layer.env_deny.unwrap_or(Seq::<Seq<char>>::empty());
    let names = normal_texts(layer.env_passthrough.unwrap_or(infra_env_keys()));
    let keep = |name: Seq<char>| !any_pattern_matches(deny, name);
    assert(m.env_passthrough == names.filter(keep));
    lemma_filter_member(names, keep, i);
    assert(keep(m.env_passthrough[i]));
    if any_pattern_matches(m.env_deny, m.env_passthrough[i]) {
        lemma_normal_patterns(deny, m.env_passthrough[i]);
    }
}

/// The limits that the levels name, in bytes and milliseconds.
pub proof fn lemma_default_limits()
    ensures
        parsed_size("256m"@) == Some(268_435_456u64),
        parsed_size("512m"@) == Some(536_870_912u64),
        parsed_size("1g"@) == Some(1_073_741_824u64),
        parsed_millis("60s"@) == Some(60_000u64),
        parsed_millis("5m"@) == Some(300_000u64),
{
    reveal_strlit("256m");
    reveal_strlit("512m");
    reveal_strlit("1g");
    reveal_strlit("60s");
    reveal_strlit("5m");
    reveal_strlit("g");
    reveal_strlit("m");
    reveal_strlit("s");
    reveal_with_fuel(decimal, 4);
    lemma_size_roundtrip(268_435_456);
    lemma_size_roundtrip(536_870_912);
    lemma_size_roundtrip(1_073_741_824);
    lemma_duration_roundtrip(300_000);
    assert("256m"@ =~= formatted_bytes(268_435_456));
    assert("512m"@ =~= formatted_bytes(536_870_912));
    assert("1g"@ =~= formatted_bytes(1_073_741_824));
    assert("5m"@ =~= formatted_millis(300_000));
    lemma_sixty_seconds();
}

proof fn lemma_sixty_seconds()
    ensures
        parsed_millis("60s"@) == Some(60_000u64),
{
    reveal_strlit("60s");
    reveal_strlit("60");
    reveal_strlit("ms");
    reveal_strlit("s");
    reveal_with_fuel(digits_value, 3);
    let text = "60s"@;
    lemma_trimmed_fixed(text);
    lemma_lowered_fixed(text);
    assert(has_suffix(text, "s"@)) by {
        assert(text.skip(2) =~= "s"@);
    }
    assert(!has_suffix(text, "ms"@)) by {
        assert(text.skip(1)[0] == '0');
    }
    assert(text.take(2) =~= "60"@);
    lemma_trimmed_fixed("60"@);
    assert("60"@.drop_last() =~= seq!['6']);
    assert("60"@.drop_last().drop_last() =~= Seq::<char>::empty());
}

proof fn lemma_no_conflict_with_nothing(os: HostOs, working_dir: Seq<char>, left: Seq<Seq<char>>)
    ensures
        conflicts(os, working_dir, left, Seq::<Seq<char>>::empty()).len() == 0,
{
    let none = Seq::<Seq<char>>::empty();
    let clash = |path: Seq<char>| holds(Sameness::Path(os), placed(os, working_dir, none), path);
    assert(placed(os, working_dir, none).len() == 0);
    let all = placed(os, working_dir, left);
    if all.filter(clash).len() > 0 {
        lemma_filter_member(all, clash, 0);
        assert(clash(all.filter(clash)[0]));
    }
}

/// Without any rules the sandbox is usable: in every directory the policy of a level
/// resolves; the working directory and the directory for temporary files are writable,
/// nothing is read-only and no outside endpoint can be reached.
pub proof fn lemma_defaults_resolve(
    os: HostOs,
    working_dir: Seq<char>,
    temp_dir: Seq<char>,
    level: Option<IsolationLevel>,
) -> (m: PolicyModel)
    ensures
        resolved_layer(os, working_dir, temp_dir, PolicyLayer { level, ..empty_layer() }) == Ok::<
            PolicyModel,
            PolicyFault,
        >(m),
        holds(Sameness::Path(os), m.filesystem_writable, working_dir),
        holds(Sameness::Path(os), m.filesystem_writable, temp_dir),
        m.filesystem_readonly.len() == 0,
        m.filesystem_deny.len() == 0,
        m.allow_net.len() == 0,
        m.network_deny_all_other,
{
    lemma_default_limits();
    let layer = PolicyLayer { level, ..empty_layer() };
    let none = Seq::<Seq<char>>::empty();
    let writable = seq![working_dir, temp_dir];
    assert(distinct(Sameness::Path(os), none) == none);
    assert(normal_texts(none) == none);
    lemma_no_conflict_with_nothing(os, working_dir, distinct(Sameness::Path(os), writable));
    lemma_no_conflict_with_nothing(os, working_dir, none);
    assert(same_item(Sameness::Path(os), writable[0], working_dir));
    assert(same_item(Sameness::Path(os), writable[1], temp_dir));
    assert(holds(Sameness::Path(os), writable, working_dir));
    assert(holds(Sameness::Path(os), writable, temp_dir));
    lemma_absorbed_holds(Sameness::Path(os), none, writable, working_dir);
    lemma_absorbed_holds(Sameness::Path(os), none, writable, temp_dir);
    resolved_layer(os, working_dir, temp_dir, layer)->Ok_0
}

/// The hermetic preset lets no variable of the environment through, whatever a
/// configuration file and the command line add to it.
pub proof fn lemma_hermetic_env(
    os: HostOs,
    working_dir: Seq<char>,
    temp_dir: Seq<char>,
    config: Option<ConfigFile>,
    overrides: PolicyLayer,
    m: PolicyModel,
    name: Seq<char>,
)
    requires
        resolved_layer(
            os,
            working_dir,
            temp_dir,
            stacked_layers(os, temp_dir, Some(PresetKind::Hermetic), config, overrides),
        ) == Ok::<PolicyModel, PolicyFault>(m),
    ensures
        !passes_env(m, name),
{
    let layer = stacked_layers(os, temp_dir, Some(PresetKind::Hermetic), config, overrides);
    let star = seq!['*'];
    reveal_strlit("*");
    assert("*"@ =~= star);
    lemma_stacked_deny(os, temp_dir, config, overrides, star);
    let deny = layer.env_deny->0;
    let k = choose|k: int| 0 <= k < deny.len() && same_item(Sameness::Text, #[trigger] deny[k], star);
    lemma_trimmed_fixed(star);
    lemma_trimmed_kept(deny, k);
    let entries = trimmed_entries(deny);
    lemma_absorbed_holds(Sameness::Text, Seq::<Seq<char>>::empty(), entries, star);
    let i = choose|i: int|
        0 <= i < m.env_deny.len() && same_item(Sameness::Text, #[trigger] m.env_deny[i], star);
    lemma_star_matches_all(name);
    assert(pattern_matches(m.env_deny[i], name));
}

/// The deny pattern of the hermetic preset stays in force under every other layer.
proof fn lemma_stacked_deny(
    os: HostOs,
    temp_dir: Seq<char>,
    config: Option<ConfigFile>,
    overrides: PolicyLayer,
    star: Seq<char>,
)
    requires
        star == "*"@,
    ensures
        ({
            let layer = stacked_layers(os, temp_dir, Some(PresetKind::Hermetic), config, overrides);
            layer.env_deny is Some && holds(Sameness::Text, layer.env_deny->0, star)
        }),
{
    let kind = Sameness::Text;
    let base = preset_layer(PresetKind::Hermetic, temp_dir);
    assert(same_item(kind, base.env_deny->0[0], star));
    assert(holds(kind, base.env_deny->0, star));
    let configured = match config {
        Some(file) => merged_layer(os, base, config_layer(file)),
        None => base,
    };
    if config is Some {
        lemma_merged_holds(kind, base.env_deny, config_layer(config->0).env_deny, star);
    }
    lemma_merged_holds(kind, configured.env_deny, overrides.env_deny, star);
}

/// Lists of layers add up: an entry that one of two layers has, the merged layer has.
pub proof fn lemma_merged_holds(
    kind: Sameness,
    base: Option<Seq<Seq<char>>>,
    overlay: Option<Seq<Seq<char>>>,
    x: Seq<char>,
)
    ensures
        ({
            let merged = merged_list(kind, base, overlay);
            (merged is Some && holds(kind, merged->0, x)) == ((base is Some && holds(
                kind,
                base->0,
                x,
            )) || (overlay is Some && holds(kind, overlay->0, x)))
        }),
{
    if base is Some && overlay is Some {
        let (a, b) = (base->0, overlay->0);
        let none = Seq::<Seq<char>>::empty();
        lemma_absorbed_concat(kind, none, a, b);
        lemma_absorbed_holds(kind, none, a, x);
        lemma_absorbed_holds(kind, absorbed(kind, none, a), b, x);
    }
}

/// An entry of a list that is not blank is in the trimmed list.
pub proof fn lemma_trimmed_kept(list: Seq<Seq<char>>, k: int)
    requires
        0 <= k < list.len(),
        trimmed(list[k]).len() > 0,
    ensures
        holds(Sameness::Text, trimmed_entries(list), trimmed(list[k])),
    decreases list.len(),
{
    let before = trimmed_entries(list.drop_last());
    let all = trimmed_entries(list);
    if k < list.len() - 1 {
        lemma_trimmed_kept(list.drop_last(), k);
        let j = choose|j: int|
            0 <= j < before.len() && same_item(
                Sameness::Text,
                #[trigger] before[j],
                trimmed(list[k]),
            );
        assert(same_item(Sameness::Text, all[j], trimmed(list[k])));
    } else {
        assert(same_item(Sameness::Text, all[before.len() as int], trimmed(list[k])));
    }
}

/// The command line has the last word and the configuration file the word before that:
/// a setting of the command line is the one in force, and where it has none, that of the
/// configuration file.
pub proof fn lemma_later_layers_win(
    os: HostOs,
    temp_dir: Seq<char>,
    preset: Option<PresetKind>,
    file: ConfigFile,
    overrides: PolicyLayer,
)
    ensures
        ({
            let config = config_layer(file);
            let layer = stacked_layers(os, temp_dir, preset, Some(file), overrides);
            &&& overrides.level is Some ==> layer.level == overrides.level
            &&& overrides.network_deny_all_other is Some ==> layer.network_deny_all_other
                == overrides.network_deny_all_other
            &&& overrides.max_cpu is Some ==> layer.max_cpu == overrides.max_cpu
            &&& overrides.max_ram is Some ==> layer.max_ram == overrides.max_ram
            &&& overrides.max_disk is Some ==> layer.max_disk == overrides.max_disk
            &&& overrides.timeout is Some ==> layer.timeout == overrides.timeout
            &&& overrides.level is None && config.level is Some ==> layer.level == config.level
            &&& overrides.network_deny_all_other is None && config.network_deny_all_other is Some
                ==> layer.network_deny_all_other == config.network_deny_all_other
            &&& overrides.max_cpu is None && config.max_cpu is Some ==> layer.max_cpu
                == config.max_cpu
            &&& overrides.max_ram is None && config.max_ram is Some ==> layer.max_ram
                == config.max_ram
            &&& overrides.max_disk is None && config.max_disk is Some ==> layer.max_disk
                == config.max_disk
            &&& overrides.timeout is None && config.timeout is Some ==> layer.timeout
                == config.timeout
        }),
{
}

} // verus!
