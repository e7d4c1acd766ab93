//! How what a user asks for reaches the policy, setting by setting.
use crate::errors::PolicyFault;
use crate::glob::{any_pattern_matches, pattern_matches};
use crate::launch::{command_env, lemma_environment_is_explicit, HostOs};
use crate::layers::{
    config_layer, empty_layer, merged_layer, merged_list, preset_layer, ConfigFile, PolicyLayer,
    PolicyOverrides,
};
use crate::levels::{level_name, IsolationLevel, PresetKind};
use crate::lists::{distinct, holds, lemma_absorbed_holds, same_item, Sameness};
use crate::number::decimal;
use crate::paths::{joined_path, same_path};
use crate::policy::{
    conflicts, infra_env_keys, normal_texts, placed, policy_summary, resolved_layer, stacked_layers,
    trimmed_entries, PolicyModel,
};
use crate::policy_laws::{
    lemma_default_limits, lemma_distinct_text, lemma_merged_holds, lemma_trimmed_entry,
    lemma_trimmed_kept, lemma_trimmed_pattern,
};
use crate::text::{joined, lowered, opt_texts, trimmed};
use crate::units::{formatted_bytes, formatted_millis, parsed_millis, parsed_size};
use vstd::prelude::*;

verus! {

broadcast use vstd::seq::group_seq_axioms;

// ---------------------------------------------------------------------------
// From a layer to the policy

/// The list has an entry that is `x` without surrounding white space.
pub open spec fn lists(list: Option<Seq<Seq<char>>>, x: Seq<char>) -> bool {
    list is Some && exists|i: int| 0 <= i < list->0.len() && trimmed(#[trigger] list->0[i]) == x
}

proof fn lemma_normal_entry(list: Seq<Seq<char>>, i: int)
    requires
        0 <= i < list.len(),
        trimmed(list[i]).len() > 0,
    ensures
        normal_texts(list).contains(trimmed(list[i])),
{
    let x = trimmed(list[i]);
    let none = Seq::<Seq<char>>::empty();
    lemma_trimmed_kept(list, i);
    lemma_absorbed_holds(Sameness::Text, none, trimmed_entries(list), x);
    let n = normal_texts(list);
    let j = choose|j: int| 0 <= j < n.len() && same_item(Sameness::Text, #[trigger] n[j], x);
    assert(n[j] == x);
}

proof fn lemma_normal_texts(list: Option<Seq<Seq<char>>>, x: Seq<char>)
    ensures
        normal_texts(list.unwrap_or(Seq::<Seq<char>>::empty())).contains(x) <==> x.len() > 0
            && lists(list, x),
{
    let all = list.unwrap_or(Seq::<Seq<char>>::empty());
    let n = normal_texts(all);
    if n.contains(x) {
        let i = choose|i: int| 0 <= i < n.len() && n[i] == x;
        let j = lemma_distinct_text(trimmed_entries(all), i);
        let k = lemma_trimmed_entry(all, j);
        assert(list is Some);
        assert(trimmed(list->0[k]) == x);
    }
    if x.len() > 0 && lists(list, x) {
        let i = choose|i: int| 0 <= i < list->0.len() && trimmed(#[trigger] list->0[i]) == x;
        lemma_normal_entry(all, i);
    }
}

/// The list names the path, in whatever spelling.
pub open spec fn names(os: HostOs, list: Seq<Seq<char>>, path: Seq<char>) -> bool {
    exists|i: int| 0 <= i < list.len() && same_path(os, #[trigger] list[i], path)
}

proof fn lemma_names(os: HostOs, list: Seq<Seq<char>>, path: Seq<char>)
    ensures
        names(os, distinct(Sameness::Path(os), list), path) == names(os, list, path),
{
    let kind = Sameness::Path(os);
    let none = Seq::<Seq<char>>::empty();
    lemma_absorbed_holds(kind, none, list, path);
    let d = distinct(kind, list);
    if holds(kind, d, path) {
        let i = choose|i: int| 0 <= i < d.len() && same_item(kind, #[trigger] d[i], path);
        assert(same_path(os, d[i], path));
    }
    if holds(kind, list, path) {
        let i = choose|i: int| 0 <= i < list.len() && same_item(kind, #[trigger] list[i], path);
        assert(same_path(os, list[i], path));
    }
    if names(os, list, path) {
        let i = choose|i: int| 0 <= i < list.len() && same_path(os, #[trigger] list[i], path);
        assert(same_item(kind, list[i], path));
    }
    if names(os, d, path) {
        let i = choose|i: int| 0 <= i < d.len() && same_path(os, #[trigger] d[i], path);
        assert(same_item(kind, d[i], path));
    }
}

/// Every setting of a layer is the one in force: where the layer has a limit, that limit;
/// where it has a list, exactly the entries of that list that are not blank; and where it
/// has neither, what is safe by default.
pub proof fn lemma_layer_is_in_force(
    os: HostOs,
    working_dir: Seq<char>,
    temp_dir: Seq<char>,
    layer: PolicyLayer,
    m: PolicyModel,
    x: Seq<char>,
)
    requires
        resolved_layer(os, working_dir, temp_dir, layer) == Ok::<PolicyModel, PolicyFault>(m),
    ensures
        m.working_dir == working_dir,
        layer.level is Some ==> m.level == layer.level->0,
        layer.level is None ==> m.level == IsolationLevel::Safe,
        layer.network_deny_all_other is Some ==> m.network_deny_all_other
            == layer.network_deny_all_other->0,
        layer.network_deny_all_other is None ==> m.network_deny_all_other,
        layer.max_cpu is Some ==> m.max_cpu == layer.max_cpu->0,
        layer.max_cpu is None ==> m.max_cpu == 1,
        layer.max_ram is Some ==> parsed_size(layer.max_ram->0) == Some(m.max_ram_bytes),
        layer.max_ram is None ==> m.max_ram_bytes == if m.level == IsolationLevel::Safe {
            536_870_912u64
        } else {
            268_435_456u64
        },
        layer.max_disk is Some ==> parsed_size(layer.max_disk->0) == Some(m.max_disk_bytes),
        layer.max_disk is None ==> m.max_disk_bytes == if m.level == IsolationLevel::Safe {
            1_073_741_824u64
        } else {
            536_870_912u64
        },
        layer.timeout is Some ==> parsed_millis(layer.timeout->0) is Some && m.timeout
            == parsed_millis(layer.timeout->0)->0 * 1_000_000,
        layer.timeout is None ==> m.timeout == if m.level == IsolationLevel::Fast {
            60_000_000_000nat
        } else {
            300_000_000_000nat
        },
        m.allow_net.contains(x) <==> x.len() > 0 && lists(layer.allow_net, x),
        m.env_deny.contains(x) <==> x.len() > 0 && lists(layer.env_deny, x),
        layer.env_passthrough is Some ==> (m.env_passthrough.contains(x) <==> x.len() > 0 && lists(
            layer.env_passthrough,
            x,
        ) && !any_pattern_matches(m.env_deny, x)),
        layer.filesystem_writable is Some ==> names(os, m.filesystem_writable, x) == names(
            os,
            layer.filesystem_writable->0,
            x,
        ),
        layer.filesystem_writable is None ==> names(os, m.filesystem_writable, x) == (same_path(
            os,
            working_dir,
            x,
        ) || same_path(os, temp_dir, x)),
        layer.filesystem_readonly is Some ==> names(os, m.filesystem_readonly, x) == names(
            os,
            layer.filesystem_readonly->0,
            x,
        ),
        layer.filesystem_readonly is None ==> m.filesystem_readonly.len() == 0,
        layer.filesystem_deny is Some ==> names(os, m.filesystem_deny, x) == names(
            os,
            layer.filesystem_deny->0,
            x,
        ),
        layer.filesystem_deny is None ==> m.filesystem_deny.len() == 0,
{
    lemma_default_limits();
    let none = Seq::<Seq<char>>::empty();
    lemma_normal_texts(layer.allow_net, x);
    lemma_normal_texts(layer.env_deny, x);
    assert(distinct(Sameness::Path(os), none) == none);
    let writable = layer.filesystem_writable.unwrap_or(seq![working_dir, temp_dir]);
    lemma_names(os, writable, x);
    if layer.filesystem_writable is None {
        assert(writable[0] == working_dir && writable[1] == temp_dir);
        if same_path(os, working_dir, x) {
            assert(same_path(os, writable[0], x));
        }
        if same_path(os, temp_dir, x) {
            assert(same_path(os, writable[1], x));
        }
    }
    if layer.filesystem_readonly is Some {
        lemma_names(os, layer.filesystem_readonly->0, x);
    }
    if layer.filesystem_deny is Some {
        lemma_names(os, layer.filesystem_deny->0, x);
    }
    let deny = layer.env_deny.unwrap_or(none);
    lemma_same_patterns(deny, x);
    if layer.env_passthrough is Some {
        let names = normal_texts(layer.env_passthrough->0);
        let keep = |name: Seq<char>| !any_pattern_matches(deny, name);
        assert(m.env_passthrough == names.filter(keep));
        lemma_normal_texts(layer.env_passthrough, x);
        lemma_filter_holds(names, keep, x);
    }
}

proof fn lemma_filter_holds(s: Seq<Seq<char>>, p: spec_fn(Seq<char>) -> bool, x: Seq<char>)
    ensures
        s.filter(p).contains(x) <==> s.contains(x) && p(x),
    decreases s.len(),
{
    reveal(Seq::filter);
    if s.len() > 0 {
        let t = s.drop_last();
        lemma_filter_holds(t, p, x);
        let (f, g) = (t.filter(p), s.filter(p));
        if s.contains(x) {
            let j = choose|j: int| 0 <= j < s.len() && s[j] == x;
            if j < t.len() {
                assert(t[j] == x);
            }
        }
        if t.contains(x) {
            let j = choose|j: int| 0 <= j < t.len() && t[j] == x;
            assert(s[j] == x);
        }
        if f.contains(x) {
            let j = choose|j: int| 0 <= j < f.len() && f[j] == x;
            assert(g[j] == x);
        }
        if g.contains(x) {
            let j = choose|j: int| 0 <= j < g.len() && g[j] == x;
            if j < f.len() {
                assert(f[j] == x);
            } else {
                assert(s[s.len() - 1] == x);
            }
        }
        if x == s.last() && p(x) {
            assert(g[f.len() as int] == x);
        }
    }
}

/// A list of patterns and its normal form match the same names, except the empty one.
proof fn lemma_same_patterns(patterns: Seq<Seq<char>>, name: Seq<char>)
    ensures
        name.len() > 0 ==> any_pattern_matches(normal_texts(patterns), name)
            == any_pattern_matches(patterns, name),
        any_pattern_matches(normal_texts(patterns), name) ==> any_pattern_matches(patterns, name),
{
    let n = normal_texts(patterns);
    if any_pattern_matches(n, name) {
        let i = choose|i: int| 0 <= i < n.len() && #[trigger] pattern_matches(n[i], name);
        let j = lemma_distinct_text(trimmed_entries(patterns), i);
        let k = lemma_trimmed_entry(patterns, j);
        lemma_trimmed_pattern(patterns[k], name);
        assert(pattern_matches(patterns[k], name));
    }
    if name.len() > 0 && any_pattern_matches(patterns, name) {
        let k = choose|k: int|
            0 <= k < patterns.len() && #[trigger] pattern_matches(patterns[k], name);
        lemma_trimmed_pattern(patterns[k], name);
        if trimmed(patterns[k]).len() > 0 {
            lemma_normal_entry(patterns, k);
            let i = choose|i: int| 0 <= i < n.len() && n[i] == trimmed(patterns[k]);
            assert(pattern_matches(n[i], name));
        } else {
            assert(lowered(trimmed(patterns[k])).len() == 0);
            assert(lowered(name).len() == name.len());
            assert(!trimmed(patterns[k]).contains('*'));
        }
    }
}

// ---------------------------------------------------------------------------
// From preset, configuration file and command line to a layer

proof fn lemma_stacked_list(
    kind: Sameness,
    a: Option<Seq<Seq<char>>>,
    b: Option<Seq<Seq<char>>>,
    c: Option<Seq<Seq<char>>>,
    x: Seq<char>,
)
    ensures
        ({
            let ab = merged_list(kind, a, b);
            let all = merged_list(kind, ab, c);
            (all is Some && holds(kind, all->0, x)) == ((a is Some && holds(kind, a->0, x)) || (b
                is Some && holds(kind, b->0, x)) || (c is Some && holds(kind, c->0, x)))
        }),
{
    let ab = merged_list(kind, a, b);
    lemma_merged_holds(kind, a, b, x);
    lemma_merged_holds(kind, ab, c, x);
}

/// The list in force names the texts of the three lists, and no other.
proof fn lemma_stacked_texts(
    a: Option<Seq<Seq<char>>>,
    b: Option<Seq<Seq<char>>>,
    c: Option<Seq<Seq<char>>>,
    x: Seq<char>,
)
    ensures
        ({
            let ab = merged_list(Sameness::Text, a, b);
            let all = merged_list(Sameness::Text, ab, c);
            &&& lists(all, x) <==> lists(a, x) || lists(b, x) || lists(c, x)
            &&& all is Some <==> a is Some || b is Some || c is Some
        }),
{
    let kind = Sameness::Text;
    let ab = merged_list(kind, a, b);
    let all = merged_list(kind, ab, c);
    if lists(all, x) {
        let i = choose|i: int| 0 <= i < all->0.len() && trimmed(#[trigger] all->0[i]) == x;
        let y = all->0[i];
        assert(same_item(kind, all->0[i], y));
        lemma_stacked_list(kind, a, b, c, y);
        if a is Some && holds(kind, a->0, y) {
            lemma_holds_lists(a->0, y);
        }
        if b is Some && holds(kind, b->0, y) {
            lemma_holds_lists(b->0, y);
        }
        if c is Some && holds(kind, c->0, y) {
            lemma_holds_lists(c->0, y);
        }
    }
    if lists(a, x) {
        let i = choose|i: int| 0 <= i < a->0.len() && trimmed(#[trigger] a->0[i]) == x;
        assert(same_item(kind, a->0[i], a->0[i]));
        lemma_stacked_list(kind, a, b, c, a->0[i]);
        lemma_holds_lists(all->0, a->0[i]);
    }
    if lists(b, x) {
        let i = choose|i: int| 0 <= i < b->0.len() && trimmed(#[trigger] b->0[i]) == x;
        assert(same_item(kind, b->0[i], b->0[i]));
        lemma_stacked_list(kind, a, b, c, b->0[i]);
        lemma_holds_lists(all->0, b->0[i]);
    }
    if lists(c, x) {
        let i = choose|i: int| 0 <= i < c->0.len() && trimmed(#[trigger] c->0[i]) == x;
        assert(same_item(kind, c->0[i], c->0[i]));
        lemma_stacked_list(kind, a, b, c, c->0[i]);
        lemma_holds_lists(all->0, c->0[i]);
    }
}

proof fn lemma_holds_lists(list: Seq<Seq<char>>, y: Seq<char>)
    requires
        holds(Sameness::Text, list, y),
    ensures
        lists(Some(list), trimmed(y)),
{
    let i = choose|i: int|
        0 <= i < list.len() && same_item(Sameness::Text, #[trigger] list[i], y);
    assert(trimmed(Some(list)->0[i]) == trimmed(y));
}

/// The list in force names the paths of the three lists, and no other.
proof fn lemma_stacked_paths(
    os: HostOs,
    a: Option<Seq<Seq<char>>>,
    b: Option<Seq<Seq<char>>>,
    c: Option<Seq<Seq<char>>>,
    x: Seq<char>,
)
    ensures
        ({
            let kind = Sameness::Path(os);
            let ab = merged_list(kind, a, b);
            let all = merged_list(kind, ab, c);
            &&& all is Some <==> a is Some || b is Some || c is Some
            &&& (all is Some && names(os, all->0, x)) <==> (a is Some && names(os, a->0, x)) || (b
                is Some && names(os, b->0, x)) || (c is Some && names(os, c->0, x))
        }),
{
    let kind = Sameness::Path(os);
    let ab = merged_list(kind, a, b);
    let all = merged_list(kind, ab, c);
    lemma_stacked_list(kind, a, b, c, x);
    lemma_holds_names(os, all, x);
    lemma_holds_names(os, a, x);
    lemma_holds_names(os, b, x);
    lemma_holds_names(os, c, x);
}

proof fn lemma_holds_names(os: HostOs, list: Option<Seq<Seq<char>>>, x: Seq<char>)
    ensures
        list is Some ==> holds(Sameness::Path(os), list->0, x) == names(os, list->0, x),
{
    let kind = Sameness::Path(os);
    if list is Some {
        let l = list->0;
        if holds(kind, l, x) {
            let i = choose|i: int| 0 <= i < l.len() && same_item(kind, #[trigger] l[i], x);
            assert(same_path(os, l[i], x));
        }
        if names(os, l, x) {
            let i = choose|i: int| 0 <= i < l.len() && same_path(os, #[trigger] l[i], x);
            assert(same_item(kind, l[i], x));
        }
    }
}

/// The file asks for the entry in a list of its own.
pub open spec fn file_lists(list: Option<Vec<String>>, x: Seq<char>) -> bool {
    list is Some && exists|i: int| 0 <= i < list->0@.len() && trimmed(#[trigger] list->0@[i]@) == x
}

/// The file names the path in a list of its own.
pub open spec fn file_names(os: HostOs, list: Option<Vec<String>>, path: Seq<char>) -> bool {
    list is Some && exists|i: int|
        0 <= i < list->0@.len() && same_path(os, #[trigger] list->0@[i]@, path)
}

proof fn lemma_file_lists(list: Option<Vec<String>>, x: Seq<char>)
    ensures
        file_lists(list, x) == lists(opt_texts(list), x),
{
    if file_lists(list, x) {
        let i = choose|i: int| 0 <= i < list->0@.len() && trimmed(#[trigger] list->0@[i]@) == x;
        assert(trimmed(opt_texts(list)->0[i]) == x);
    }
    if lists(opt_texts(list), x) {
        let l = opt_texts(list)->0;
        let i = choose|i: int| 0 <= i < l.len() && trimmed(#[trigger] l[i]) == x;
        assert(trimmed(list->0@[i]@) == x);
    }
}

proof fn lemma_file_names(os: HostOs, list: Option<Vec<String>>, x: Seq<char>)
    ensures
        file_names(os, list, x) == (opt_texts(list) is Some && names(os, opt_texts(list)->0, x)),
{
    if file_names(os, list, x) {
        let i = choose|i: int| 0 <= i < list->0@.len() && same_path(os, #[trigger] list->0@[i]@, x);
        assert(same_path(os, opt_texts(list)->0[i], x));
    }
    if opt_texts(list) is Some && names(os, opt_texts(list)->0, x) {
        let l = opt_texts(list)->0;
        let i = choose|i: int| 0 <= i < l.len() && same_path(os, #[trigger] l[i], x);
        assert(same_path(os, list->0@[i]@, x));
    }
}

/// Every setting of the configuration file reaches the policy, whatever preset and command
/// line say. Each entry of each of its lists is in force, without surrounding white space;
/// and its level, its limits and its word on the rest of the network are in force where the
/// command line has none of its own.
pub proof fn lemma_config_reaches_policy(
    os: HostOs,
    working_dir: Seq<char>,
    temp_dir: Seq<char>,
    preset: Option<PresetKind>,
    file: ConfigFile,
    overrides: PolicyLayer,
    m: PolicyModel,
    x: Seq<char>,
)
    requires
        resolved_layer(
            os,
            working_dir,
            temp_dir,
            stacked_layers(os, temp_dir, preset, Some(file), overrides),
        ) == Ok::<PolicyModel, PolicyFault>(m),
    ensures
        file.environment matches Some(e) ==> {
            &&& x.len() > 0 && file_lists(e.deny, x) ==> m.env_deny.contains(x)
            &&& x.len() > 0 && file_lists(e.passthrough, x) && !any_pattern_matches(m.env_deny, x)
                ==> m.env_passthrough.contains(x)
        },
        file.network matches Some(n) ==> {
            &&& x.len() > 0 && file_lists(n.allow, x) ==> m.allow_net.contains(x)
            &&& n.deny_all_other is Some && overrides.network_deny_all_other is None
                ==> m.network_deny_all_other == n.deny_all_other->0
        },
        file.filesystem matches Some(f) ==> {
            &&& file_names(os, f.writable, x) ==> names(os, m.filesystem_writable, x)
            &&& file_names(os, f.readonly, x) ==> names(os, m.filesystem_readonly, x)
            &&& file_names(os, f.deny, x) ==> names(os, m.filesystem_deny, x)
        },
        file.sandbox matches Some(s) ==> {
            &&& s.level is Some && overrides.level is None ==> m.level == s.level->0
            &&& s.max_cpu is Some && overrides.max_cpu is None ==> m.max_cpu == s.max_cpu->0
            &&& s.max_ram is Some && overrides.max_ram is None ==> parsed_size(s.max_ram->0@)
                == Some(m.max_ram_bytes)
            &&& s.max_disk is Some && overrides.max_disk is None ==> parsed_size(s.max_disk->0@)
                == Some(m.max_disk_bytes)
            &&& s.timeout is Some && overrides.timeout is None ==> parsed_millis(s.timeout->0@)
                is Some && m.timeout == parsed_millis(s.timeout->0@)->0 * 1_000_000
        },
{
    let base = match preset {
        Some(kind) => preset_layer(kind, temp_dir),
        None => empty_layer(),
    };
    let layer = stacked_layers(os, temp_dir, preset, Some(file), overrides);
    lemma_layer_is_in_force(os, working_dir, temp_dir, layer, m, x);
    if let Some(e) = file.environment {
        lemma_file_lists(e.deny, x);
        lemma_file_lists(e.passthrough, x);
        lemma_stacked_texts(base.env_deny, opt_texts(e.deny), overrides.env_deny, x);
        lemma_stacked_texts(
            base.env_passthrough,
            opt_texts(e.passthrough),
            overrides.env_passthrough,
            x,
        );
    }
    if let Some(n) = file.network {
        lemma_file_lists(n.allow, x);
        lemma_stacked_texts(base.allow_net, opt_texts(n.allow), overrides.allow_net, x);
    }
    if let Some(f) = file.filesystem {
        lemma_file_names(os, f.writable, x);
        lemma_file_names(os, f.readonly, x);
        lemma_file_names(os, f.deny, x);
        lemma_stacked_paths(
            os,
            base.filesystem_writable,
            opt_texts(f.writable),
            overrides.filesystem_writable,
            x,
        );
        lemma_stacked_paths(
            os,
            base.filesystem_readonly,
            opt_texts(f.readonly),
            overrides.filesystem_readonly,
            x,
        );
        lemma_stacked_paths(
            os,
            base.filesystem_deny,
            opt_texts(f.deny),
            overrides.filesystem_deny,
            x,
        );
    }
}

/// What the configuration file denies gets into no command: whatever preset and command line
/// say, no variable of a command's environment matches an entry of the deny list of the
/// file's `[environment]` section.
pub proof fn lemma_config_denial_is_final(
    os: HostOs,
    working_dir: Seq<char>,
    temp_dir: Seq<char>,
    preset: Option<PresetKind>,
    file: ConfigFile,
    overrides: PolicyLayer,
    m: PolicyModel,
    infra: Seq<Option<Seq<char>>>,
    vars: Seq<(Seq<char>, Seq<char>)>,
    j: int,
    i: int,
)
    requires
        resolved_layer(
            os,
            working_dir,
            temp_dir,
            stacked_layers(os, temp_dir, preset, Some(file), overrides),
        ) == Ok::<PolicyModel, PolicyFault>(m),
        file.environment is Some && file.environment->0.deny is Some,
        0 <= j < file.environment->0.deny->0@.len(),
        trimmed(file.environment->0.deny->0@[j]@).len() > 0,
        0 <= i < command_env(m, infra, vars).len(),
    ensures
        !pattern_matches(
            file.environment->0.deny->0@[j]@,
            command_env(m, infra, vars)[i].0,
        ),
{
    let entry = file.environment->0.deny->0@[j]@;
    let x = trimmed(entry);
    let name = command_env(m, infra, vars)[i].0;
    assert(file_lists(file.environment->0.deny, x));
    lemma_config_reaches_policy(os, working_dir, temp_dir, preset, file, overrides, m, x);
    lemma_environment_is_explicit(m, infra, vars);
    let k = choose|k: int| 0 <= k < m.env_deny.len() && m.env_deny[k] == x;
    lemma_trimmed_pattern(entry, name);
    if pattern_matches(entry, name) {
        assert(pattern_matches(m.env_deny[k], name));
        assert(any_pattern_matches(m.env_deny, name));
    }
}

/// Every setting of the command line reaches the policy, whatever preset and configuration
/// file say: each entry of each of its lists is in force, and so are its level and limits.
pub proof fn lemma_overrides_reach_policy(
    os: HostOs,
    working_dir: Seq<char>,
    temp_dir: Seq<char>,
    preset: Option<PresetKind>,
    config: Option<ConfigFile>,
    overrides: PolicyOverrides,
    m: PolicyModel,
    x: Seq<char>,
)
    requires
        resolved_layer(
            os,
            working_dir,
            temp_dir,
            stacked_layers(os, temp_dir, preset, config, overrides@),
        ) == Ok::<PolicyModel, PolicyFault>(m),
    ensures
        x.len() > 0 && file_lists(overrides.allow_net, x) ==> m.allow_net.contains(x),
        x.len() > 0 && file_lists(overrides.env_deny, x) ==> m.env_deny.contains(x),
        x.len() > 0 && file_lists(overrides.env_passthrough, x) && !any_pattern_matches(
            m.env_deny,
            x,
        ) ==> m.env_passthrough.contains(x),
        file_names(os, overrides.filesystem_writable, x) ==> names(os, m.filesystem_writable, x),
        file_names(os, overrides.filesystem_readonly, x) ==> names(os, m.filesystem_readonly, x),
        file_names(os, overrides.filesystem_deny, x) ==> names(os, m.filesystem_deny, x),
        overrides.network_deny_all_other is Some ==> m.network_deny_all_other
            == overrides.network_deny_all_other->0,
        overrides.level is Some ==> m.level == overrides.level->0,
        overrides.max_cpu is Some ==> m.max_cpu == overrides.max_cpu->0,
        overrides.max_ram is Some ==> parsed_size(overrides.max_ram->0@) == Some(m.max_ram_bytes),
        overrides.max_disk is Some ==> parsed_size(overrides.max_disk->0@) == Some(
            m.max_disk_bytes,
        ),
        overrides.timeout is Some ==> parsed_millis(overrides.timeout->0@) is Some && m.timeout
            == parsed_millis(overrides.timeout->0@)->0 * 1_000_000,
{
    let layer = stacked_layers(os, temp_dir, preset, config, overrides@);
    lemma_layer_is_in_force(os, working_dir, temp_dir, layer, m, x);
    let base = match preset {
        Some(kind) => preset_layer(kind, temp_dir),
        None => empty_layer(),
    };
    let under = match config {
        Some(file) => merged_layer(os, base, config_layer(file)),
        None => base,
    };
    let o = overrides@;
    lemma_file_lists(overrides.allow_net, x);
    lemma_file_lists(overrides.env_deny, x);
    lemma_file_lists(overrides.env_passthrough, x);
    lemma_stacked_texts(under.allow_net, None, o.allow_net, x);
    lemma_stacked_texts(under.env_deny, None, o.env_deny, x);
    lemma_stacked_texts(under.env_passthrough, None, o.env_passthrough, x);
    lemma_file_names(os, overrides.filesystem_writable, x);
    lemma_file_names(os, overrides.filesystem_readonly, x);
    lemma_file_names(os, overrides.filesystem_deny, x);
    lemma_stacked_paths(os, under.filesystem_writable, None, o.filesystem_writable, x);
    lemma_stacked_paths(os, under.filesystem_readonly, None, o.filesystem_readonly, x);
    lemma_stacked_paths(os, under.filesystem_deny, None, o.filesystem_deny, x);
}

/// Nothing is granted that nobody asked for: an endpoint of the policy stands in the list of
/// the preset, of the configuration file or of the command line; so does a pattern of
/// variables that are let through, where any of the three has such a list; and so does a
/// path that may be written or read.
pub proof fn lemma_nothing_granted_unasked(
    os: HostOs,
    working_dir: Seq<char>,
    temp_dir: Seq<char>,
    preset: Option<PresetKind>,
    file: ConfigFile,
    overrides: PolicyLayer,
    m: PolicyModel,
    x: Seq<char>,
)
    requires
        resolved_layer(
            os,
            working_dir,
            temp_dir,
            stacked_layers(os, temp_dir, preset, Some(file), overrides),
        ) == Ok::<PolicyModel, PolicyFault>(m),
    ensures
        m.allow_net.contains(x) ==> {
            ||| preset is Some && lists(preset_layer(preset->0, temp_dir).allow_net, x)
            ||| file.network is Some && file_lists(file.network->0.allow, x)
            ||| lists(overrides.allow_net, x)
        },
        m.env_passthrough.contains(x) && (preset is Some || overrides.env_passthrough is Some || (
        file.environment is Some && file.environment->0.passthrough is Some)) ==> {
            ||| preset is Some && lists(preset_layer(preset->0, temp_dir).env_passthrough, x)
            ||| file.environment is Some && file_lists(file.environment->0.passthrough, x)
            ||| lists(overrides.env_passthrough, x)
        },
        names(os, m.filesystem_writable, x) && (preset is Some || overrides.filesystem_writable
            is Some || (file.filesystem is Some && file.filesystem->0.writable is Some)) ==> {
            ||| preset is Some && names(
                os,
                preset_layer(preset->0, temp_dir).filesystem_writable->0,
                x,
            )
            ||| file.filesystem is Some && file_names(os, file.filesystem->0.writable, x)
            ||| overrides.filesystem_writable is Some && names(
                os,
                overrides.filesystem_writable->0,
                x,
            )
        },
        names(os, m.filesystem_readonly, x) ==> {
            ||| preset is Some && names(
                os,
                preset_layer(preset->0, temp_dir).filesystem_readonly->0,
                x,
            )
            ||| file.filesystem is Some && file_names(os, file.filesystem->0.readonly, x)
            ||| overrides.filesystem_readonly is Some && names(
                os,
                overrides.filesystem_readonly->0,
                x,
            )
        },
{
    let base = match preset {
        Some(kind) => preset_layer(kind, temp_dir),
        None => empty_layer(),
    };
    let c = config_layer(file);
    let layer = stacked_layers(os, temp_dir, preset, Some(file), overrides);
    lemma_layer_is_in_force(os, working_dir, temp_dir, layer, m, x);
    lemma_stacked_texts(base.allow_net, c.allow_net, overrides.allow_net, x);
    lemma_stacked_texts(base.env_passthrough, c.env_passthrough, overrides.env_passthrough, x);
    lemma_stacked_paths(
        os,
        base.filesystem_writable,
        c.filesystem_writable,
        overrides.filesystem_writable,
        x,
    );
    lemma_stacked_paths(
        os,
        base.filesystem_readonly,
        c.filesystem_readonly,
        overrides.filesystem_readonly,
        x,
    );
    if let Some(n) = file.network {
        lemma_file_lists(n.allow, x);
    }
    if let Some(e) = file.environment {
        lemma_file_lists(e.passthrough, x);
    }
    if let Some(f) = file.filesystem {
        lemma_file_names(os, f.writable, x);
        lemma_file_names(os, f.readonly, x);
    }
}

// ---------------------------------------------------------------------------
// Presets

/// What every preset promises: the level is safe, the rest of the network is closed, the
/// current directory and the one for temporary files are the only writable ones, nothing is
/// read-only, and the kernel's own file systems are denied.
pub proof fn lemma_every_preset(preset: PresetKind, temp_dir: Seq<char>)
    ensures
        ({
            let p = preset_layer(preset, temp_dir);
            &&& p.level == Some(IsolationLevel::Safe)
            &&& p.network_deny_all_other == Some(true)
            &&& p.filesystem_writable is Some && p.filesystem_writable->0 == seq!["."@, temp_dir]
            &&& p.filesystem_readonly is Some && p.filesystem_readonly->0.len() == 0
            &&& p.filesystem_deny is Some && p.filesystem_deny->0.contains("/proc"@)
                && p.filesystem_deny->0.contains("/sys"@)
            &&& preset != PresetKind::Hermetic ==> p.env_deny is Some && p.env_deny->0 == seq![
                "AWS_SECRET_*"@,
                "DATABASE_*"@,
            ]
            &&& preset == PresetKind::WebServer ==> p.max_cpu == Some(2u32)
            &&& preset != PresetKind::WebServer ==> p.max_cpu == Some(1u32)
            &&& preset != PresetKind::Hermetic ==> p.max_ram == Some("1g"@) && p.max_disk == Some(
                "2g"@,
            )
        }),
{
    let p = preset_layer(preset, temp_dir);
    let deny = p.filesystem_deny->0;
    assert(deny[deny.len() - 2] == "/proc"@ && deny[deny.len() - 1] == "/sys"@);
}

/// What the preset for agents opens: the two interfaces of language models and their keys.
pub proof fn lemma_agent_preset(temp_dir: Seq<char>, x: Seq<char>)
    ensures
        ({
            let p = preset_layer(PresetKind::AiAgent, temp_dir);
            &&& p.allow_net is Some && (p.allow_net->0.contains(x) <==> x
                == "api.openai.com:443"@ || x == "api.anthropic.com:443"@)
            &&& p.env_passthrough is Some && (p.env_passthrough->0.contains(x) <==> x
                == "OPENAI_API_KEY"@ || x == "ANTHROPIC_API_KEY"@ || x == "NODE_ENV"@)
            &&& p.filesystem_deny is Some && (p.filesystem_deny->0.contains(x) <==> x
                == "/etc/passwd"@ || x == "/proc"@ || x == "/sys"@)
            &&& p.timeout == Some("10m"@)
        }),
{
    let p = preset_layer(PresetKind::AiAgent, temp_dir);
    let (a, b, c) = (p.allow_net->0, p.env_passthrough->0, p.filesystem_deny->0);
    assert(a[0] == "api.openai.com:443"@ && a[1] == "api.anthropic.com:443"@);
    assert(b[0] == "OPENAI_API_KEY"@ && b[1] == "ANTHROPIC_API_KEY"@ && b[2] == "NODE_ENV"@);
    assert(c[0] == "/etc/passwd"@ && c[1] == "/proc"@ && c[2] == "/sys"@);
}

/// What the preset for web servers opens: three ports of the machine itself.
pub proof fn lemma_server_preset(temp_dir: Seq<char>, x: Seq<char>)
    ensures
        ({
            let p = preset_layer(PresetKind::WebServer, temp_dir);
            &&& p.allow_net is Some && (p.allow_net->0.contains(x) <==> x == "127.0.0.1:3000"@ || x
                == "127.0.0.1:8080"@ || x == "127.0.0.1:9000"@)
            &&& p.env_passthrough is Some && (p.env_passthrough->0.contains(x) <==> x
                == "NODE_ENV"@)
            &&& p.filesystem_deny is Some && (p.filesystem_deny->0.contains(x) <==> x == "/proc"@
                || x == "/sys"@)
            &&& p.timeout == Some("30m"@)
        }),
{
    let p = preset_layer(PresetKind::WebServer, temp_dir);
    let (a, b, c) = (p.allow_net->0, p.env_passthrough->0, p.filesystem_deny->0);
    assert(a[0] == "127.0.0.1:3000"@ && a[1] == "127.0.0.1:8080"@ && a[2] == "127.0.0.1:9000"@);
    assert(b[0] == "NODE_ENV"@);
    assert(c[0] == "/proc"@ && c[1] == "/sys"@);
}

/// What the hermetic preset opens: no endpoint and no variable; every variable is denied,
/// and so is the configuration of the machine.
pub proof fn lemma_hermetic_preset(temp_dir: Seq<char>, x: Seq<char>)
    ensures
        ({
            let p = preset_layer(PresetKind::Hermetic, temp_dir);
            &&& p.allow_net is Some && p.allow_net->0.len() == 0
            &&& p.env_passthrough is Some && p.env_passthrough->0.len() == 0
            &&& p.env_deny is Some && (p.env_deny->0.contains(x) <==> x == "*"@)
            &&& p.filesystem_deny is Some && (p.filesystem_deny->0.contains(x) <==> x == "/etc"@
                || x == "/proc"@ || x == "/sys"@)
            &&& p.max_ram == Some("256m"@)
            &&& p.max_disk == Some("512m"@)
            &&& p.timeout == Some("5m"@)
        }),
{
    let p = preset_layer(PresetKind::Hermetic, temp_dir);
    let (b, c) = (p.env_deny->0, p.filesystem_deny->0);
    assert(b[0] == "*"@);
    assert(c[0] == "/etc"@ && c[1] == "/proc"@ && c[2] == "/sys"@);
}

/// The variables that a command needs to find its way around, one by one.
pub proof fn lemma_needed_variables(x: Seq<char>)
    ensures
        infra_env_keys().contains(x) <==> {
            ||| x == "PATH"@
            ||| x == "HOME"@
            ||| x == "USER"@
            ||| x == "LOGNAME"@
            ||| x == "TMPDIR"@
            ||| x == "TEMP"@
            ||| x == "TMP"@
            ||| x == "SystemRoot"@
            ||| x == "ComSpec"@
            ||| x == "SHELL"@
            ||| x == "TERM"@
        },
{
    let k = infra_env_keys();
    assert(k.len() == 11);
    assert(k[0] == "PATH"@ && k[1] == "HOME"@ && k[2] == "USER"@ && k[3] == "LOGNAME"@ && k[4]
        == "TMPDIR"@ && k[5] == "TEMP"@ && k[6] == "TMP"@ && k[7] == "SystemRoot"@ && k[8]
        == "ComSpec"@ && k[9] == "SHELL"@ && k[10] == "TERM"@);
}

// ---------------------------------------------------------------------------
// When there is a policy

proof fn lemma_distinct_from(kind: Sameness, list: Seq<Seq<char>>, i: int) -> (j: int)
    requires
        0 <= i < distinct(kind, list).len(),
    ensures
        0 <= j < list.len(),
        list[j] == distinct(kind, list)[i],
    decreases list.len(),
{
    let t = list.drop_last();
    let before = distinct(kind, t);
    if i < before.len() {
        assert(distinct(kind, list)[i] == before[i]);
        let j = lemma_distinct_from(kind, t, i);
        assert(t[j] == list[j]);
        j
    } else {
        list.len() - 1
    }
}

/// No path of the one list is a path of the other, as seen from the working directory.
pub open spec fn apart(
    os: HostOs,
    working_dir: Seq<char>,
    a: Seq<Seq<char>>,
    b: Seq<Seq<char>>,
) -> bool {
    forall|i: int, j: int|
        0 <= i < a.len() && 0 <= j < b.len() ==> !same_path(
            os,
            joined_path(os, working_dir, #[trigger] a[i]),
            joined_path(os, working_dir, #[trigger] b[j]),
        )
}

proof fn lemma_apart(os: HostOs, working_dir: Seq<char>, a: Seq<Seq<char>>, b: Seq<Seq<char>>)
    requires
        apart(os, working_dir, a, b),
    ensures
        conflicts(
            os,
            working_dir,
            distinct(Sameness::Path(os), a),
            distinct(Sameness::Path(os), b),
        ).len() == 0,
{
    let kind = Sameness::Path(os);
    let (da, db) = (distinct(kind, a), distinct(kind, b));
    let right = placed(os, working_dir, db);
    let left = placed(os, working_dir, da);
    let clash = |path: Seq<char>| holds(kind, right, path);
    let c = left.filter(clash);
    if c.len() > 0 {
        let x = c[0];
        assert(c.contains(x));
        lemma_filter_holds(left, clash, x);
        let i = choose|i: int| 0 <= i < left.len() && left[i] == x;
        let j = choose|j: int| 0 <= j < right.len() && same_item(kind, #[trigger] right[j], x);
        let p = lemma_distinct_from(kind, a, i);
        let q = lemma_distinct_from(kind, b, j);
        assert(left[i] == joined_path(os, working_dir, a[p]));
        assert(right[j] == joined_path(os, working_dir, b[q]));
        lemma_same_path_symmetric(os, right[j], left[i]);
    }
}

proof fn lemma_same_path_symmetric(os: HostOs, a: Seq<char>, b: Seq<char>)
    requires
        same_path(os, a, b),
    ensures
        same_path(os, b, a),
{
}

/// When a layer comes to a policy: its sizes and its duration can be read and none is zero,
/// it has a processor, its network is closed or has an entry, and no path stands under two
/// headings.
pub proof fn lemma_when_there_is_a_policy(
    os: HostOs,
    working_dir: Seq<char>,
    temp_dir: Seq<char>,
    layer: PolicyLayer,
)
    requires
        layer.max_ram is Some ==> parsed_size(layer.max_ram->0) is Some && parsed_size(
            layer.max_ram->0,
        )->0 > 0,
        layer.max_disk is Some ==> parsed_size(layer.max_disk->0) is Some && parsed_size(
            layer.max_disk->0,
        )->0 > 0,
        layer.timeout is Some ==> parsed_millis(layer.timeout->0) is Some && parsed_millis(
            layer.timeout->0,
        )->0 > 0,
        layer.max_cpu != Some(0u32),
        layer.network_deny_all_other == Some(false) ==> exists|x: Seq<char>|
            x.len() > 0 && #[trigger] lists(layer.allow_net, x),
        ({
            let none = Seq::<Seq<char>>::empty();
            let writable = layer.filesystem_writable.unwrap_or(seq![working_dir, temp_dir]);
            let readonly = layer.filesystem_readonly.unwrap_or(none);
            let deny = layer.filesystem_deny.unwrap_or(none);
            &&& apart(os, working_dir, writable, readonly)
            &&& apart(os, working_dir, writable, deny)
            &&& apart(os, working_dir, readonly, deny)
        }),
    ensures
        resolved_layer(os, working_dir, temp_dir, layer) is Ok,
{
    lemma_default_limits();
    let none = Seq::<Seq<char>>::empty();
    let writable = layer.filesystem_writable.unwrap_or(seq![working_dir, temp_dir]);
    let readonly = layer.filesystem_readonly.unwrap_or(none);
    let deny = layer.filesystem_deny.unwrap_or(none);
    lemma_apart(os, working_dir, writable, readonly);
    lemma_apart(os, working_dir, writable, deny);
    lemma_apart(os, working_dir, readonly, deny);
    if layer.network_deny_all_other == Some(false) {
        let x = choose|x: Seq<char>| x.len() > 0 && #[trigger] lists(layer.allow_net, x);
        lemma_normal_texts(layer.allow_net, x);
    }
}

/// What is told of a layer that comes to no policy: the size or the duration that cannot be
/// read, or else the first rule that is broken, in this order: processors, memory, disk,
/// time, network.
pub proof fn lemma_why_there_is_no_policy(
    os: HostOs,
    working_dir: Seq<char>,
    temp_dir: Seq<char>,
    layer: PolicyLayer,
)
    ensures
        ({
            let r = resolved_layer(os, working_dir, temp_dir, layer);
            let fault = |f: PolicyFault| r == Err::<PolicyModel, PolicyFault>(f);
            let bad_ram = layer.max_ram is Some && parsed_size(layer.max_ram->0) is None;
            let bad_disk = layer.max_disk is Some && parsed_size(layer.max_disk->0) is None;
            let bad_time = layer.timeout is Some && parsed_millis(layer.timeout->0) is None;
            let no_cpu = layer.max_cpu == Some(0u32);
            let no_ram = layer.max_ram is Some && parsed_size(layer.max_ram->0) == Some(0u64);
            let no_disk = layer.max_disk is Some && parsed_size(layer.max_disk->0) == Some(0u64);
            let no_time = layer.timeout is Some && parsed_millis(layer.timeout->0) == Some(0u64);
            let readable = !bad_ram && !bad_disk && !bad_time;
            let enough = !no_cpu && !no_ram && !no_disk && !no_time;
            &&& bad_ram ==> fault(PolicyFault::InvalidSize(layer.max_ram->0))
            &&& !bad_ram && bad_disk ==> fault(PolicyFault::InvalidSize(layer.max_disk->0))
            &&& !bad_ram && !bad_disk && bad_time ==> fault(
                PolicyFault::InvalidDuration(layer.timeout->0),
            )
            &&& readable && no_cpu ==> fault(
                PolicyFault::InvalidPolicyConfiguration("max_cpu must be greater than zero"@),
            )
            &&& readable && !no_cpu && no_ram ==> fault(
                PolicyFault::InvalidPolicyConfiguration("max_ram must be greater than zero"@),
            )
            &&& readable && !no_cpu && !no_ram && no_disk ==> fault(
                PolicyFault::InvalidPolicyConfiguration("max_disk must be greater than zero"@),
            )
            &&& readable && !no_cpu && !no_ram && !no_disk && no_time ==> fault(
                PolicyFault::InvalidPolicyConfiguration("timeout must be greater than zero"@),
            )
            &&& readable && enough && layer.network_deny_all_other == Some(false) && (forall|
                x: Seq<char>,
            |
                x.len() > 0 ==> !#[trigger] lists(layer.allow_net, x)) ==> fault(
                PolicyFault::InvalidPolicyConfiguration(
                    "open network requires an explicit allow_net list"@,
                ),
            )
        }),
{
    lemma_default_limits();
    let n = normal_texts(layer.allow_net.unwrap_or(Seq::<Seq<char>>::empty()));
    if n.len() > 0 {
        assert(n.contains(n[0]));
        lemma_normal_texts(layer.allow_net, n[0]);
    }
}

/// What is told of a policy, line by line.
pub proof fn lemma_policy_lines(m: PolicyModel)
    ensures
        policy_summary(m).len() == 10,
        policy_summary(m)[0] == "level = "@ + level_name(m.level),
        policy_summary(m)[1] == "allow_net = "@ + ("["@ + joined(m.allow_net, ", "@) + "]"@),
        policy_summary(m)[2] == "deny_all_other = "@ + (if m.network_deny_all_other {
            "true"@
        } else {
            "false"@
        }),
        policy_summary(m)[3] == "fs_writable = "@ + ("["@ + joined(m.filesystem_writable, ", "@)
            + "]"@),
        policy_summary(m)[4] == "fs_readonly = "@ + ("["@ + joined(m.filesystem_readonly, ", "@)
            + "]"@),
        policy_summary(m)[5] == "env_passthrough = "@ + ("["@ + joined(m.env_passthrough, ", "@)
            + "]"@),
        policy_summary(m)[6] == "max_cpu = "@ + decimal(m.max_cpu as nat),
        policy_summary(m)[7] == "max_ram = "@ + formatted_bytes(m.max_ram_bytes as nat),
        policy_summary(m)[8] == "max_disk = "@ + formatted_bytes(m.max_disk_bytes as nat),
        policy_summary(m)[9] == "timeout = "@ + formatted_millis(m.timeout / 1_000_000),
{
}

} // verus!
