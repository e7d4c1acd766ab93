//! How what the command line grants reaches the policy.
use crate::args::{all_grants, PolicyArgs};
use crate::grants::{grants, part_grant, FsGrant};
use crate::layers::PolicyLayer;
use crate::paths::last_position;
use crate::text::{lowered, opt_text, opt_texts, pieces, texts, trimmed};
use vstd::prelude::*;

verus! {

broadcast use vstd::seq::group_seq_axioms;

/// The last place of a character in a text.
pub proof fn lemma_last_place(s: Seq<char>, c: char)
    ensures
        -1 <= last_position(s, c) < s.len(),
        last_position(s, c) >= 0 ==> s[last_position(s, c)] == c,
        forall|i: int| last_position(s, c) < i < s.len() ==> s[i] != c,
    decreases s.len(),
{
    if s.len() > 0 && s.last() != c {
        let t = s.drop_last();
        lemma_last_place(t, c);
        assert forall|i: int| last_position(s, c) < i < s.len() implies s[i] != c by {
            if i < t.len() {
                assert(t[i] == s[i]);
            }
        }
    }
}

/// A path without a colon is granted for writing; a blank part grants nothing.
pub proof fn lemma_bare_path_is_writable(part: Seq<char>)
    requires
        !trimmed(part).contains(':'),
    ensures
        trimmed(part).len() == 0 ==> part_grant(part) == FsGrant::Nothing,
        trimmed(part).len() > 0 ==> part_grant(part) == FsGrant::Writable(trimmed(part)),
{
    let text = trimmed(part);
    lemma_last_place(text, ':');
    if last_position(text, ':') >= 0 {
        assert(text.contains(':'));
    }
}

/// A path and a mode: what stands behind the last colon is the mode, in any case and with any
/// white space around. `rw`, `write` and `writable` grant writing, `ro`, `read`, `readonly`
/// and `read-only` grant reading, and any other mode is refused by name.
pub proof fn lemma_path_with_mode(part: Seq<char>, path: Seq<char>, mode: Seq<char>)
    requires
        trimmed(part) == path + seq![':'] + mode,
        !mode.contains(':'),
    ensures
        ({
            let word = lowered(trimmed(mode));
            let writes = word == "rw"@ || word == "write"@ || word == "writable"@;
            let reads = word == "ro"@ || word == "read"@ || word == "readonly"@ || word
                == "read-only"@;
            &&& writes ==> part_grant(part) == FsGrant::Writable(trimmed(path))
            &&& reads ==> part_grant(part) == FsGrant::Readonly(trimmed(path))
            &&& !writes && !reads ==> part_grant(part) == FsGrant::UnknownMode(word)
        }),
{
    let text = trimmed(part);
    let at = path.len() as int;
    lemma_last_place(text, ':');
    assert(text[at] == ':');
    let p = last_position(text, ':');
    if p > at {
        assert(mode[p - at - 1] == ':');
    }
    assert(text.take(at) =~= path);
    assert(text.skip(at + 1) =~= mode);
    reveal_strlit("rw");
    reveal_strlit("write");
    reveal_strlit("writable");
    reveal_strlit("ro");
    reveal_strlit("read");
    reveal_strlit("readonly");
    reveal_strlit("read-only");
    assert("rw"@[1] == 'w' && "ro"@[1] == 'o' && "write"@[0] == 'w' && "writable"@[0] == 'w'
        && "read"@[1] == 'e' && "readonly"@[1] == 'e' && "read-only"@[1] == 'e' && "rw"@[0] == 'r'
        && "ro"@[0] == 'r' && "read"@[0] == 'r' && "readonly"@[0] == 'r' && "read-only"@[0] == 'r');
}

/// A grant of several parts: where every mode is one, each part's path stands in its list, in
/// order, and nothing else does; else the first mode that is none is told.
pub proof fn lemma_parts_add_up(parts: Seq<Seq<char>>, part: Seq<char>)
    ensures
        grants(Seq::<Seq<char>>::empty()) == Ok::<(Seq<Seq<char>>, Seq<Seq<char>>), Seq<char>>(
            (Seq::<Seq<char>>::empty(), Seq::<Seq<char>>::empty()),
        ),
        grants(parts) matches Err(mode) ==> grants(parts.push(part)) == Err::<
            (Seq<Seq<char>>, Seq<Seq<char>>),
            Seq<char>,
        >(mode),
        grants(parts) matches Ok(lists) ==> {
            &&& part_grant(part) is Nothing ==> grants(parts.push(part)) == grants(parts)
            &&& part_grant(part) matches FsGrant::Writable(path) ==> grants(parts.push(part))
                == Ok::<(Seq<Seq<char>>, Seq<Seq<char>>), Seq<char>>((lists.0.push(path), lists.1))
            &&& part_grant(part) matches FsGrant::Readonly(path) ==> grants(parts.push(part))
                == Ok::<(Seq<Seq<char>>, Seq<Seq<char>>), Seq<char>>((lists.0, lists.1.push(path)))
            &&& part_grant(part) matches FsGrant::UnknownMode(mode) ==> grants(parts.push(part))
                == Err::<(Seq<Seq<char>>, Seq<Seq<char>>), Seq<char>>(mode)
        },
{
    assert(parts.push(part).drop_last() =~= parts);
}

proof fn lemma_part_is_granted(parts: Seq<Seq<char>>, i: int)
    requires
        0 <= i < parts.len(),
        grants(parts) is Ok,
    ensures
        !(part_grant(parts[i]) is UnknownMode),
        part_grant(parts[i]) matches FsGrant::Writable(path) ==> grants(parts)->Ok_0.0.contains(path),
        part_grant(parts[i]) matches FsGrant::Readonly(path) ==> grants(parts)->Ok_0.1.contains(path),
    decreases parts.len(),
{
    let t = parts.drop_last();
    let (w, r) = grants(parts)->Ok_0;
    let (bw, br) = grants(t)->Ok_0;
    if i < t.len() {
        assert(t[i] == parts[i]);
        lemma_part_is_granted(t, i);
        match part_grant(parts[i]) {
            FsGrant::Writable(path) => {
                let k = choose|k: int| 0 <= k < bw.len() && bw[k] == path;
                assert(w[k] == path);
            },
            FsGrant::Readonly(path) => {
                let k = choose|k: int| 0 <= k < br.len() && br[k] == path;
                assert(r[k] == path);
            },
            _ => {},
        }
    } else {
        match part_grant(parts[i]) {
            FsGrant::Writable(path) => {
                assert(w[w.len() - 1] == path);
            },
            FsGrant::Readonly(path) => {
                assert(r[r.len() - 1] == path);
            },
            _ => {},
        }
    }
}

proof fn lemma_grant_has_a_part(parts: Seq<Seq<char>>, path: Seq<char>)
    requires
        grants(parts) is Ok,
    ensures
        grants(parts)->Ok_0.0.contains(path) ==> exists|i: int|
            0 <= i < parts.len() && part_grant(#[trigger] parts[i]) == FsGrant::Writable(path),
        grants(parts)->Ok_0.1.contains(path) ==> exists|i: int|
            0 <= i < parts.len() && part_grant(#[trigger] parts[i]) == FsGrant::Readonly(path),
    decreases parts.len(),
{
    if parts.len() > 0 {
        let t = parts.drop_last();
        let (w, r) = grants(parts)->Ok_0;
        let (bw, br) = grants(t)->Ok_0;
        lemma_grant_has_a_part(t, path);
        if w.contains(path) {
            let k = choose|k: int| 0 <= k < w.len() && w[k] == path;
            if k < bw.len() {
                assert(bw[k] == path);
                let i = choose|i: int|
                    0 <= i < t.len() && part_grant(#[trigger] t[i]) == FsGrant::Writable(path);
                assert(parts[i] == t[i]);
            } else {
                assert(part_grant(parts[parts.len() - 1]) == FsGrant::Writable(path));
            }
        }
        if r.contains(path) {
            let k = choose|k: int| 0 <= k < r.len() && r[k] == path;
            if k < br.len() {
                assert(br[k] == path);
                let i = choose|i: int|
                    0 <= i < t.len() && part_grant(#[trigger] t[i]) == FsGrant::Readonly(path);
                assert(parts[i] == t[i]);
            } else {
                assert(part_grant(parts[parts.len() - 1]) == FsGrant::Readonly(path));
            }
        }
    }
}

/// A path is writable under a grant if and only if a part of it says so, and readable if and
/// only if a part says so; and no part of a grant that is taken has an unknown mode.
pub proof fn lemma_granted_paths(parts: Seq<Seq<char>>, path: Seq<char>)
    requires
        grants(parts) is Ok,
    ensures
        grants(parts)->Ok_0.0.contains(path) <==> exists|i: int|
            0 <= i < parts.len() && part_grant(#[trigger] parts[i]) == FsGrant::Writable(path),
        grants(parts)->Ok_0.1.contains(path) <==> exists|i: int|
            0 <= i < parts.len() && part_grant(#[trigger] parts[i]) == FsGrant::Readonly(path),
        forall|i: int| 0 <= i < parts.len() ==> !(part_grant(#[trigger] parts[i]) is UnknownMode),
{
    lemma_grant_has_a_part(parts, path);
    assert forall|i: int| 0 <= i < parts.len() implies !(part_grant(#[trigger] parts[i])
        is UnknownMode) by {
        lemma_part_is_granted(parts, i);
    }
    if exists|i: int|
        0 <= i < parts.len() && part_grant(#[trigger] parts[i]) == FsGrant::Writable(path) {
        let i = choose|i: int|
            0 <= i < parts.len() && part_grant(#[trigger] parts[i]) == FsGrant::Writable(path);
        lemma_part_is_granted(parts, i);
    }
    if exists|i: int|
        0 <= i < parts.len() && part_grant(#[trigger] parts[i]) == FsGrant::Readonly(path) {
        let i = choose|i: int|
            0 <= i < parts.len() && part_grant(#[trigger] parts[i]) == FsGrant::Readonly(path);
        lemma_part_is_granted(parts, i);
    }
}

/// Several grants: each is read by itself, and what they grant stands in the order in which
/// they are given.
pub proof fn lemma_grants_add_up(entries: Seq<Seq<char>>, entry: Seq<char>)
    ensures
        all_grants(Seq::<Seq<char>>::empty()) == Ok::<(Seq<Seq<char>>, Seq<Seq<char>>), Seq<char>>(
            (Seq::<Seq<char>>::empty(), Seq::<Seq<char>>::empty()),
        ),
        all_grants(entries) is Ok && grants(pieces(entry, ',')) is Ok ==> {
            let (a, b, c) = (
                all_grants(entries)->Ok_0,
                grants(pieces(entry, ','))->Ok_0,
                all_grants(entries.push(entry)),
            );
            &&& c is Ok
            &&& c->Ok_0.0 == a.0 + b.0
            &&& c->Ok_0.1 == a.1 + b.1
        },
        all_grants(entries) is Err ==> all_grants(entries.push(entry)) == all_grants(entries),
        all_grants(entries) is Ok ==> (grants(pieces(entry, ',')) matches Err(mode) ==> all_grants(
            entries.push(entry),
        ) == Err::<(Seq<Seq<char>>, Seq<Seq<char>>), Seq<char>>(
            "invalid filesystem allow spec: "@ + mode,
        )),
{
    assert(entries.push(entry).drop_last() =~= entries);
}

proof fn lemma_entry_is_granted(entries: Seq<Seq<char>>, i: int)
    requires
        0 <= i < entries.len(),
        all_grants(entries) is Ok,
    ensures
        grants(pieces(entries[i], ',')) is Ok,
        forall|path: Seq<char>|
            grants(pieces(entries[i], ','))->Ok_0.0.contains(path) ==> #[trigger] all_grants(
                entries,
            )->Ok_0.0.contains(path),
        forall|path: Seq<char>|
            grants(pieces(entries[i], ','))->Ok_0.1.contains(path) ==> #[trigger] all_grants(
                entries,
            )->Ok_0.1.contains(path),
    decreases entries.len(),
{
    let t = entries.drop_last();
    let (w, r) = all_grants(entries)->Ok_0;
    let (bw, br) = all_grants(t)->Ok_0;
    let g = grants(pieces(entries[i], ','))->Ok_0;
    if i < t.len() {
        assert(t[i] == entries[i]);
        lemma_entry_is_granted(t, i);
    }
    assert forall|path: Seq<char>| g.0.contains(path) implies #[trigger] w.contains(path) by {
        if i < t.len() {
            assert(bw.contains(path));
            let k = choose|k: int| 0 <= k < bw.len() && bw[k] == path;
            assert(w[k] == path);
        } else {
            let k = choose|k: int| 0 <= k < g.0.len() && g.0[k] == path;
            assert(w[bw.len() + k] == path);
        }
    }
    assert forall|path: Seq<char>| g.1.contains(path) implies #[trigger] r.contains(path) by {
        if i < t.len() {
            assert(br.contains(path));
            let k = choose|k: int| 0 <= k < br.len() && br[k] == path;
            assert(r[k] == path);
        } else {
            let k = choose|k: int| 0 <= k < g.1.len() && g.1[k] == path;
            assert(r[br.len() + k] == path);
        }
    }
}

/// Every setting of the command line is in its layer: level, limits and lists as they are
/// given, and each path under the heading of its mode. The command line denies nothing and
/// has no say on the rest of the network.
pub proof fn lemma_command_line_layer(args: PolicyArgs, layer: PolicyLayer)
    requires
        args.layer() == Ok::<PolicyLayer, Seq<char>>(layer),
    ensures
        layer.level == args.level,
        layer.max_cpu == args.max_cpu,
        layer.max_ram == opt_text(args.max_ram),
        layer.max_disk == opt_text(args.max_disk),
        layer.timeout == opt_text(args.timeout),
        layer.allow_net == opt_texts(args.allow_net),
        layer.env_passthrough == opt_texts(args.allow_env),
        layer.network_deny_all_other is None,
        layer.filesystem_deny is None,
        layer.env_deny is None,
        args.allow_fs is None ==> layer.filesystem_writable is None && layer.filesystem_readonly
            is None,
        args.allow_fs is Some ==> layer.filesystem_writable is Some && layer.filesystem_readonly
            is Some,
        args.allow_fs matches Some(entries) ==> forall|i: int, k: int|
            0 <= i < entries@.len() && 0 <= k < pieces(entries@[i]@, ',').len() ==> {
                let part = #[trigger] pieces(entries@[i]@, ',')[k];
                &&& !(part_grant(part) is UnknownMode)
                &&& part_grant(part) is Writable ==> layer.filesystem_writable->0.contains(
                    part_grant(part)->Writable_0,
                )
                &&& part_grant(part) is Readonly ==> layer.filesystem_readonly->0.contains(
                    part_grant(part)->Readonly_0,
                )
            },
{
    if let Some(entries) = args.allow_fs {
        let all = texts(entries@);
        assert forall|i: int, k: int|
            0 <= i < entries@.len() && 0 <= k < pieces(entries@[i]@, ',').len() implies {
            let part = #[trigger] pieces(entries@[i]@, ',')[k];
            &&& !(part_grant(part) is UnknownMode)
            &&& part_grant(part) is Writable ==> layer.filesystem_writable->0.contains(
                part_grant(part)->Writable_0,
            )
            &&& part_grant(part) is Readonly ==> layer.filesystem_readonly->0.contains(
                part_grant(part)->Readonly_0,
            )
        } by {
            assert(all[i] == entries@[i]@);
            lemma_entry_is_granted(all, i);
            lemma_part_is_granted(pieces(all[i], ','), k);
        }
    }
}

} // verus!
