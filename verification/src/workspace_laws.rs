//! What holds of workspaces: what a copy keeps, which record a name means, and what is told.
use crate::errors::SandboxFault;
use crate::launch::HostOs;
use crate::number::{decimal, signed_decimal};
use crate::paths::joined_path;
use crate::text::trimmed;
use crate::workspace::{
    chosen_home, copied, copy_action_of, creation_fault, list_lines, looked_up, meant, record_lines,
    restore_steps, run_lines, snapshot_index, snapshot_lines, stamped, tree_kind, slug,
    workspace_place, CopyAction, EntryKind, FileStepModel, Tree, WorkspaceRecord,
    WorkspaceRunSummary, WorkspaceSnapshotRecord,
};
use vstd::prelude::*;

verus! {

broadcast use vstd::seq::group_seq_axioms;

// ---------------------------------------------------------------------------
// Copies

/// What is left out of a copy: of files and directories only the three that tools keep for
/// themselves, `.microbox`, `.git` and `target`; and whatever is neither a file nor a
/// directory. Every other directory is gone through, every other file is copied.
pub proof fn lemma_left_out(name: Option<Seq<char>>, kind: EntryKind)
    ensures
        copy_action_of(name, kind) == CopyAction::Skip <==> {
            ||| kind == EntryKind::Other
            ||| name == Some(".microbox"@)
            ||| name == Some(".git"@)
            ||| name == Some("target"@)
        },
        kind == EntryKind::Directory && name != Some(".microbox"@) && name != Some(".git"@) && name
            != Some("target"@) ==> copy_action_of(name, kind) == CopyAction::Descend,
        kind == EntryKind::File && name != Some(".microbox"@) && name != Some(".git"@) && name
            != Some("target"@) ==> copy_action_of(name, kind) == CopyAction::Copy,
{
}

/// A copy is complete: a file under any other name than `.microbox`, `.git` and `target` is
/// in it with the same bytes, and a directory under any other name than these with the copy
/// of what it holds.
pub proof fn lemma_copy_is_complete(entries: Seq<(Option<Seq<char>>, Tree)>, i: int)
    requires
        0 <= i < entries.len(),
        entries[i].0 != Some(".microbox"@),
        entries[i].0 != Some(".git"@),
        entries[i].0 != Some("target"@),
    ensures
        entries[i].1 is File ==> copied(entries).contains(entries[i]),
        entries[i].1 matches Tree::Directory(inner) ==> copied(entries).contains(
            (entries[i].0, Tree::Directory(copied(inner))),
        ),
    decreases entries.len(),
{
    let t = entries.drop_last();
    let before = copied(t);
    let all = copied(entries);
    if i < t.len() {
        assert(t[i] == entries[i]);
        lemma_copy_is_complete(t, i);
        assert forall|e: (Option<Seq<char>>, Tree)| before.contains(e) implies all.contains(e) by {
            let k = choose|k: int| 0 <= k < before.len() && before[k] == e;
            assert(all[k] == e);
        }
    } else {
        if entries[i].1 is File || entries[i].1 is Directory {
            assert(all[before.len() as int] == all.last());
        }
    }
}

/// A copy holds nothing of its own: each entry of it is a file of the directory under its
/// name, or the copy of a directory of the directory under its name; and none is called
/// `.microbox`, `.git` or `target`.
pub proof fn lemma_copy_adds_nothing(entries: Seq<(Option<Seq<char>>, Tree)>, k: int) -> (i: int)
    requires
        0 <= k < copied(entries).len(),
    ensures
        0 <= i < entries.len(),
        entries[i].0 == copied(entries)[k].0,
        copied(entries)[k].0 != Some(".microbox"@),
        copied(entries)[k].0 != Some(".git"@),
        copied(entries)[k].0 != Some("target"@),
        copied(entries)[k].1 is File ==> entries[i].1 == copied(entries)[k].1,
        copied(entries)[k].1 matches Tree::Directory(inner) ==> (entries[i].1 matches Tree::Directory(
            there,
        ) && inner == copied(there)),
        !(copied(entries)[k].1 is Other),
    decreases entries.len(),
{
    let t = entries.drop_last();
    let before = copied(t);
    if k < before.len() {
        assert(copied(entries)[k] == before[k]);
        let i = lemma_copy_adds_nothing(t, k);
        assert(t[i] == entries[i]);
        i
    } else {
        entries.len() - 1
    }
}

/// Copying goes entry by entry: the copy of two lists of entries, one behind the other, is
/// the copy of the first with that of the second behind it.
pub proof fn lemma_copy_in_order(
    a: Seq<(Option<Seq<char>>, Tree)>,
    b: Seq<(Option<Seq<char>>, Tree)>,
)
    ensures
        copied(a + b) == copied(a) + copied(b),
    decreases b.len(),
{
    if b.len() == 0 {
        assert(a + b =~= a);
        assert(copied(a) + copied(b) =~= copied(a));
    } else {
        lemma_copy_in_order(a, b.drop_last());
        assert((a + b).drop_last() =~= a + b.drop_last());
        assert((a + b)[(a + b).len() - 1] == b[b.len() - 1]);
        assert(copied(a + b) =~= copied(a) + copied(b));
    }
}

/// The kind of an entry is what stands under its name.
pub proof fn lemma_entry_kinds(t: Tree)
    ensures
        t is File <==> tree_kind(t) == EntryKind::File,
        t is Directory <==> tree_kind(t) == EntryKind::Directory,
        t is Other <==> tree_kind(t) == EntryKind::Other,
{
}

/// A restore is two steps: the root is cleared, then the snapshot is copied into it.
pub proof fn lemma_restore_in_two_steps(root: Seq<char>, from: Seq<char>)
    ensures
        restore_steps(root, from).len() == 2,
        restore_steps(root, from)[0] == FileStepModel::Clear(root),
        restore_steps(root, from)[1] == (FileStepModel::Copy { from, to: root }),
{
}

// ---------------------------------------------------------------------------
// Names

/// A snapshot's name means the first snapshot of that name, and nothing where there is none.
pub proof fn lemma_first_snapshot(s: Seq<WorkspaceSnapshotRecord>, name: Seq<char>)
    ensures
        snapshot_index(s, name) matches Some(i) ==> 0 <= i < s.len() && s[i].name@ == name && (
        forall|j: int| 0 <= j < i ==> (#[trigger] s[j]).name@ != name),
        snapshot_index(s, name) is None ==> forall|j: int|
            0 <= j < s.len() ==> (#[trigger] s[j]).name@ != name,
    decreases s.len(),
{
    if s.len() > 0 {
        let t = s.drop_last();
        lemma_first_snapshot(t, name);
        assert forall|j: int| 0 <= j < t.len() implies t[j] == #[trigger] s[j] by {}
    }
}

proof fn lemma_meant_members(s: Seq<WorkspaceRecord>, key: Seq<char>)
    ensures
        forall|r: WorkspaceRecord| #[trigger]
            meant(s, key).contains(r) <==> s.contains(r) && (r.id@ == key || r.name@ == key),
        forall|i: int| 0 <= i < meant(s, key).len() ==> s.contains(#[trigger] meant(s, key)[i]),
    decreases s.len(),
{
    reveal(Seq::filter);
    if s.len() > 0 {
        let t = s.drop_last();
        lemma_meant_members(t, key);
        let (m, all) = (meant(t, key), meant(s, key));
        assert forall|r: WorkspaceRecord| #[trigger] all.contains(r) <==> s.contains(r) && (r.id@
            == key || r.name@ == key) by {
            if s.contains(r) {
                let j = choose|j: int| 0 <= j < s.len() && s[j] == r;
                if j < t.len() {
                    assert(t[j] == r);
                    assert(t.contains(r));
                }
            }
            if t.contains(r) {
                let j = choose|j: int| 0 <= j < t.len() && t[j] == r;
                assert(s[j] == r);
            }
            if m.contains(r) {
                let j = choose|j: int| 0 <= j < m.len() && m[j] == r;
                assert(all[j] == r);
            }
            if all.contains(r) {
                let j = choose|j: int| 0 <= j < all.len() && all[j] == r;
                if j < m.len() {
                    assert(m[j] == r);
                } else {
                    assert(s[s.len() - 1] == r);
                }
            }
            if r == s.last() && (r.id@ == key || r.name@ == key) {
                assert(all[m.len() as int] == r);
            }
        }
        assert forall|i: int| 0 <= i < all.len() implies s.contains(#[trigger] all[i]) by {
            assert(all.contains(all[i]));
        }
    }
}

proof fn lemma_two_meant(s: Seq<WorkspaceRecord>, key: Seq<char>, i: int, j: int)
    requires
        0 <= i < j < s.len(),
        s[i].id@ == key || s[i].name@ == key,
        s[j].id@ == key || s[j].name@ == key,
    ensures
        meant(s, key).len() >= 2,
    decreases s.len(),
{
    reveal(Seq::filter);
    let t = s.drop_last();
    if j < t.len() {
        lemma_two_meant(t, key, i, j);
    } else {
        lemma_meant_members(t, key);
        assert(t[i] == s[i]);
        assert(t.contains(s[i]));
        assert(meant(t, key).contains(s[i]));
    }
}

/// The record bears the key as its name or as its identifier.
pub open spec fn bears(r: WorkspaceRecord, key: Seq<char>) -> bool {
    r.id@ == key || r.name@ == key
}

/// Which workspace a name or an identifier means: one whose own name or identifier it is.
/// Where no workspace has it, none is found; where two have it, it is ambiguous.
pub proof fn lemma_what_a_key_means(s: Seq<WorkspaceRecord>, key: Seq<char>)
    ensures
        looked_up(s, key) matches Ok(r) ==> s.contains(r) && bears(r, key),
        looked_up(s, key) is Ok ==> (exists|i: int| 0 <= i < s.len() && bears(#[trigger] s[i], key))
            && (forall|i: int, j: int|
            0 <= i < j < s.len() ==> !(bears(#[trigger] s[i], key) && bears(#[trigger] s[j], key))),
        (forall|i: int| 0 <= i < s.len() ==> !bears(#[trigger] s[i], key)) ==> looked_up(s, key)
            == Err::<WorkspaceRecord, SandboxFault>(
            SandboxFault::Policy("workspace not found: "@ + key),
        ),
        (exists|i: int, j: int|
            0 <= i < j < s.len() && bears(#[trigger] s[i], key) && bears(#[trigger] s[j], key))
            ==> looked_up(s, key) == Err::<WorkspaceRecord, SandboxFault>(
            SandboxFault::Policy("workspace name is ambiguous: "@ + key),
        ),
        (exists|i: int| 0 <= i < s.len() && bears(#[trigger] s[i], key)) && (forall|i: int, j: int|
            0 <= i < j < s.len() ==> !(bears(#[trigger] s[i], key) && bears(#[trigger] s[j], key)))
            ==> looked_up(s, key) is Ok,
{
    lemma_meant_members(s, key);
    let m = meant(s, key);
    if m.len() > 0 {
        assert(m.contains(m[0]));
        let i = choose|i: int| 0 <= i < s.len() && s[i] == m[0];
        assert(bears(s[i], key));
    } else {
        assert forall|i: int| 0 <= i < s.len() implies !bears(#[trigger] s[i], key) by {
            if bears(s[i], key) {
                assert(s.contains(s[i]));
                assert(m.contains(s[i]));
            }
        }
    }
    assert forall|i: int, j: int|
        0 <= i < j < s.len() && bears(#[trigger] s[i], key) && bears(#[trigger] s[j], key)
            implies m.len() >= 2 by {
        lemma_two_meant(s, key, i, j);
    }
    if m.len() >= 2 {
        lemma_two_bear(s, key);
    }
}

proof fn lemma_two_bear(s: Seq<WorkspaceRecord>, key: Seq<char>)
    requires
        meant(s, key).len() >= 2,
    ensures
        exists|i: int, j: int|
            0 <= i < j < s.len() && bears(#[trigger] s[i], key) && bears(#[trigger] s[j], key),
    decreases s.len(),
{
    reveal(Seq::filter);
    let t = s.drop_last();
    if meant(t, key).len() >= 2 {
        lemma_two_bear(t, key);
        let (i, j) = choose|i: int, j: int|
            0 <= i < j < t.len() && bears(#[trigger] t[i], key) && bears(#[trigger] t[j], key);
        assert(bears(s[i], key) && bears(s[j], key));
    } else {
        lemma_meant_members(t, key);
        let m = meant(t, key);
        assert(m.contains(m[0]));
        let i = choose|i: int| 0 <= i < t.len() && t[i] == m[0];
        assert(bears(s[i], key) && bears(s[s.len() - 1], key));
    }
}

/// When a workspace can be made: its source exists and no workspace has its name.
pub proof fn lemma_when_made(
    existing: Seq<WorkspaceRecord>,
    name: Seq<char>,
    source: Seq<char>,
    source_exists: bool,
)
    ensures
        creation_fault(existing, name, source, source_exists) is None <==> source_exists && (forall|
            i: int,
        |
            0 <= i < existing.len() ==> #[trigger] existing[i].name@ != name),
        !source_exists ==> creation_fault(existing, name, source, source_exists) == Some(
            SandboxFault::Io("source directory does not exist: "@ + source),
        ),
        source_exists && (exists|i: int|
            0 <= i < existing.len() && #[trigger] existing[i].name@ == name) ==> creation_fault(
            existing,
            name,
            source,
            source_exists,
        ) == Some(SandboxFault::Policy("workspace name already exists: "@ + name)),
{
}

/// An identifier is the slug of the name, a dash, and the time.
pub proof fn lemma_stamp(name: Seq<char>, now: u64)
    ensures
        stamped(name, now).take(slug(name).len() as int) == slug(name),
        stamped(name, now)[slug(name).len() as int] == '-',
        stamped(name, now).skip(slug(name).len() as int + 1) == decimal(now as nat),
{
    reveal_strlit("-");
    let s = stamped(name, now);
    assert(s.take(slug(name).len() as int) =~= slug(name));
    assert(s.skip(slug(name).len() as int + 1) =~= decimal(now as nat));
}

// ---------------------------------------------------------------------------
// Places

/// Which store is meant. One that is named wins over the environment; a variable that is
/// blank is as good as none; `MICROBOX_HOME` names the store itself, the directories of the
/// user and the current directory hold it under `.microbox`.
pub proof fn lemma_which_home(
    os: HostOs,
    named: Option<Seq<char>>,
    microbox_home: Option<Seq<char>>,
    home: Option<Seq<char>>,
    profile: Option<Seq<char>>,
    current_dir: Option<Seq<char>>,
)
    ensures
        ({
            let chosen = chosen_home(os, named, microbox_home, home, profile, current_dir);
            let given = |v: Option<Seq<char>>| v is Some && trimmed(v->0).len() > 0;
            &&& named is Some ==> chosen == named->0
            &&& named is None && given(microbox_home) ==> chosen == microbox_home->0
            &&& named is None && !given(microbox_home) && given(home) ==> chosen == joined_path(
                os,
                home->0,
                ".microbox"@,
            )
            &&& named is None && !given(microbox_home) && !given(home) && given(profile) ==> chosen
                == joined_path(os, profile->0, ".microbox"@)
            &&& named is None && !given(microbox_home) && !given(home) && !given(profile)
                && current_dir is Some ==> chosen == joined_path(os, current_dir->0, ".microbox"@)
            &&& named is None && !given(microbox_home) && !given(home) && !given(profile)
                && current_dir is None ==> chosen == joined_path(os, "."@, ".microbox"@)
        }),
{
}

/// A workspace stands under its identifier in the directory `workspaces` of the store.
pub proof fn lemma_workspace_place(os: HostOs, home: Seq<char>, id: Seq<char>)
    ensures
        workspace_place(os, home, id) == joined_path(os, joined_path(os, home, "workspaces"@), id),
{
}

// ---------------------------------------------------------------------------
// What is told

/// What is told of a workspace: each of its settings on a line of its own, and behind them
/// a line for each snapshot, in order.
pub proof fn lemma_record_lines(w: WorkspaceRecord, action: Seq<char>, note: Seq<char>)
    ensures
        ({
            let lines = record_lines(w, action, note);
            &&& lines[0] == "MicroBox workspace "@ + action
            &&& lines[1] == "id = "@ + w.id@
            &&& lines[2] == "name = "@ + w.name@
            &&& lines[3] == "root = "@ + w.root@
            &&& w.source matches Some(path) ==> lines[4] == "source = "@ + path@
            &&& w.source is None ==> lines[4] == "source = "@ + "-"@
            &&& lines[5] == "created_at_unix = "@ + decimal(w.created_at_unix as nat)
            &&& lines[6] == "updated_at_unix = "@ + decimal(w.updated_at_unix as nat)
            &&& lines[7] == "snapshot_count = "@ + decimal(w.snapshots@.len())
            &&& lines[8] == "note = "@ + note
            &&& w.snapshots@.len() == 0 ==> lines.len() == 9
            &&& w.snapshots@.len() > 0 ==> lines.len() == 10 + w.snapshots@.len() && lines[9]
                == "snapshots:"@
            &&& forall|k: int|
                0 <= k < w.snapshots@.len() ==> lines[10 + k] == "  - "@ + (
                #[trigger] w.snapshots@[k]).name@ + " @ "@ + w.snapshots@[k].path@
        }),
{
    let told = snapshot_lines(w.snapshots@);
    assert forall|k: int| 0 <= k < w.snapshots@.len() implies record_lines(w, action, note)[10 + k]
        == "  - "@ + (#[trigger] w.snapshots@[k]).name@ + " @ "@ + w.snapshots@[k].path@ by {
        assert(record_lines(w, action, note)[10 + k] == told[k]);
    }
}

/// What is told of a store: where it is, and one line for each workspace, in order.
pub proof fn lemma_list_lines(home: Seq<char>, s: Seq<WorkspaceRecord>)
    ensures
        list_lines(home, s)[0] == "MicroBox workspaces"@,
        list_lines(home, s)[1] == "home = "@ + home,
        s.len() == 0 ==> list_lines(home, s).len() == 3 && list_lines(home, s)[2]
            == "no workspaces found"@,
        s.len() > 0 ==> list_lines(home, s).len() == 2 + s.len(),
        forall|k: int|
            0 <= k < s.len() ==> list_lines(home, s)[2 + k] == "- "@ + (#[trigger] s[k]).name@
                + " ("@ + s[k].id@ + ") snapshots="@ + decimal(s[k].snapshots@.len()) + " root="@
                + s[k].root@,
{
}

/// What is told of a run in a workspace.
pub proof fn lemma_run_lines(name: Seq<char>, summary: WorkspaceRunSummary)
    ensures
        run_lines(name, summary).len() == 6,
        run_lines(name, summary)[1] == "workspace = "@ + name,
        run_lines(name, summary)[2] == "command = "@ + summary.command@,
        run_lines(name, summary)[3] == "exit_code = "@ + signed_decimal(summary.exit_code as int),
        run_lines(name, summary)[4] == "duration_ms = "@ + decimal(summary.duration_ms as nat),
        summary.timed_out ==> run_lines(name, summary)[5] == "timed_out = "@ + "true"@,
        !summary.timed_out ==> run_lines(name, summary)[5] == "timed_out = "@ + "false"@,
{
}

} // verus!
