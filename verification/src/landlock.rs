//! Filesystem confinement: which rights the kernel handles, and which the sandboxed
//! process gets on which paths.
use crate::launch::HostOs;
use crate::paths::{any_covers, covers, covers_any, is_above, is_covered, parent, parent_path};
use crate::text::{opt_text, texts};
use vstd::prelude::*;

verus! {

broadcast use vstd::seq::group_seq_axioms;

pub const LANDLOCK_ACCESS_FS_EXECUTE: u64 = 0x1;

pub const LANDLOCK_ACCESS_FS_WRITE_FILE: u64 = 0x2;

pub const LANDLOCK_ACCESS_FS_READ_FILE: u64 = 0x4;

pub const LANDLOCK_ACCESS_FS_READ_DIR: u64 = 0x8;

pub const LANDLOCK_ACCESS_FS_REMOVE_DIR: u64 = 0x10;

pub const LANDLOCK_ACCESS_FS_REMOVE_FILE: u64 = 0x20;

pub const LANDLOCK_ACCESS_FS_MAKE_CHAR: u64 = 0x40;

pub const LANDLOCK_ACCESS_FS_MAKE_DIR: u64 = 0x80;

pub const LANDLOCK_ACCESS_FS_MAKE_REG: u64 = 0x100;

pub const LANDLOCK_ACCESS_FS_MAKE_SOCK: u64 = 0x200;

pub const LANDLOCK_ACCESS_FS_MAKE_FIFO: u64 = 0x400;

pub const LANDLOCK_ACCESS_FS_MAKE_BLOCK: u64 = 0x800;

pub const LANDLOCK_ACCESS_FS_MAKE_SYM: u64 = 0x1000;

pub const LANDLOCK_ACCESS_FS_REFER: u64 = 0x2000;

pub const LANDLOCK_ACCESS_FS_TRUNCATE: u64 = 0x4000;

pub const LANDLOCK_ACCESS_FS_IOCTL_DEV: u64 = 0x8000;

/// The kind of rule that grants rights beneath a path.
pub const LANDLOCK_RULE_PATH_BENEATH: u32 = 1;

/// The rights that a version of the interface handles: thirteen from the start, then one
/// more with each of the next three versions.
pub open spec fn handled_rights(version: u32) -> u64 {
    if version >= 4 {
        0xffff
    } else if version == 3 {
        0x7fff
    } else if version == 2 {
        0x3fff
    } else {
        0x1fff
    }
}

/// The rights on a read-only path: execute and read; from the second version on, also to
/// link and rename between directories.
pub open spec fn reading_rights(version: u32) -> u64 {
    if version >= 2 {
        0x200d
    } else {
        0xd
    }
}

/// Every right by which contents or directories change.
pub open spec fn changing_rights() -> u64 {
    0x5ff2
}

/// The rights that a version handles.
pub fn landlock_access_mask(version: u32) -> (access: u64)
    ensures
        access == handled_rights(version),
{
    let mut access: u64 = LANDLOCK_ACCESS_FS_EXECUTE | LANDLOCK_ACCESS_FS_WRITE_FILE
        | LANDLOCK_ACCESS_FS_READ_FILE | LANDLOCK_ACCESS_FS_READ_DIR | LANDLOCK_ACCESS_FS_REMOVE_DIR
        | LANDLOCK_ACCESS_FS_REMOVE_FILE | LANDLOCK_ACCESS_FS_MAKE_CHAR
        | LANDLOCK_ACCESS_FS_MAKE_DIR | LANDLOCK_ACCESS_FS_MAKE_REG | LANDLOCK_ACCESS_FS_MAKE_SOCK
        | LANDLOCK_ACCESS_FS_MAKE_FIFO | LANDLOCK_ACCESS_FS_MAKE_BLOCK
        | LANDLOCK_ACCESS_FS_MAKE_SYM;
    proof {
        lemma_first_rights();
        lemma_added_rights();
    }
    if version >= 2 {
        access = access | LANDLOCK_ACCESS_FS_REFER;
    }
    if version >= 3 {
        access = access | LANDLOCK_ACCESS_FS_TRUNCATE;
    }
    if version >= 4 {
        access = access | LANDLOCK_ACCESS_FS_IOCTL_DEV;
    }
    access
}

proof fn lemma_first_rights()
    by (bit_vector)
    ensures
        LANDLOCK_ACCESS_FS_EXECUTE | LANDLOCK_ACCESS_FS_WRITE_FILE | LANDLOCK_ACCESS_FS_READ_FILE
            | LANDLOCK_ACCESS_FS_READ_DIR | LANDLOCK_ACCESS_FS_REMOVE_DIR
            | LANDLOCK_ACCESS_FS_REMOVE_FILE | LANDLOCK_ACCESS_FS_MAKE_CHAR
            | LANDLOCK_ACCESS_FS_MAKE_DIR | LANDLOCK_ACCESS_FS_MAKE_REG
            | LANDLOCK_ACCESS_FS_MAKE_SOCK | LANDLOCK_ACCESS_FS_MAKE_FIFO
            | LANDLOCK_ACCESS_FS_MAKE_BLOCK | LANDLOCK_ACCESS_FS_MAKE_SYM == 0x1fff,
        LANDLOCK_ACCESS_FS_EXECUTE | LANDLOCK_ACCESS_FS_READ_FILE | LANDLOCK_ACCESS_FS_READ_DIR
            == 0xd,
{
}

proof fn lemma_added_rights()
    by (bit_vector)
    ensures
        0x1fffu64 | LANDLOCK_ACCESS_FS_REFER == 0x3fff,
        0x3fffu64 | LANDLOCK_ACCESS_FS_TRUNCATE == 0x7fff,
        0x7fffu64 | LANDLOCK_ACCESS_FS_IOCTL_DEV == 0xffff,
        0xdu64 | LANDLOCK_ACCESS_FS_REFER == 0x200d,
{
}

/// The rights on a read-only path.
pub fn landlock_readonly_access(version: u32) -> (access: u64)
    ensures
        access == reading_rights(version),
{
    let mut access: u64 = LANDLOCK_ACCESS_FS_EXECUTE | LANDLOCK_ACCESS_FS_READ_FILE
        | LANDLOCK_ACCESS_FS_READ_DIR;
    proof {
        lemma_first_rights();
        lemma_added_rights();
    }
    if version >= 2 {
        access = access | LANDLOCK_ACCESS_FS_REFER;
    }
    access
}

/// A read-only path grants no right by which anything changes, and only rights that the
/// version handles.
pub proof fn lemma_readonly_is_read_only(version: u32)
    ensures
        reading_rights(version) & changing_rights() == 0,
        reading_rights(version) & handled_rights(version) == reading_rights(version),
{
    assert(0x200du64 & 0x5ff2u64 == 0 && 0xdu64 & 0x5ff2u64 == 0) by (bit_vector);
    assert(0x200du64 & 0xffffu64 == 0x200du64 && 0x200du64 & 0x7fffu64 == 0x200du64 && 0x200du64
        & 0x3fffu64 == 0x200du64 && 0xdu64 & 0x1fffu64 == 0xdu64) by (bit_vector);
}

/// A newer version handles every right that an older one does.
pub proof fn lemma_newer_version_handles_more(older: u32, newer: u32)
    requires
        older <= newer,
    ensures
        handled_rights(older) & handled_rights(newer) == handled_rights(older),
{
    assert(0x1fffu64 & 0x1fffu64 == 0x1fffu64 && 0x1fffu64 & 0x3fffu64 == 0x1fffu64 && 0x1fffu64
        & 0x7fffu64 == 0x1fffu64 && 0x1fffu64 & 0xffffu64 == 0x1fffu64) by (bit_vector);
    assert(0x3fffu64 & 0x3fffu64 == 0x3fffu64 && 0x3fffu64 & 0x7fffu64 == 0x3fffu64 && 0x3fffu64
        & 0xffffu64 == 0x3fffu64) by (bit_vector);
    assert(0x7fffu64 & 0x7fffu64 == 0x7fffu64 && 0x7fffu64 & 0xffffu64 == 0x7fffu64 && 0xffffu64
        & 0xffffu64 == 0xffffu64) by (bit_vector);
}

// ---------------------------------------------------------------------------
// Rules

/// The path that a rule is attached to: the path itself where it exists, else the
/// directory it would stand in.
pub open spec fn rule_target(path: Seq<char>, exists_now: bool) -> Option<Seq<char>> {
    if exists_now {
        Some(path)
    } else {
        parent_path(path)
    }
}

/// The path that a rule for `path` is attached to.
pub fn landlock_target_path(path: &str, exists_now: bool) -> (out: Option<String>)
    ensures
        match rule_target(path@, exists_now) {
            Some(target) => out matches Some(text) && text@ == target,
            None => out is None,
        },
{
    if exists_now {
        Some(path.to_string())
    } else {
        parent(path)
    }
}

/// A grant of rights beneath a path.
#[derive(Debug, Clone)]
pub struct LandlockRule {
    pub path: String,
    pub access: u64,
}

/// The contents of a list of rules.
pub open spec fn rule_views(rules: Seq<LandlockRule>) -> Seq<(Seq<char>, u64)> {
    Seq::new(rules.len(), |i: int| (rules[i].path@, rules[i].access))
}

/// A rule beneath the path would grant something of a hidden path: the one lies at or
/// below the other.
pub open spec fn touches_hidden(hidden: Seq<Seq<char>>, path: Seq<char>) -> bool {
    any_covers(HostOs::Linux, hidden, path) || covers_any(HostOs::Linux, path, hidden)
}

/// The rules that give `access` on those of the paths that have a target, unless a hidden
/// path is in the way.
pub open spec fn grant_rules(
    paths: Seq<Seq<char>>,
    exist: Seq<bool>,
    access: u64,
    hidden: Seq<Seq<char>>,
) -> Seq<(Seq<char>, u64)>
    decreases paths.len(),
{
    if paths.len() == 0 {
        Seq::<(Seq<char>, u64)>::empty()
    } else {
        let before = grant_rules(paths.drop_last(), exist, access, hidden);
        match rule_target(paths.last(), exist[paths.len() - 1]) {
            Some(target) => if touches_hidden(hidden, target) {
                before
            } else {
                before.push((target, access))
            },
            None => before,
        }
    }
}

/// What is told where the kernel has no filesystem confinement.
pub open spec fn landlock_unavailable() -> Seq<char> {
    "Landlock is not available on this kernel"@
}

/// The rules of a sandbox, in order: the read-only paths, the writable paths with every
/// right, and the program itself; none of them for a hidden path.
pub open spec fn sandbox_rules(
    version: u32,
    readonly: Seq<Seq<char>>,
    readonly_exist: Seq<bool>,
    writable: Seq<Seq<char>>,
    writable_exist: Seq<bool>,
    program: Option<Seq<char>>,
    program_exists: bool,
    hidden: Seq<Seq<char>>,
) -> Seq<(Seq<char>, u64)> {
    grant_rules(readonly, readonly_exist, reading_rights(version), hidden) + grant_rules(
        writable,
        writable_exist,
        handled_rights(version),
        hidden,
    ) + match program {
        Some(path) => grant_rules(
            seq![path],
            seq![program_exists],
            reading_rights(version),
            hidden,
        ),
        None => Seq::<(Seq<char>, u64)>::empty(),
    }
}

proof fn lemma_rule_views_push(rules: Seq<LandlockRule>, rule: LandlockRule)
    ensures
        rule_views(rules.push(rule)) == rule_views(rules).push((rule.path@, rule.access)),
{
    assert(rule_views(rules.push(rule)) =~= rule_views(rules).push((rule.path@, rule.access)));
}

fn push_grants(
    rules: &mut Vec<LandlockRule>,
    paths: &Vec<String>,
    exist: &Vec<bool>,
    access: u64,
    hidden: &Vec<String>,
)
    requires
        paths.len() == exist.len(),
    ensures
        rule_views(final(rules)@) == rule_views(old(rules)@) + grant_rules(
            texts(paths@),
            exist@,
            access,
            texts(hidden@),
        ),
{
    let ghost start = rule_views(rules@);
    let ghost all = texts(paths@);
    assert(rule_views(rules@) =~= start + grant_rules(all.take(0), exist@, access, texts(hidden@)));
    for i in 0..paths.len()
        invariant
            paths.len() == exist.len(),
            all == texts(paths@),
            rule_views(rules@) == start + grant_rules(
                all.take(i as int),
                exist@,
                access,
                texts(hidden@),
            ),
    {
        assert(all.take(i + 1).drop_last() =~= all.take(i as int));
        assert(all.take(i + 1).last() == paths@[i as int]@);
        if let Some(path) = landlock_target_path(paths[i].as_str(), exist[i]) {
            let os = HostOs::Linux;
            if !is_covered(os, hidden, path.as_str()) && !is_above(os, path.as_str(), hidden) {
                let rule = LandlockRule { path, access };
                proof {
                    lemma_rule_views_push(rules@, rule);
                }
                rules.push(rule);
                assert(rule_views(rules@) =~= start + grant_rules(
                    all.take(i + 1),
                    exist@,
                    access,
                    texts(hidden@),
                ));
            }
        }
    }
    assert(all.take(all.len() as int) =~= all);
}

/// The rules of a sandbox on a kernel with that version of the interface; version zero
/// means that there is none. The flags tell which of the paths exist.
pub fn landlock_rules(
    version: u32,
    readonly: &Vec<String>,
    readonly_exist: &Vec<bool>,
    writable: &Vec<String>,
    writable_exist: &Vec<bool>,
    program: &Option<String>,
    program_exists: bool,
    hidden: &Vec<String>,
) -> (r: Result<Vec<LandlockRule>, &'static str>)
    requires
        readonly.len() == readonly_exist.len(),
        writable.len() == writable_exist.len(),
    ensures
        if version == 0 {
            r matches Err(text) && text@ == landlock_unavailable()
        } else {
            r matches Ok(rules) && rule_views(rules@) == sandbox_rules(
                version,
                texts(readonly@),
                readonly_exist@,
                texts(writable@),
                writable_exist@,
                opt_text(*program),
                program_exists,
                texts(hidden@),
            )
        },
{
    if version == 0 {
        return Err("Landlock is not available on this kernel");
    }
    let handled = landlock_access_mask(version);
    let reading = landlock_readonly_access(version);
    let mut rules: Vec<LandlockRule> = Vec::new();
    assert(rule_views(rules@) =~= Seq::<(Seq<char>, u64)>::empty());
    push_grants(&mut rules, readonly, readonly_exist, reading, hidden);
    push_grants(&mut rules, writable, writable_exist, handled, hidden);
    if let Some(path) = program {
        let one: Vec<String> = vec![path.clone()];
        let flag: Vec<bool> = vec![program_exists];
        assert(texts(one@) =~= seq![path@]);
        assert(flag@ =~= seq![program_exists]);
        push_grants(&mut rules, &one, &flag, reading, hidden);
    }
    assert(rule_views(rules@) =~= sandbox_rules(
        version,
        texts(readonly@),
        readonly_exist@,
        texts(writable@),
        writable_exist@,
        opt_text(*program),
        program_exists,
        texts(hidden@),
    ));
    Ok(rules)
}

proof fn lemma_grant_access(
    paths: Seq<Seq<char>>,
    exist: Seq<bool>,
    access: u64,
    hidden: Seq<Seq<char>>,
    i: int,
)
    requires
        0 <= i < grant_rules(paths, exist, access, hidden).len(),
    ensures
        grant_rules(paths, exist, access, hidden)[i].1 == access,
        !touches_hidden(hidden, grant_rules(paths, exist, access, hidden)[i].0),
        exists|j: int|
            0 <= j < paths.len() && rule_target(#[trigger] paths[j], exist[j]) == Some(
                grant_rules(paths, exist, access, hidden)[i].0,
            ),
    decreases paths.len(),
{
    let before = grant_rules(paths.drop_last(), exist, access, hidden);
    if i < before.len() {
        lemma_grant_access(paths.drop_last(), exist, access, hidden, i);
        let j = choose|j: int|
            0 <= j < paths.drop_last().len() && rule_target(
                #[trigger] paths.drop_last()[j],
                exist[j],
            ) == Some(before[i].0);
        assert(paths[j] == paths.drop_last()[j]);
    } else {
        assert(paths[paths.len() - 1] == paths.last());
    }
}

/// Only writable paths are granted changes: a rule with a right by which anything changes
/// is attached to the target of one of the writable paths.
pub proof fn lemma_changes_only_beneath_writable(
    version: u32,
    readonly: Seq<Seq<char>>,
    readonly_exist: Seq<bool>,
    writable: Seq<Seq<char>>,
    writable_exist: Seq<bool>,
    program: Option<Seq<char>>,
    program_exists: bool,
    hidden: Seq<Seq<char>>,
    i: int,
)
    requires
        ({
            let rules = sandbox_rules(
                version,
                readonly,
                readonly_exist,
                writable,
                writable_exist,
                program,
                program_exists,
                hidden,
            );
            0 <= i < rules.len() && rules[i].1 & changing_rights() != 0
        }),
    ensures
        exists|j: int|
            0 <= j < writable.len() && rule_target(#[trigger] writable[j], writable_exist[j])
                == Some(
                sandbox_rules(
                    version,
                    readonly,
                    readonly_exist,
                    writable,
                    writable_exist,
                    program,
                    program_exists,
                    hidden,
                )[i].0,
            ),
{
    let reading = reading_rights(version);
    let handled = handled_rights(version);
    let first = grant_rules(readonly, readonly_exist, reading, hidden);
    let second = grant_rules(writable, writable_exist, handled, hidden);
    lemma_readonly_is_read_only(version);
    if i < first.len() {
        lemma_grant_access(readonly, readonly_exist, reading, hidden, i);
    } else if i < first.len() + second.len() {
        lemma_grant_access(writable, writable_exist, handled, hidden, i - first.len());
    } else {
        let path = program->0;
        lemma_grant_access(
            seq![path],
            seq![program_exists],
            reading,
            hidden,
            i - first.len() - second.len(),
        );
    }
}

/// No rule grants a hidden path: none is attached to it, above it or below it.
pub proof fn lemma_no_rule_for_hidden(
    version: u32,
    readonly: Seq<Seq<char>>,
    readonly_exist: Seq<bool>,
    writable: Seq<Seq<char>>,
    writable_exist: Seq<bool>,
    program: Option<Seq<char>>,
    program_exists: bool,
    hidden: Seq<Seq<char>>,
    i: int,
    path: Seq<char>,
)
    requires
        0 <= i < sandbox_rules(
            version,
            readonly,
            readonly_exist,
            writable,
            writable_exist,
            program,
            program_exists,
            hidden,
        ).len(),
        hidden.contains(path),
    ensures
        ({
            let target = sandbox_rules(
                version,
                readonly,
                readonly_exist,
                writable,
                writable_exist,
                program,
                program_exists,
                hidden,
            )[i].0;
            !covers(HostOs::Linux, target, path) && !covers(HostOs::Linux, path, target)
        }),
{
    let reading = reading_rights(version);
    let handled = handled_rights(version);
    let first = grant_rules(readonly, readonly_exist, reading, hidden);
    let second = grant_rules(writable, writable_exist, handled, hidden);
    if i < first.len() {
        lemma_grant_access(readonly, readonly_exist, reading, hidden, i);
    } else if i < first.len() + second.len() {
        lemma_grant_access(writable, writable_exist, handled, hidden, i - first.len());
    } else {
        let path = program->0;
        lemma_grant_access(
            seq![path],
            seq![program_exists],
            reading,
            hidden,
            i - first.len() - second.len(),
        );
    }
    let j = choose|j: int| 0 <= j < hidden.len() && hidden[j] == path;
    assert(hidden[j] == path);
}

/// What asking for the version came to.
#[derive(Debug, Clone, Copy, PartialEq, Eq, Structural)]
pub enum VersionReply {
    /// The version.
    Version(u32),
    /// The kernel does not know the call.
    NoSuchCall,
    /// Another error, by its number.
    Failed(i32),
}

/// The version that a reply tells: none at all where the kernel does not know the call.
/// Any other error is handed on.
pub fn landlock_version(reply: VersionReply) -> (r: Result<u32, i32>)
    ensures
        r == match reply {
            VersionReply::Version(v) => Ok::<u32, i32>(v),
            VersionReply::NoSuchCall => Ok::<u32, i32>(0),
            VersionReply::Failed(e) => Err::<u32, i32>(e),
        },
{
    match reply {
        VersionReply::Version(v) => Ok(v),
        VersionReply::NoSuchCall => Ok(0),
        VersionReply::Failed(e) => Err(e),
    }
}

} // verus!
