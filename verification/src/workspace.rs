//! Workspaces: directories that are kept, with snapshots to go back to.
use crate::errors::{SandboxError, SandboxFault};
use crate::launch::HostOs;
use crate::lists::push_line;
use crate::number::{decimal, decimal_text, signed_decimal, signed_decimal_text};
use crate::paths::{join_path, joined_path};
use crate::policy::{bool_name, bool_text};
use crate::request::ExecutionResult;
use crate::text::{
    alphanumeric, chars_of, concat, is_alphanumeric, is_empty, join, joined, lemma_strip_back,
    lemma_strip_front, lower, lower_char, lowered, opt_text, same_text, strip_back, strip_front, text_of, texts,
    trim, trimmed,
};
use vstd::prelude::*;
use vstd::seq_lib::lemma_multiset_commutative;
use vstd::slice::slice_subrange;

verus! {

broadcast use vstd::seq::group_seq_axioms;

/// A kept state of a workspace.
#[derive(Debug, Clone)]
pub struct WorkspaceSnapshotRecord {
    pub name: String,
    pub created_at_unix: u64,
    pub path: String,
}

/// A workspace.
#[derive(Debug, Clone)]
pub struct WorkspaceRecord {
    pub id: String,
    pub name: String,
    pub source: Option<String>,
    pub root: String,
    pub created_at_unix: u64,
    pub updated_at_unix: u64,
    pub snapshots: Vec<WorkspaceSnapshotRecord>,
}

// ---------------------------------------------------------------------------
// Names that are fit for directories

/// `s` in lower case, with one dash for every run of other characters than ASCII letters
/// and digits.
pub open spec fn dashed(s: Seq<char>) -> Seq<char>
    decreases s.len(),
{
    if s.len() == 0 {
        Seq::<char>::empty()
    } else {
        let before = dashed(s.drop_last());
        if is_alphanumeric(s.last()) {
            before.push(lower(s.last()))
        } else if before.len() > 0 && before.last() == '-' {
            before
        } else {
            before.push('-')
        }
    }
}

/// `s` without dashes at its ends.
pub open spec fn without_edge_dashes(s: Seq<char>) -> Seq<char> {
    strip_back(strip_front(s, |c: char| c == '-'), |c: char| c == '-')
}

/// The form of a name that is fit for a directory.
pub open spec fn slug(s: Seq<char>) -> Seq<char> {
    without_edge_dashes(dashed(s))
}

/// Lower-case ASCII letters, digits and single dashes, none of them at an end.
pub open spec fn is_slug(s: Seq<char>) -> bool {
    &&& forall|i: int|
        0 <= i < s.len() ==> ('a' <= #[trigger] s[i] <= 'z' || '0' <= s[i] <= '9' || s[i] == '-')
    &&& forall|i: int, j: int|
        0 <= i && j == i + 1 && j < s.len() ==> !(#[trigger] s[i] == '-' && #[trigger] s[j] == '-')
    &&& s.len() > 0 ==> s[0] != '-' && s.last() != '-'
}

proof fn lemma_dashed(s: Seq<char>)
    ensures
        forall|i: int|
            0 <= i < dashed(s).len() ==> ('a' <= #[trigger] dashed(s)[i] <= 'z' || '0' <= dashed(
                s,
            )[i] <= '9' || dashed(s)[i] == '-'),
        forall|i: int, j: int|
            0 <= i && j == i + 1 && j < dashed(s).len() ==> !(#[trigger] dashed(s)[i] == '-'
                && #[trigger] dashed(s)[j] == '-'),
    decreases s.len(),
{
    if s.len() > 0 {
        let before = dashed(s.drop_last());
        lemma_dashed(s.drop_last());
        let d = dashed(s);
        assert forall|i: int| 0 <= i < d.len() implies ('a' <= #[trigger] d[i] <= 'z' || '0'
            <= d[i] <= '9' || d[i] == '-') by {
            if i < before.len() {
                assert(d[i] == before[i]);
            }
        }
        assert forall|i: int, j: int| 0 <= i && j == i + 1 && j < d.len() implies !(#[trigger] d[i]
            == '-' && #[trigger] d[j] == '-') by {
            assert(d[i] == before[i]);
            if j < before.len() {
                assert(d[j] == before[j]);
            }
        }
    }
}

proof fn lemma_dashed_fixed(s: Seq<char>)
    requires
        forall|i: int|
            0 <= i < s.len() ==> ('a' <= #[trigger] s[i] <= 'z' || '0' <= s[i] <= '9' || s[i]
                == '-'),
        forall|i: int, j: int|
            0 <= i && j == i + 1 && j < s.len() ==> !(#[trigger] s[i] == '-' && #[trigger] s[j]
                == '-'),
    ensures
        dashed(s) == s,
    decreases s.len(),
{
    if s.len() > 0 {
        let t = s.drop_last();
        assert forall|i: int| 0 <= i < t.len() implies ('a' <= #[trigger] t[i] <= 'z' || '0'
            <= t[i] <= '9' || t[i] == '-') by {
            assert(t[i] == s[i]);
        }
        assert forall|i: int, j: int| 0 <= i && j == i + 1 && j < t.len() implies !(#[trigger] t[i]
            == '-' && #[trigger] t[j] == '-') by {
            assert(t[i] == s[i] && t[j] == s[j]);
        }
        lemma_dashed_fixed(t);
        let c = s[s.len() - 1];
        assert(c == s.last());
        if s.len() > 1 {
            assert(t.last() == s[s.len() - 2]);
        }
        assert(t.push(c) =~= s);
    } else {
        assert(dashed(s) =~= s);
    }
}

/// The ends of a text between its outermost characters that are no dashes.
proof fn lemma_edges(s: Seq<char>) -> (bounds: (int, int))
    ensures
        0 <= bounds.0 <= bounds.1 <= s.len(),
        without_edge_dashes(s) == s.subrange(bounds.0, bounds.1),
        bounds.0 < bounds.1 ==> s[bounds.0] != '-' && s[bounds.1 - 1] != '-',
        forall|j: int| 0 <= j < bounds.0 ==> s[j] == '-',
        forall|j: int| bounds.1 <= j < s.len() ==> s[j] == '-',
{
    let p = |c: char| c == '-';
    let start = lemma_front_edge(s, 0);
    lemma_strip_front(s, p, start);
    let rest = s.skip(start);
    let end = lemma_back_edge(rest, rest.len() as int);
    lemma_strip_back(rest, p, end);
    assert(rest.take(end) =~= s.subrange(start, start + end));
    if end > 0 {
        assert(rest[end - 1] == s[start + end - 1]);
        assert(rest[0] == s[start]);
    }
    assert forall|j: int| start + end <= j < s.len() implies s[j] == '-' by {
        assert(rest[j - start] == s[j]);
    }
    (start, start + end)
}

proof fn lemma_front_edge(s: Seq<char>, from: int) -> (i: int)
    requires
        0 <= from <= s.len(),
        forall|j: int| 0 <= j < from ==> s[j] == '-',
    ensures
        from <= i <= s.len(),
        forall|j: int| 0 <= j < i ==> s[j] == '-',
        i < s.len() ==> s[i] != '-',
    decreases s.len() - from,
{
    if from < s.len() && s[from] == '-' {
        lemma_front_edge(s, from + 1)
    } else {
        from
    }
}

proof fn lemma_back_edge(s: Seq<char>, to: int) -> (n: int)
    requires
        0 <= to <= s.len(),
        forall|j: int| to <= j < s.len() ==> s[j] == '-',
    ensures
        0 <= n <= to,
        forall|j: int| n <= j < s.len() ==> s[j] == '-',
        n > 0 ==> s[n - 1] != '-',
    decreases to,
{
    if to > 0 && s[to - 1] == '-' {
        lemma_back_edge(s, to - 1)
    } else {
        to
    }
}

/// The ASCII letters and digits of `s`, in lower case.
pub open spec fn letters(s: Seq<char>) -> Seq<char> {
    lowered(s.filter(|c: char| is_alphanumeric(c)))
}

/// `s` without its dashes.
pub open spec fn undashed(s: Seq<char>) -> Seq<char> {
    s.filter(|c: char| c != '-')
}

/// `front`, two letters in lower case with a dash between them where there is a gap, and
/// `back`.
pub open spec fn around(
    front: Seq<char>,
    x: char,
    gap: Seq<char>,
    y: char,
    back: Seq<char>,
) -> Seq<char> {
    front + seq![lower(x)] + if gap.len() > 0 {
        seq!['-']
    } else {
        Seq::<char>::empty()
    } + seq![lower(y)] + back
}

proof fn lemma_letters_push(s: Seq<char>, c: char)
    ensures
        letters(s.push(c)) == if is_alphanumeric(c) {
            letters(s).push(lower(c))
        } else {
            letters(s)
        },
        undashed(s.push(c)) == if c == '-' {
            undashed(s)
        } else {
            undashed(s).push(c)
        },
{
    reveal(Seq::filter);
    assert(s.push(c).drop_last() =~= s);
    if is_alphanumeric(c) {
        assert(letters(s.push(c)) =~= letters(s).push(lower(c)));
    }
}

proof fn lemma_undashed(s: Seq<char>)
    ensures
        undashed(dashed(s)) == letters(s),
    decreases s.len(),
{
    if s.len() == 0 {
        reveal(Seq::filter);
        assert(undashed(dashed(s)) =~= letters(s));
    } else {
        let t = s.drop_last();
        let c = s.last();
        lemma_undashed(t);
        assert(t.push(c) =~= s);
        lemma_letters_push(t, c);
        lemma_letters_push(dashed(t), lower(c));
        lemma_letters_push(dashed(t), '-');
    }
}

proof fn lemma_undashed_concat(a: Seq<char>, b: Seq<char>)
    ensures
        undashed(a + b) == undashed(a) + undashed(b),
    decreases b.len(),
{
    if b.len() == 0 {
        reveal(Seq::filter);
        assert(a + b =~= a);
        assert(undashed(a) + undashed(b) =~= undashed(a));
    } else {
        let t = b.drop_last();
        let c = b.last();
        lemma_undashed_concat(a, t);
        assert(t.push(c) =~= b);
        assert((a + t).push(c) =~= a + b);
        lemma_letters_push(t, c);
        lemma_letters_push(a + t, c);
        assert(undashed(a + b) =~= undashed(a) + undashed(b));
    }
}

proof fn lemma_undashed_dashes(s: Seq<char>)
    requires
        forall|i: int| 0 <= i < s.len() ==> s[i] == '-',
    ensures
        undashed(s) == Seq::<char>::empty(),
    decreases s.len(),
{
    if s.len() == 0 {
        reveal(Seq::filter);
        assert(undashed(s) =~= Seq::<char>::empty());
    } else {
        let t = s.drop_last();
        assert(t.push(s.last()) =~= s);
        assert(s[s.len() - 1] == '-');
        lemma_undashed_dashes(t);
        lemma_letters_push(t, s.last());
    }
}

/// What is dashed only grows with the text.
proof fn lemma_dashed_grows(s: Seq<char>, more: Seq<char>)
    ensures
        dashed(s).len() <= dashed(s + more).len(),
        dashed(s + more).take(dashed(s).len() as int) == dashed(s),
    decreases more.len(),
{
    if more.len() == 0 {
        assert(s + more =~= s);
        assert(dashed(s).take(dashed(s).len() as int) =~= dashed(s));
    } else {
        let t = more.drop_last();
        lemma_dashed_grows(s, t);
        assert((s + more).drop_last() =~= s + t);
        assert(dashed(s + more).take(dashed(s).len() as int) =~= dashed(s + t).take(
            dashed(s).len() as int,
        ));
    }
}

/// Behind a letter, any number of other characters leaves one dash, and none leaves none.
proof fn lemma_dashed_gap(s: Seq<char>, gap: Seq<char>)
    requires
        s.len() > 0,
        is_alphanumeric(s.last()),
        forall|i: int| 0 <= i < gap.len() ==> !is_alphanumeric(#[trigger] gap[i]),
    ensures
        dashed(s + gap) == dashed(s) + if gap.len() > 0 {
            seq!['-']
        } else {
            Seq::<char>::empty()
        },
    decreases gap.len(),
{
    if gap.len() == 0 {
        assert(s + gap =~= s);
        assert(dashed(s) + Seq::<char>::empty() =~= dashed(s));
    } else {
        let t = gap.drop_last();
        assert forall|i: int| 0 <= i < t.len() implies !is_alphanumeric(#[trigger] t[i]) by {
            assert(t[i] == gap[i]);
        }
        lemma_dashed_gap(s, t);
        assert((s + gap).drop_last() =~= s + t);
        assert((s + gap).last() == gap[gap.len() - 1]);
        assert(lower(s.last()) != '-');
        assert(dashed(s).last() == lower(s.last()));
        if t.len() == 0 {
            assert(dashed(s) + Seq::<char>::empty() =~= dashed(s));
            assert(dashed(s).push('-') =~= dashed(s) + seq!['-']);
        }
    }
}

/// A slug is made of lower-case ASCII letters, digits and single dashes between them, and
/// making a slug of a slug changes nothing. Without its dashes it is the ASCII letters and
/// digits of the name, in lower case and in order; it is empty where the name has none.
pub proof fn lemma_slug(s: Seq<char>)
    ensures
        is_slug(slug(s)),
        slug(slug(s)) == slug(s),
        undashed(slug(s)) == letters(s),
        slug(s).len() == 0 <==> letters(s).len() == 0,
        letters(s).len() == 0 <==> forall|i: int|
            0 <= i < s.len() ==> !is_alphanumeric(#[trigger] s[i]),
{
    let d = dashed(s);
    let t = slug(s);
    lemma_dashed(s);
    let bounds = lemma_edges(d);
    let start = bounds.0;
    let end = bounds.1;
    assert(t == d.subrange(start, end));
    assert forall|i: int| 0 <= i < t.len() implies ('a' <= #[trigger] t[i] <= 'z' || '0' <= t[i]
        <= '9' || t[i] == '-') by {
        assert(t[i] == d[start + i]);
    }
    assert forall|i: int, j: int| 0 <= i && j == i + 1 && j < t.len() implies !(#[trigger] t[i]
        == '-' && #[trigger] t[j] == '-') by {
        assert(t[i] == d[start + i] && t[j] == d[start + j]);
    }
    lemma_dashed_fixed(t);
    let p = |c: char| c == '-';
    lemma_strip_front(t, p, 0);
    assert(t.skip(0) =~= t);
    lemma_strip_back(t, p, t.len() as int);
    assert(t.take(t.len() as int) =~= t);

    lemma_undashed(s);
    lemma_undashed_dashes(d.take(start));
    lemma_undashed_dashes(d.skip(end));
    lemma_undashed_concat(d.take(start), t);
    lemma_undashed_concat(d.take(start) + t, d.skip(end));
    assert(d.take(start) + t + d.skip(end) =~= d);
    assert(undashed(t) =~= letters(s));
    let not_dash = |c: char| c != '-';
    if t.len() > 0 {
        t.lemma_filter_contains(not_dash, 0);
    } else {
        reveal(Seq::filter);
    }
    let kept = |c: char| is_alphanumeric(c);
    assert forall|i: int| 0 <= i < s.len() && is_alphanumeric(#[trigger] s[i]) implies letters(
        s,
    ).len() > 0 by {
        s.lemma_filter_contains(kept, i);
    }
    if letters(s).len() > 0 {
        let c = s.filter(kept)[0];
        s.lemma_filter_pred(kept, 0);
        s.lemma_filter_contains_rev(kept, c);
        let i = choose|i: int| 0 <= i < s.len() && s[i] == c;
        assert(is_alphanumeric(s[i]));
    }
}

/// Two letters that follow each other, with no other letter between them, are parted by a
/// dash in the slug if and only if something stood between them. They stand behind the
/// letters that stood before them, and before those that stood behind.
pub proof fn lemma_slug_neighbours(
    before: Seq<char>,
    x: char,
    gap: Seq<char>,
    y: char,
    behind: Seq<char>,
)
    requires
        is_alphanumeric(x),
        is_alphanumeric(y),
        forall|i: int| 0 <= i < gap.len() ==> !is_alphanumeric(#[trigger] gap[i]),
    ensures
        exists|front: Seq<char>, back: Seq<char>|
            #[trigger] around(front, x, gap, y, back) == slug(
                before + seq![x] + gap + seq![y] + behind,
            ) && undashed(front) == letters(before) && undashed(back) == letters(behind),
{
    let s = before + seq![x] + gap + seq![y] + behind;
    let first = before + seq![x];
    let second = first + gap;
    let third = second + seq![y];
    let parting = if gap.len() > 0 {
        seq!['-']
    } else {
        Seq::<char>::empty()
    };
    assert(first.drop_last() =~= before);
    assert(dashed(first) == dashed(before).push(lower(x)));
    lemma_dashed_gap(first, gap);
    assert(third.drop_last() =~= second);
    assert(dashed(third) == dashed(second).push(lower(y)));
    assert(third + behind =~= s);
    lemma_dashed_grows(third, behind);
    let d = dashed(s);
    let at = dashed(before).len() as int;
    let end_of_two = dashed(third).len() as int;
    let rest = d.skip(end_of_two);
    assert(d =~= dashed(third) + rest);
    assert(lower(x) != '-' && lower(y) != '-');
    assert(d[at] == lower(x)) by {
        assert(dashed(third)[at] == lower(x));
    }
    assert(d[end_of_two - 1] == lower(y)) by {
        assert(dashed(third)[end_of_two - 1] == lower(y));
    }
    let bounds = lemma_edges(d);
    let start = bounds.0;
    let end = bounds.1;
    assert(start <= at);
    assert(end >= end_of_two);
    let front = d.subrange(start, at);
    let back = d.subrange(end_of_two, end);
    assert(dashed(third).take(at) =~= dashed(before));
    assert(d.take(at) =~= dashed(before));
    assert(around(front, x, gap, y, back) =~= slug(s));

    lemma_undashed(before);
    lemma_undashed_dashes(d.take(start));
    lemma_undashed_concat(d.take(start), front);
    assert(d.take(start) + front =~= dashed(before));
    assert(undashed(front) =~= letters(before));

    lemma_undashed(s);
    lemma_undashed(third);
    lemma_undashed_concat(dashed(third), rest);
    lemma_letters_concat(third, behind);
    assert(undashed(rest) =~= letters(behind)) by {
        let n = letters(third).len() as int;
        assert((letters(third) + letters(behind)).skip(n) =~= letters(behind));
        assert((letters(third) + undashed(rest)).skip(n) =~= undashed(rest));
    }
    lemma_undashed_dashes(d.skip(end));
    lemma_undashed_concat(back, d.skip(end));
    assert(back + d.skip(end) =~= rest);
    assert(undashed(back) =~= letters(behind));
}

proof fn lemma_letters_concat(a: Seq<char>, b: Seq<char>)
    ensures
        letters(a + b) == letters(a) + letters(b),
    decreases b.len(),
{
    if b.len() == 0 {
        reveal(Seq::filter);
        assert(a + b =~= a);
        assert(letters(a) + letters(b) =~= letters(a));
    } else {
        let t = b.drop_last();
        let c = b.last();
        lemma_letters_concat(a, t);
        assert(t.push(c) =~= b);
        assert((a + t).push(c) =~= a + b);
        lemma_letters_push(t, c);
        lemma_letters_push(a + t, c);
        assert(letters(a + b) =~= letters(a) + letters(b));
    }
}

fn dash_text(input: &str) -> (out: Vec<char>)
    ensures
        out@ == dashed(input@),
{
    let chars = chars_of(input);
    let mut out: Vec<char> = Vec::new();
    for i in 0..chars.len()
        invariant
            chars@ == input@,
            out@ == dashed(input@.take(i as int)),
    {
        assert(input@.take(i + 1).drop_last() =~= input@.take(i as int));
        let c = chars[i];
        if alphanumeric(c) {
            out.push(lower_char(c));
        } else if out.len() == 0 || out[out.len() - 1] != '-' {
            out.push('-');
        }
    }
    assert(input@.take(chars@.len() as int) =~= input@);
    out
}

/// The form of a name that is fit for a directory.
pub fn slugify(input: &str) -> (out: String)
    ensures
        out@ == slug(input@),
{
    let chars = dash_text(input);
    let ghost p = |c: char| c == '-';
    let mut start: usize = 0;
    while start < chars.len() && chars[start] == '-'
        invariant
            start <= chars.len(),
            p == (|c: char| c == '-'),
            forall|j: int| 0 <= j < start ==> p(#[trigger] chars@[j]),
        decreases chars.len() - start,
    {
        start += 1;
    }
    proof {
        lemma_strip_front(chars@, p, start as int);
    }
    let ghost rest = chars@.skip(start as int);
    let mut end: usize = chars.len();
    while end > start && chars[end - 1] == '-'
        invariant
            start <= end <= chars.len(),
            p == (|c: char| c == '-'),
            rest == chars@.skip(start as int),
            forall|j: int| end - start <= j < rest.len() ==> p(#[trigger] rest[j]),
        decreases end,
    {
        end -= 1;
    }
    proof {
        if end > start {
            assert(rest[end - start - 1] == chars@[end - 1]);
        }
        lemma_strip_back(rest, p, end - start);
        assert(rest.take(end - start) =~= chars@.subrange(start as int, end as int));
    }
    text_of(slice_subrange(chars.as_slice(), start, end))
}

// ---------------------------------------------------------------------------
// Where workspaces are kept

/// The directory that workspaces are kept in.
#[derive(Debug, Clone)]
pub struct WorkspaceStore {
    pub home: String,
    /// The system whose rules the paths follow.
    pub os: HostOs,
}

/// The directory of a workspace.
pub open spec fn workspace_place(os: HostOs, home: Seq<char>, id: Seq<char>) -> Seq<char> {
    joined_path(os, joined_path(os, home, "workspaces"@), id)
}

impl WorkspaceStore {
    /// The store at `home`, on a machine with that system.
    pub fn new(home: String, os: HostOs) -> (store: WorkspaceStore)
        ensures
            store.home == home,
            store.os == os,
    {
        WorkspaceStore { home, os }
    }

    /// Where all workspaces stand.
    pub fn workspaces_dir(&self) -> (out: String)
        ensures
            out@ == joined_path(self.os, self.home@, "workspaces"@),
    {
        join_path(self.os, self.home.as_str(), "workspaces")
    }

    /// The directory of a workspace.
    pub fn workspace_dir(&self, id: &str) -> (out: String)
        ensures
            out@ == workspace_place(self.os, self.home@, id@),
    {
        join_path(self.os, self.workspaces_dir().as_str(), id)
    }

    /// The files of a workspace.
    pub fn workspace_root(&self, id: &str) -> (out: String)
        ensures
            out@ == joined_path(self.os, workspace_place(self.os, self.home@, id@), "root"@),
    {
        join_path(self.os, self.workspace_dir(id).as_str(), "root")
    }

    /// The snapshots of a workspace.
    pub fn snapshots_dir(&self, id: &str) -> (out: String)
        ensures
            out@ == joined_path(self.os, workspace_place(self.os, self.home@, id@), "snapshots"@),
    {
        join_path(self.os, self.workspace_dir(id).as_str(), "snapshots")
    }

    /// The records of the runs in a workspace.
    pub fn runs_dir(&self, id: &str) -> (out: String)
        ensures
            out@ == joined_path(self.os, workspace_place(self.os, self.home@, id@), "runs"@),
    {
        join_path(self.os, self.workspace_dir(id).as_str(), "runs")
    }

    /// The record of a workspace.
    pub fn metadata_path(&self, id: &str) -> (out: String)
        ensures
            out@ == joined_path(self.os, workspace_place(self.os, self.home@, id@), "workspace.json"@),
    {
        join_path(self.os, self.workspace_dir(id).as_str(), "workspace.json")
    }

    /// The record of a run that is written at the time `now`.
    pub fn run_record_path(&self, id: &str, now: u64) -> (out: String)
        ensures
            out@ == joined_path(
                self.os,
                joined_path(self.os, workspace_place(self.os, self.home@, id@), "runs"@),
                "run-"@ + decimal(now as nat) + ".json"@,
            ),
    {
        let mut name = concat("run-", decimal_text(now as u128).as_str());
        name.append(".json");
        join_path(self.os, self.runs_dir(id).as_str(), name.as_str())
    }
}

/// The store that the user means: the one named, else one in a directory of the user's,
/// else one in the current directory.
pub open spec fn chosen_home(
    os: HostOs,
    named: Option<Seq<char>>,
    microbox_home: Option<Seq<char>>,
    home: Option<Seq<char>>,
    profile: Option<Seq<char>>,
    current_dir: Option<Seq<char>>,
) -> Seq<char> {
    if named is Some {
        named->0
    } else if microbox_home is Some && trimmed(microbox_home->0).len() > 0 {
        microbox_home->0
    } else if home is Some && trimmed(home->0).len() > 0 {
        joined_path(os, home->0, ".microbox"@)
    } else if profile is Some && trimmed(profile->0).len() > 0 {
        joined_path(os, profile->0, ".microbox"@)
    } else {
        joined_path(
            os,
            match current_dir {
                Some(dir) => dir,
                None => "."@,
            },
            ".microbox"@,
        )
    }
}

/// The store that the user means. The variables are `MICROBOX_HOME`, `HOME` and
/// `USERPROFILE`.
pub fn workspace_home(
    os: HostOs,
    named: &Option<String>,
    microbox_home: &Option<String>,
    home: &Option<String>,
    profile: &Option<String>,
    current_dir: &Option<String>,
) -> (out: String)
    ensures
        out@ == chosen_home(
            os,
            opt_text(*named),
            opt_text(*microbox_home),
            opt_text(*home),
            opt_text(*profile),
            opt_text(*current_dir),
        ),
{
    if let Some(path) = named {
        return path.clone();
    }
    if let Some(path) = microbox_home {
        if !is_empty(trim(path.as_str()).as_str()) {
            return path.clone();
        }
    }
    if let Some(path) = home {
        if !is_empty(trim(path.as_str()).as_str()) {
            return join_path(os, path.as_str(), ".microbox");
        }
    }
    if let Some(path) = profile {
        if !is_empty(trim(path.as_str()).as_str()) {
            return join_path(os, path.as_str(), ".microbox");
        }
    }
    match current_dir {
        Some(dir) => join_path(os, dir.as_str(), ".microbox"),
        None => join_path(os, ".", ".microbox"),
    }
}

// ---------------------------------------------------------------------------
// Listing and finding

/// Where a record made at the time `at` goes in a list from old to new: behind all that
/// are not newer.
pub open spec fn age_position(s: Seq<WorkspaceRecord>, at: u64) -> int
    decreases s.len(),
{
    if s.len() == 0 || s.last().created_at_unix <= at {
        s.len() as int
    } else {
        age_position(s.drop_last(), at)
    }
}

/// The records from old to new; those of the same age in the order in which they were
/// found.
pub open spec fn by_age(s: Seq<WorkspaceRecord>) -> Seq<WorkspaceRecord>
    decreases s.len(),
{
    if s.len() == 0 {
        s
    } else {
        let before = by_age(s.drop_last());
        before.insert(age_position(before, s.last().created_at_unix), s.last())
    }
}

/// From old to new.
pub open spec fn is_by_age(s: Seq<WorkspaceRecord>) -> bool {
    forall|i: int, j: int|
        0 <= i < j < s.len() ==> #[trigger] s[i].created_at_unix <= #[trigger] s[j].created_at_unix
}

/// The records made at the time `at`.
pub open spec fn of_age(s: Seq<WorkspaceRecord>, at: u64) -> Seq<WorkspaceRecord> {
    s.filter(|r: WorkspaceRecord| r.created_at_unix == at)
}

proof fn lemma_age_position(s: Seq<WorkspaceRecord>, at: u64)
    requires
        is_by_age(s),
    ensures
        0 <= age_position(s, at) <= s.len(),
        forall|i: int| 0 <= i < age_position(s, at) ==> #[trigger] s[i].created_at_unix <= at,
        forall|i: int| age_position(s, at) <= i < s.len() ==> #[trigger] s[i].created_at_unix > at,
    decreases s.len(),
{
    if s.len() > 0 && s.last().created_at_unix > at {
        let t = s.drop_last();
        assert forall|i: int, j: int| 0 <= i < j < t.len() implies #[trigger] t[i].created_at_unix
            <= #[trigger] t[j].created_at_unix by {
            assert(t[i] == s[i] && t[j] == s[j]);
        }
        lemma_age_position(t, at);
        assert forall|i: int| age_position(s, at) <= i < s.len() implies #[trigger] s[i].created_at_unix
            > at by {
            if i < t.len() {
                assert(t[i] == s[i]);
            }
        }
        assert forall|i: int| 0 <= i < age_position(s, at) implies #[trigger] s[i].created_at_unix
            <= at by {
            assert(t[i] == s[i]);
        }
    } else if s.len() > 0 {
        assert forall|i: int| 0 <= i < s.len() implies #[trigger] s[i].created_at_unix <= at by {
            if i < s.len() - 1 {
                assert(s[i].created_at_unix <= s[s.len() - 1].created_at_unix);
            }
        }
    }
}

/// The listing holds every record once, from old to new, and keeps the order of records
/// of the same age.
pub proof fn lemma_listing(s: Seq<WorkspaceRecord>)
    ensures
        is_by_age(by_age(s)),
        by_age(s).to_multiset() == s.to_multiset(),
        forall|at: u64| of_age(by_age(s), at) == #[trigger] of_age(s, at),
    decreases s.len(),
{
    if s.len() > 0 {
        let t = s.drop_last();
        let x = s.last();
        let before = by_age(t);
        let pos = age_position(before, x.created_at_unix);
        let all = by_age(s);
        lemma_listing(t);
        lemma_age_position(before, x.created_at_unix);
        assert forall|i: int, j: int| 0 <= i < j < all.len() implies #[trigger] all[i].created_at_unix
            <= #[trigger] all[j].created_at_unix by {
            assert(all[i] == if i < pos {
                before[i]
            } else if i == pos {
                x
            } else {
                before[i - 1]
            });
            assert(all[j] == if j < pos {
                before[j]
            } else if j == pos {
                x
            } else {
                before[j - 1]
            });
        }
        t.to_multiset_ensures();
        assert(s =~= t.push(x));
        let head = before.take(pos);
        let tail = before.skip(pos);
        assert(before =~= head + tail);
        assert(all =~= head.push(x) + tail);
        lemma_multiset_commutative(head, tail);
        lemma_multiset_commutative(head.push(x), tail);
        head.to_multiset_ensures();
        assert(all.to_multiset() =~= before.to_multiset().insert(x));
        assert forall|at: u64| of_age(all, at) == #[trigger] of_age(s, at) by {
            let p = |r: WorkspaceRecord| r.created_at_unix == at;
            Seq::filter_distributes_over_add(head, tail, p);
            Seq::filter_distributes_over_add(head.push(x), tail, p);
            reveal(Seq::filter);
            assert(head.push(x).drop_last() =~= head);
            assert(of_age(t, at) == of_age(before, at));
            if x.created_at_unix == at {
                tail.lemma_all_neg_filter_empty(p);
                assert(head.filter(p) + tail.filter(p) =~= head.filter(p));
                assert(all.filter(p) =~= before.filter(p).push(x));
            } else {
                assert(all.filter(p) =~= before.filter(p));
            }
        }
    }
}

fn age_index(list: &Vec<WorkspaceRecord>, at: u64) -> (n: usize)
    ensures
        n == age_position(list@, at),
        n <= list.len(),
{
    let mut n: usize = list.len();
    assert(list@.take(n as int) =~= list@);
    while n > 0 && list[n - 1].created_at_unix > at
        invariant
            n <= list.len(),
            age_position(list@, at) == age_position(list@.take(n as int), at),
        decreases n,
    {
        assert(list@.take(n as int).drop_last() =~= list@.take(n - 1));
        n -= 1;
    }
    n
}

/// The records from old to new.
pub fn list_workspaces(found: Vec<WorkspaceRecord>) -> (out: Vec<WorkspaceRecord>)
    ensures
        out@ == by_age(found@),
{
    let ghost all = found@;
    let mut rest = found;
    let mut out: Vec<WorkspaceRecord> = Vec::new();
    let ghost mut done: int = 0;
    assert(all.skip(0) =~= all);
    assert(out@ =~= by_age(all.take(0)));
    while rest.len() > 0
        invariant
            0 <= done <= all.len(),
            rest@ == all.skip(done),
            out@ == by_age(all.take(done)),
        decreases rest.len(),
    {
        let record = rest.remove(0);
        assert(record == all[done]);
        assert(all.take(done + 1).drop_last() =~= all.take(done));
        assert(all.take(done + 1).last() == record);
        let at = age_index(&out, record.created_at_unix);
        out.insert(at, record);
        proof {
            done = done + 1;
        }
        assert(rest@ =~= all.skip(done));
    }
    assert(all.take(done) =~= all);
    out
}

/// A record that a name or an identifier means.
pub open spec fn is_meant(record: WorkspaceRecord, key: Seq<char>) -> bool {
    record.id@ == key || record.name@ == key
}

/// The records that a name or an identifier means.
pub open spec fn meant(s: Seq<WorkspaceRecord>, key: Seq<char>) -> Seq<WorkspaceRecord> {
    s.filter(|r: WorkspaceRecord| is_meant(r, key))
}

/// The one record that a name or an identifier means, or why there is none.
pub open spec fn looked_up(s: Seq<WorkspaceRecord>, key: Seq<char>) -> Result<
    WorkspaceRecord,
    SandboxFault,
> {
    if meant(s, key).len() == 1 {
        Ok(meant(s, key)[0])
    } else if meant(s, key).len() == 0 {
        Err(SandboxFault::Policy("workspace not found: "@ + key))
    } else {
        Err(SandboxFault::Policy("workspace name is ambiguous: "@ + key))
    }
}

/// The one record of the list that a name or an identifier means.
pub fn find_workspace(workspaces: Vec<WorkspaceRecord>, key: &str) -> (r: Result<
    WorkspaceRecord,
    SandboxError,
>)
    ensures
        match looked_up(workspaces@, key@) {
            Ok(record) => r == Ok::<WorkspaceRecord, SandboxError>(record),
            Err(fault) => r matches Err(e) && e@ == fault,
        },
{
    let ghost all = workspaces@;
    let mut workspaces = workspaces;
    let mut count: usize = 0;
    let mut first: usize = 0;
    assert(meant(all.take(0), key@).len() == 0) by {
        reveal(Seq::filter);
    }
    for i in 0..workspaces.len()
        invariant
            all == workspaces@,
            count <= i,
            count == meant(all.take(i as int), key@).len(),
            count > 0 ==> first < i && all[first as int] == meant(all.take(i as int), key@)[0],
    {
        proof {
            reveal(Seq::filter);
        }
        assert(all.take(i + 1).drop_last() =~= all.take(i as int));
        assert(all.take(i + 1).last() == all[i as int]);
        let record = &workspaces[i];
        if same_text(record.id.as_str(), key) || same_text(record.name.as_str(), key) {
            if count == 0 {
                first = i;
            }
            count += 1;
        }
    }
    assert(all.take(all.len() as int) =~= all);
    if count == 1 {
        Ok(workspaces.remove(first))
    } else if count == 0 {
        Err(SandboxError::Policy(concat("workspace not found: ", key)))
    } else {
        Err(SandboxError::Policy(concat("workspace name is ambiguous: ", key)))
    }
}

// ---------------------------------------------------------------------------
// Making workspaces

/// Where a new workspace stands.
#[derive(Debug, Clone)]
pub struct WorkspacePlan {
    pub id: String,
    pub dir: String,
    pub root: String,
    pub snapshots_dir: String,
    pub runs_dir: String,
}

/// The identifier of something of that name made at the time `now`.
pub open spec fn stamped(name: Seq<char>, now: u64) -> Seq<char> {
    slug(name) + "-"@ + decimal(now as nat)
}

/// Some workspace has that name.
pub open spec fn name_taken(existing: Seq<WorkspaceRecord>, name: Seq<char>) -> bool {
    exists|i: int| 0 <= i < existing.len() && #[trigger] existing[i].name@ == name
}

/// Why a workspace cannot be made: its source does not exist, or its name is taken.
pub open spec fn creation_fault(
    existing: Seq<WorkspaceRecord>,
    name: Seq<char>,
    source: Seq<char>,
    source_exists: bool,
) -> Option<SandboxFault> {
    if !source_exists {
        Some(SandboxFault::Io("source directory does not exist: "@ + source))
    } else if name_taken(existing, name) {
        Some(SandboxFault::Policy("workspace name already exists: "@ + name))
    } else {
        None
    }
}

fn stamp(name: &str, now: u64) -> (out: String)
    ensures
        out@ == stamped(name@, now),
{
    let mut out = slugify(name);
    out.append("-");
    out.append(decimal_text(now as u128).as_str());
    out
}

fn is_taken(existing: &Vec<WorkspaceRecord>, name: &str) -> (r: bool)
    ensures
        r == name_taken(existing@, name@),
{
    for i in 0..existing.len()
        invariant
            forall|j: int| 0 <= j < i ==> #[trigger] existing@[j].name@ != name@,
    {
        if same_text(existing[i].name.as_str(), name) {
            return true;
        }
    }
    false
}

impl WorkspaceStore {
    /// Where a new workspace stands, given the existing ones.
    pub fn plan_create(
        &self,
        existing: &Vec<WorkspaceRecord>,
        name: &str,
        source: &str,
        source_exists: bool,
        now: u64,
    ) -> (r: Result<WorkspacePlan, SandboxError>)
        ensures
            match creation_fault(existing@, name@, source@, source_exists) {
                Some(fault) => r matches Err(e) && e@ == fault,
                None => r matches Ok(plan) && {
                    let dir = workspace_place(self.os, self.home@, stamped(name@, now));
                    &&& plan.id@ == stamped(name@, now)
                    &&& plan.dir@ == dir
                    &&& plan.root@ == joined_path(self.os, dir, "root"@)
                    &&& plan.snapshots_dir@ == joined_path(self.os, dir, "snapshots"@)
                    &&& plan.runs_dir@ == joined_path(self.os, dir, "runs"@)
                },
            },
    {
        if !source_exists {
            return Err(SandboxError::Io(concat("source directory does not exist: ", source)));
        }
        if is_taken(existing, name) {
            return Err(SandboxError::Policy(concat("workspace name already exists: ", name)));
        }
        let id = stamp(name, now);
        let dir = self.workspace_dir(id.as_str());
        let root = self.workspace_root(id.as_str());
        let snapshots_dir = self.snapshots_dir(id.as_str());
        let runs_dir = self.runs_dir(id.as_str());
        Ok(WorkspacePlan { id, dir, root, snapshots_dir, runs_dir })
    }
}

/// The record of a new workspace, whose source is known under the name `source`.
pub fn new_record(plan: WorkspacePlan, name: String, source: String, now: u64) -> (record:
    WorkspaceRecord)
    ensures
        record.id == plan.id,
        record.name == name,
        record.source == Some(source),
        record.root == plan.root,
        record.created_at_unix == now,
        record.updated_at_unix == now,
        record.snapshots@.len() == 0,
{
    WorkspaceRecord {
        id: plan.id,
        name,
        source: Some(source),
        root: plan.root,
        created_at_unix: now,
        updated_at_unix: now,
        snapshots: Vec::new(),
    }
}

/// Ordering a list by age keeps what a filter finds in it.
proof fn lemma_by_age_filter(s: Seq<WorkspaceRecord>, p: spec_fn(WorkspaceRecord) -> bool)
    ensures
        by_age(s).filter(p).to_multiset() == s.filter(p).to_multiset(),
    decreases s.len(),
{
    if s.len() > 0 {
        let t = s.drop_last();
        let x = s.last();
        let before = by_age(t);
        lemma_listing(t);
        lemma_age_position(before, x.created_at_unix);
        let pos = age_position(before, x.created_at_unix);
        lemma_by_age_filter(t, p);
        let head = before.take(pos);
        let tail = before.skip(pos);
        assert(before =~= head + tail);
        assert(by_age(s) =~= head.push(x) + tail);
        Seq::filter_distributes_over_add(head, tail, p);
        Seq::filter_distributes_over_add(head.push(x), tail, p);
        reveal(Seq::filter);
        assert(head.push(x).drop_last() =~= head);
        lemma_multiset_commutative(head.filter(p), tail.filter(p));
        lemma_multiset_commutative(head.push(x).filter(p), tail.filter(p));
        head.filter(p).to_multiset_ensures();
        t.filter(p).to_multiset_ensures();
        if p(x) {
            assert(by_age(s).filter(p).to_multiset() =~= before.filter(p).to_multiset().insert(x));
        }
    }
}

/// A workspace that could be made is found by its name, as long as the name is not also the
/// identifier of another one.
pub proof fn lemma_created_is_found(
    existing: Seq<WorkspaceRecord>,
    record: WorkspaceRecord,
    source: Seq<char>,
)
    requires
        creation_fault(existing, record.name@, source, true) is None,
        forall|i: int| 0 <= i < existing.len() ==> #[trigger] existing[i].id@ != record.name@,
    ensures
        looked_up(by_age(existing.push(record)), record.name@) == Ok::<
            WorkspaceRecord,
            SandboxFault,
        >(record),
{
    let key = record.name@;
    let p = |r: WorkspaceRecord| is_meant(r, key);
    let s = existing.push(record);
    assert forall|i: int| 0 <= i < existing.len() implies !p(#[trigger] existing[i]) by {
        assert(existing[i].id@ != key);
        if existing[i].name@ == key {
            assert(name_taken(existing, key));
        }
    }
    assert(existing.all(|x: WorkspaceRecord| !p(x)));
    existing.lemma_all_neg_filter_empty(p);
    assert(s.filter(p) =~= seq![record]) by {
        reveal(Seq::filter);
        assert(s.drop_last() =~= existing);
        assert(p(record));
    }
    lemma_by_age_filter(s, p);
    let found = by_age(s).filter(p);
    found.to_multiset_ensures();
    seq![record].to_multiset_ensures();
    assert(found.len() == 1);
    assert(found.contains(found[0]));
    assert(found.to_multiset().count(found[0]) > 0);
    assert(seq![record].to_multiset().count(found[0]) > 0);
    assert(seq![record].contains(found[0]));
}

// ---------------------------------------------------------------------------
// Snapshots

/// The first snapshot of that name.
pub open spec fn snapshot_index(s: Seq<WorkspaceSnapshotRecord>, name: Seq<char>) -> Option<int>
    decreases s.len(),
{
    if s.len() == 0 {
        None
    } else {
        match snapshot_index(s.drop_last(), name) {
            Some(i) => Some(i),
            None => if s.last().name@ == name {
                Some(s.len() - 1)
            } else {
                None
            },
        }
    }
}

fn find_snapshot(snapshots: &Vec<WorkspaceSnapshotRecord>, name: &str) -> (out: Option<usize>)
    ensures
        match snapshot_index(snapshots@, name@) {
            Some(i) => out matches Some(n) && n == i && n < snapshots.len(),
            None => out is None,
        },
{
    let ghost all = snapshots@;
    for i in 0..snapshots.len()
        invariant
            all == snapshots@,
            snapshot_index(all.take(i as int), name@) is None,
    {
        assert(all.take(i + 1).drop_last() =~= all.take(i as int));
        assert(all.take(i + 1).last() == all[i as int]);
        if same_text(snapshots[i].name.as_str(), name) {
            proof {
                lemma_snapshot_index_prefix(all, name@, i + 1);
            }
            return Some(i);
        }
    }
    assert(all.take(all.len() as int) =~= all);
    None
}

proof fn lemma_snapshot_index_prefix(s: Seq<WorkspaceSnapshotRecord>, name: Seq<char>, n: int)
    requires
        0 <= n <= s.len(),
        snapshot_index(s.take(n), name) is Some,
    ensures
        snapshot_index(s, name) == snapshot_index(s.take(n), name),
    decreases s.len(),
{
    if n == s.len() {
        assert(s.take(n) =~= s);
    } else {
        assert(s.drop_last().take(n) =~= s.take(n));
        lemma_snapshot_index_prefix(s.drop_last(), name, n);
    }
}

impl WorkspaceStore {
    /// Where a new snapshot of a workspace stands; its name must be new.
    pub fn plan_snapshot(
        &self,
        workspace: &WorkspaceRecord,
        workspace_id: &str,
        name: &str,
        now: u64,
    ) -> (r: Result<String, SandboxError>)
        ensures
            match snapshot_index(workspace.snapshots@, name@) {
                Some(_) => r matches Err(e) && e@ == SandboxFault::Policy(
                    "snapshot already exists: "@ + name@,
                ),
                None => r matches Ok(path) && path@ == joined_path(
                    self.os,
                    joined_path(self.os, workspace_place(self.os, self.home@, workspace_id@), "snapshots"@),
                    stamped(name@, now),
                ),
            },
    {
        if find_snapshot(&workspace.snapshots, name).is_some() {
            return Err(SandboxError::Policy(concat("snapshot already exists: ", name)));
        }
        Ok(join_path(self.os, self.snapshots_dir(workspace_id).as_str(), stamp(name, now).as_str()))
    }
}

/// The workspace with one snapshot more.
pub fn add_snapshot(
    workspace: WorkspaceRecord,
    snapshot: WorkspaceSnapshotRecord,
    updated_at: u64,
) -> (out: WorkspaceRecord)
    ensures
        out.snapshots@ == workspace.snapshots@.push(snapshot),
        out.updated_at_unix == updated_at,
        out.id == workspace.id,
        out.name == workspace.name,
        out.source == workspace.source,
        out.root == workspace.root,
        out.created_at_unix == workspace.created_at_unix,
{
    let mut out = workspace;
    out.snapshots.push(snapshot);
    out.updated_at_unix = updated_at;
    out
}

/// Where the state stands that a workspace goes back to.
pub fn restore_source(workspace: &WorkspaceRecord, name: &str) -> (r: Result<String, SandboxError>)
    ensures
        match snapshot_index(workspace.snapshots@, name@) {
            Some(i) => r matches Ok(path) && path@ == workspace.snapshots@[i].path@,
            None => r matches Err(e) && e@ == SandboxFault::Policy(
                "snapshot not found: "@ + name@,
            ),
        },
{
    match find_snapshot(&workspace.snapshots, name) {
        Some(i) => Ok(workspace.snapshots[i].path.clone()),
        None => Err(SandboxError::Policy(concat("snapshot not found: ", name))),
    }
}

/// The workspace as changed at the time `updated_at`.
pub fn touch(workspace: WorkspaceRecord, updated_at: u64) -> (out: WorkspaceRecord)
    ensures
        out == (WorkspaceRecord { updated_at_unix: updated_at, ..workspace }),
{
    let mut out = workspace;
    out.updated_at_unix = updated_at;
    out
}

/// A snapshot that could be made is the one that its name brings back, and every snapshot
/// made before is brought back as before.
pub proof fn lemma_snapshot_comes_back(
    s: Seq<WorkspaceSnapshotRecord>,
    snapshot: WorkspaceSnapshotRecord,
    other: Seq<char>,
)
    requires
        snapshot_index(s, snapshot.name@) is None,
        other != snapshot.name@,
    ensures
        snapshot_index(s.push(snapshot), snapshot.name@) == Some(s.len() as int),
        s.push(snapshot)[s.len() as int] == snapshot,
        snapshot_index(s.push(snapshot), other) == snapshot_index(s, other),
{
    assert(s.push(snapshot).drop_last() =~= s);
}

// ---------------------------------------------------------------------------
// Copying directories

/// What an entry of a directory is.
#[derive(Debug, Clone, Copy, PartialEq, Eq, Structural)]
pub enum EntryKind {
    Directory,
    File,
    Other,
}

/// What copying does with an entry.
#[derive(Debug, Clone, Copy, PartialEq, Eq, Structural)]
pub enum CopyAction {
    /// Leave it out.
    Skip,
    /// Copy what is in it.
    Descend,
    /// Copy it.
    Copy,
}

/// Entries that belong to tools and are not copied.
pub open spec fn is_tool_entry(name: Seq<char>) -> bool {
    name == ".microbox"@ || name == ".git"@ || name == "target"@
}

/// What copying does with an entry; a name that is no text belongs to no tool.
pub open spec fn copy_action_of(name: Option<Seq<char>>, kind: EntryKind) -> CopyAction {
    if name is Some && is_tool_entry(name->0) {
        CopyAction::Skip
    } else {
        match kind {
            EntryKind::Directory => CopyAction::Descend,
            EntryKind::File => CopyAction::Copy,
            EntryKind::Other => CopyAction::Skip,
        }
    }
}

/// What copying does with an entry.
pub fn copy_action(name: &Option<String>, kind: EntryKind) -> (action: CopyAction)
    ensures
        action == copy_action_of(opt_text(*name), kind),
{
    if let Some(text) = name {
        if same_text(text.as_str(), ".microbox") || same_text(text.as_str(), ".git") || same_text(
            text.as_str(),
            "target",
        ) {
            return CopyAction::Skip;
        }
    }
    match kind {
        EntryKind::Directory => CopyAction::Descend,
        EntryKind::File => CopyAction::Copy,
        EntryKind::Other => CopyAction::Skip,
    }
}

/// What stands in a directory: names, which may be no text, and what they name.
pub enum Tree {
    File(Seq<u8>),
    Other,
    Directory(Seq<(Option<Seq<char>>, Tree)>),
}

/// What a tree is.
pub open spec fn tree_kind(t: Tree) -> EntryKind {
    match t {
        Tree::File(_) => EntryKind::File,
        Tree::Other => EntryKind::Other,
        Tree::Directory(_) => EntryKind::Directory,
    }
}

/// The copy of the entries of a directory.
pub open spec fn copied(entries: Seq<(Option<Seq<char>>, Tree)>) -> Seq<(Option<Seq<char>>, Tree)>
    decreases entries,
{
    if entries.len() == 0 {
        Seq::<(Option<Seq<char>>, Tree)>::empty()
    } else {
        let before = copied(entries.drop_last());
        let (name, tree) = entries[entries.len() - 1];
        match copy_action_of(name, tree_kind(tree)) {
            CopyAction::Skip => before,
            CopyAction::Copy => before.push((name, tree)),
            CopyAction::Descend => match tree {
                Tree::Directory(inner) => before.push((name, Tree::Directory(copied(inner)))),
                _ => before,
            },
        }
    }
}

/// A snapshot of restored files is the snapshot they were restored from: what a copy holds
/// is copied whole.
pub proof fn lemma_copy_of_copy(entries: Seq<(Option<Seq<char>>, Tree)>)
    ensures
        copied(copied(entries)) == copied(entries),
    decreases entries,
{
    if entries.len() > 0 {
        let before = copied(entries.drop_last());
        lemma_copy_of_copy(entries.drop_last());
        let (name, tree) = entries[entries.len() - 1];
        match copy_action_of(name, tree_kind(tree)) {
            CopyAction::Skip => {},
            CopyAction::Copy => {
                assert(before.push((name, tree)).drop_last() =~= before);
            },
            CopyAction::Descend => {
                if let Tree::Directory(inner) = tree {
                    lemma_copy_of_copy(inner);
                    let entry = (name, Tree::Directory(copied(inner)));
                    assert(before.push(entry).drop_last() =~= before);
                }
            },
        }
    }
}

// ---------------------------------------------------------------------------
// Restoring

/// What is done to the files of a workspace.
#[derive(Debug, Clone)]
pub enum FileStep {
    /// Empty a directory, or make it.
    Clear(String),
    /// Copy what stands in a directory into another.
    Copy { from: String, to: String },
}

/// The contents of a `FileStep`.
pub enum FileStepModel {
    Clear(Seq<char>),
    Copy { from: Seq<char>, to: Seq<char> },
}

impl View for FileStep {
    type V = FileStepModel;

    open spec fn view(&self) -> FileStepModel {
        match self {
            FileStep::Clear(path) => FileStepModel::Clear(path@),
            FileStep::Copy { from, to } => FileStepModel::Copy { from: from@, to: to@ },
        }
    }
}

/// The contents of a list of steps.
pub open spec fn step_views(steps: Seq<FileStep>) -> Seq<FileStepModel> {
    steps.map_values(|step: FileStep| step@)
}

/// The steps that bring the state at `from` back to `root`, in order: what stands there is
/// cleared before anything is copied.
pub open spec fn restore_steps(root: Seq<char>, from: Seq<char>) -> Seq<FileStepModel> {
    seq![FileStepModel::Clear(root), FileStepModel::Copy { from, to: root }]
}

/// What stands in the directory of that name among the entries. A name that is no text is
/// not known from another.
pub open spec fn directory_named(
    entries: Seq<(Option<Seq<char>>, Tree)>,
    name: Option<Seq<char>>,
) -> Option<Seq<(Option<Seq<char>>, Tree)>>
    decreases entries.len(),
{
    if entries.len() == 0 || name is None {
        None
    } else if entries.last().0 == name {
        match entries.last().1 {
            Tree::Directory(inner) => Some(inner),
            _ => None,
        }
    } else {
        directory_named(entries.drop_last(), name)
    }
}

/// The entries of `base` that a copy of `more` into it leaves alone.
pub open spec fn untouched(
    base: Seq<(Option<Seq<char>>, Tree)>,
    more: Seq<(Option<Seq<char>>, Tree)>,
) -> Seq<(Option<Seq<char>>, Tree)> {
    base.filter(
        |entry: (Option<Seq<char>>, Tree)|
            !exists|i: int| 0 <= i < more.len() && (#[trigger] more[i]).0 == entry.0 && entry.0 is Some,
    )
}

/// The entries of `more` as they come to stand in a directory that holds `base`: directories
/// of the same name grow together.
pub open spec fn laid_over(
    base: Seq<(Option<Seq<char>>, Tree)>,
    more: Seq<(Option<Seq<char>>, Tree)>,
) -> Seq<(Option<Seq<char>>, Tree)>
    decreases more,
{
    if more.len() == 0 {
        Seq::<(Option<Seq<char>>, Tree)>::empty()
    } else {
        let before = laid_over(base, more.drop_last());
        let (name, tree) = more[more.len() - 1];
        match tree {
            Tree::Directory(inner) => match directory_named(base, name) {
                Some(there) => before.push(
                    (name, Tree::Directory(untouched(there, inner) + laid_over(there, inner))),
                ),
                None => before.push((name, tree)),
            },
            _ => before.push((name, tree)),
        }
    }
}

/// What stands in each directory after a step.
pub open spec fn after_step(
    disk: Map<Seq<char>, Seq<(Option<Seq<char>>, Tree)>>,
    step: FileStepModel,
) -> Map<Seq<char>, Seq<(Option<Seq<char>>, Tree)>> {
    match step {
        FileStepModel::Clear(path) => disk.insert(
            path,
            Seq::<(Option<Seq<char>>, Tree)>::empty(),
        ),
        FileStepModel::Copy { from, to } => disk.insert(
            to,
            untouched(disk[to], copied(disk[from])) + laid_over(disk[to], copied(disk[from])),
        ),
    }
}

/// What stands in each directory after the steps.
pub open spec fn after_steps(
    disk: Map<Seq<char>, Seq<(Option<Seq<char>>, Tree)>>,
    steps: Seq<FileStepModel>,
) -> Map<Seq<char>, Seq<(Option<Seq<char>>, Tree)>>
    decreases steps.len(),
{
    if steps.len() == 0 {
        disk
    } else {
        after_step(after_steps(disk, steps.drop_last()), steps.last())
    }
}

proof fn lemma_laid_over_nothing(more: Seq<(Option<Seq<char>>, Tree)>)
    ensures
        laid_over(Seq::<(Option<Seq<char>>, Tree)>::empty(), more) == more,
        untouched(Seq::<(Option<Seq<char>>, Tree)>::empty(), more) == Seq::<
            (Option<Seq<char>>, Tree),
        >::empty(),
    decreases more.len(),
{
    let none = Seq::<(Option<Seq<char>>, Tree)>::empty();
    reveal(Seq::filter);
    assert(untouched(none, more) =~= none);
    if more.len() > 0 {
        lemma_laid_over_nothing(more.drop_last());
        assert(more.drop_last().push(more[more.len() - 1]) =~= more);
    } else {
        assert(laid_over(none, more) =~= more);
    }
}

/// A restore brings the snapshot back: whatever stood in the root, afterwards it holds what
/// was kept, and nothing else. So a snapshot of files, restored, gives the copy of those
/// files, and the snapshot itself stays as it is.
pub proof fn lemma_restore_brings_back(
    disk: Map<Seq<char>, Seq<(Option<Seq<char>>, Tree)>>,
    root: Seq<char>,
    from: Seq<char>,
    files: Seq<(Option<Seq<char>>, Tree)>,
)
    requires
        root != from,
        disk.contains_key(from),
        disk[from] == copied(files),
    ensures
        ({
            let after = after_steps(disk, restore_steps(root, from));
            &&& after[root] == disk[from]
            &&& after[from] == disk[from]
        }),
{
    let steps = restore_steps(root, from);
    let first = FileStepModel::Clear(root);
    let cleared = after_step(disk, first);
    assert(steps.drop_last() =~= seq![first]);
    assert(seq![first].drop_last() =~= Seq::<FileStepModel>::empty());
    reveal_with_fuel(after_steps, 3);
    assert(after_steps(disk, seq![first]) == cleared);
    lemma_copy_of_copy(files);
    lemma_laid_over_nothing(disk[from]);
    assert(untouched(cleared[root], disk[from]) + laid_over(cleared[root], disk[from])
        =~= disk[from]);
}

/// The steps that bring a workspace back to the snapshot of that name, in order.
pub fn plan_restore(workspace: &WorkspaceRecord, name: &str) -> (r: Result<
    Vec<FileStep>,
    SandboxError,
>)
    ensures
        match snapshot_index(workspace.snapshots@, name@) {
            Some(i) => r matches Ok(steps) && step_views(steps@) == restore_steps(
                workspace.root@,
                workspace.snapshots@[i].path@,
            ),
            None => r matches Err(e) && e@ == SandboxFault::Policy(
                "snapshot not found: "@ + name@,
            ),
        },
{
    let from = match restore_source(workspace, name) {
        Ok(from) => from,
        Err(e) => return Err(e),
    };
    let ghost path = from@;
    let steps: Vec<FileStep> = vec![
        FileStep::Clear(workspace.root.clone()),
        FileStep::Copy { from, to: workspace.root.clone() },
    ];
    assert(step_views(steps@) =~= restore_steps(workspace.root@, path));
    Ok(steps)
}

// ---------------------------------------------------------------------------
// Workspaces told to the user

/// The lines that tell a snapshot each.
pub open spec fn snapshot_lines(s: Seq<WorkspaceSnapshotRecord>) -> Seq<Seq<char>> {
    s.map_values(|r: WorkspaceSnapshotRecord| "  - "@ + r.name@ + " @ "@ + r.path@)
}

/// The lines that tell an action on a workspace.
pub open spec fn record_lines(w: WorkspaceRecord, action: Seq<char>, note: Seq<char>) -> Seq<
    Seq<char>,
> {
    seq![
        "MicroBox workspace "@ + action,
        "id = "@ + w.id@,
        "name = "@ + w.name@,
        "root = "@ + w.root@,
        "source = "@ + match w.source {
            Some(path) => path@,
            None => "-"@,
        },
        "created_at_unix = "@ + decimal(w.created_at_unix as nat),
        "updated_at_unix = "@ + decimal(w.updated_at_unix as nat),
        "snapshot_count = "@ + decimal(w.snapshots@.len()),
        "note = "@ + note,
    ] + if w.snapshots@.len() == 0 {
        Seq::<Seq<char>>::empty()
    } else {
        seq!["snapshots:"@] + snapshot_lines(w.snapshots@)
    }
}

fn push_snapshots(lines: Vec<String>, snapshots: &Vec<WorkspaceSnapshotRecord>) -> (out: Vec<
    String,
>)
    ensures
        texts(out@) == texts(lines@) + snapshot_lines(snapshots@),
{
    let ghost start = texts(lines@);
    let ghost told = snapshot_lines(snapshots@);
    let mut out = lines;
    assert(texts(out@) =~= start + told.take(0));
    for i in 0..snapshots.len()
        invariant
            told == snapshot_lines(snapshots@),
            texts(out@) == start + told.take(i as int),
    {
        let mut line = concat("  - ", snapshots[i].name.as_str());
        line.append(" @ ");
        line.append(snapshots[i].path.as_str());
        assert(line@ == told[i as int]);
        out = push_line(out, line);
        assert(texts(out@) =~= start + told.take(i + 1));
    }
    assert(told.take(told.len() as int) =~= told);
    out
}

/// An action on a workspace, as text.
pub fn render_workspace_record(workspace: &WorkspaceRecord, action: &str, note: &str) -> (out:
    String)
    ensures
        out@ == joined(record_lines(*workspace, action@, note@), "\n"@),
{
    let source = match &workspace.source {
        Some(path) => path.as_str(),
        None => "-",
    };
    let head: Vec<String> = vec![
        concat("MicroBox workspace ", action),
        concat("id = ", workspace.id.as_str()),
        concat("name = ", workspace.name.as_str()),
        concat("root = ", workspace.root.as_str()),
        concat("source = ", source),
        concat("created_at_unix = ", decimal_text(workspace.created_at_unix as u128).as_str()),
        concat("updated_at_unix = ", decimal_text(workspace.updated_at_unix as u128).as_str()),
        concat("snapshot_count = ", decimal_text(workspace.snapshots.len() as u128).as_str()),
        concat("note = ", note),
    ];
    let ghost first = record_lines(*workspace, action@, note@).take(9);
    assert(texts(head@) =~= first);
    let lines = if workspace.snapshots.len() > 0 {
        let headed = push_line(head, "snapshots:".to_string());
        push_snapshots(headed, &workspace.snapshots)
    } else {
        head
    };
    assert(texts(lines@) =~= record_lines(*workspace, action@, note@));
    join(&lines, "\n")
}

/// The line that tells a workspace in a list.
pub open spec fn workspace_line(w: WorkspaceRecord) -> Seq<char> {
    "- "@ + w.name@ + " ("@ + w.id@ + ") snapshots="@ + decimal(w.snapshots@.len()) + " root="@
        + w.root@
}

/// The lines that tell the workspaces of a store.
pub open spec fn list_lines(home: Seq<char>, s: Seq<WorkspaceRecord>) -> Seq<Seq<char>> {
    seq!["MicroBox workspaces"@, "home = "@ + home] + if s.len() == 0 {
        seq!["no workspaces found"@]
    } else {
        s.map_values(|w: WorkspaceRecord| workspace_line(w))
    }
}

/// The workspaces of a store, as text.
pub fn render_workspace_list(home: &str, workspaces: &Vec<WorkspaceRecord>) -> (out: String)
    ensures
        out@ == joined(list_lines(home@, workspaces@), "\n"@),
{
    let head: Vec<String> = vec!["MicroBox workspaces".to_string(), concat("home = ", home)];
    let ghost first = seq!["MicroBox workspaces"@, "home = "@ + home@];
    assert(texts(head@) =~= first);
    if workspaces.len() == 0 {
        let lines = push_line(head, "no workspaces found".to_string());
        assert(texts(lines@) =~= list_lines(home@, workspaces@));
        return join(&lines, "\n");
    }
    let ghost told = workspaces@.map_values(|w: WorkspaceRecord| workspace_line(w));
    let mut lines = head;
    assert(texts(lines@) =~= first + told.take(0));
    for i in 0..workspaces.len()
        invariant
            told == workspaces@.map_values(|w: WorkspaceRecord| workspace_line(w)),
            texts(lines@) == first + told.take(i as int),
    {
        let workspace = &workspaces[i];
        let mut line = concat("- ", workspace.name.as_str());
        line.append(" (");
        line.append(workspace.id.as_str());
        line.append(") snapshots=");
        line.append(decimal_text(workspace.snapshots.len() as u128).as_str());
        line.append(" root=");
        line.append(workspace.root.as_str());
        assert(line@ == told[i as int]);
        lines = push_line(lines, line);
        assert(texts(lines@) =~= first + told.take(i + 1));
    }
    assert(told.take(told.len() as int) =~= told);
    assert(texts(lines@) =~= list_lines(home@, workspaces@));
    join(&lines, "\n")
}

/// The note on a snapshot that was made or brought back.
pub fn snapshot_note(name: &str, restored: bool) -> (out: String)
    ensures
        out@ == "snapshot "@ + name@ + if restored {
            " restored"@
        } else {
            " created"@
        },
{
    let mut out = concat("snapshot ", name);
    if restored {
        out.append(" restored");
    } else {
        out.append(" created");
    }
    out
}

/// What a run in a workspace came to.
#[derive(Debug, Clone)]
pub struct WorkspaceRunSummary {
    pub command: String,
    pub exit_code: i32,
    pub timed_out: bool,
    pub duration_ms: u128,
}

/// What a run came to.
pub fn summarize_run(command: String, execution: &ExecutionResult) -> (summary: WorkspaceRunSummary)
    ensures
        summary.command == command,
        summary.exit_code == execution.code(),
        summary.timed_out == execution.timed_out,
        summary.duration_ms == execution.duration@ / 1_000_000,
{
    WorkspaceRunSummary {
        command,
        exit_code: execution.exit_code(),
        timed_out: execution.timed_out,
        duration_ms: execution.duration.as_millis(),
    }
}

/// The lines behind the output of a run in a workspace; the first is empty.
pub open spec fn run_lines(name: Seq<char>, summary: WorkspaceRunSummary) -> Seq<Seq<char>> {
    seq![
        ""@,
        "workspace = "@ + name,
        "command = "@ + summary.command@,
        "exit_code = "@ + signed_decimal(summary.exit_code as int),
        "duration_ms = "@ + decimal(summary.duration_ms as nat),
        "timed_out = "@ + bool_name(summary.timed_out),
    ]
}

/// What is told behind the output of a run in a workspace.
pub fn render_workspace_run(name: &str, summary: &WorkspaceRunSummary) -> (out: String)
    ensures
        out@ == joined(run_lines(name@, *summary), "\n"@),
{
    let lines: Vec<String> = vec![
        "".to_string(),
        concat("workspace = ", name),
        concat("command = ", summary.command.as_str()),
        concat("exit_code = ", signed_decimal_text(summary.exit_code as i64).as_str()),
        concat("duration_ms = ", decimal_text(summary.duration_ms).as_str()),
        concat("timed_out = ", bool_text(summary.timed_out)),
    ];
    assert(texts(lines@) =~= run_lines(name@, *summary));
    join(&lines, "\n")
}

} // verus!
