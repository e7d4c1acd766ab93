//! Paths of Windows: drives, shares and paths that are taken as they stand.
use crate::launch::HostOs;
use crate::paths::{
    components, covers, followed, has_root, is_absolute_path, is_verbatim, joined_path, next_of,
    prefix_len, same_path, shows_root, slashed, volume_of, way_of, writes_root, Volume,
};
use crate::text::{joined, lower, lowered, pieces};
use vstd::prelude::*;

verus! {

/// The two separators that Windows knows.
pub open spec fn parts_names(c: char) -> bool {
    c == '/' || c == '\\'
}

/// The path starts with the letter of a drive and a colon.
pub open spec fn on_a_drive(p: Seq<char>) -> bool {
    p.len() >= 2 && ('a' <= p[0] <= 'z' || 'A' <= p[0] <= 'Z') && p[1] == ':'
}

/// A path that starts with neither a separator nor a drive.
pub open spec fn bare(p: Seq<char>) -> bool {
    !on_a_drive(p) && (p.len() > 0 ==> !parts_names(p[0]))
}

proof fn lemma_letters_of_drives(c: char)
    ensures
        ('a' <= lower(c) <= 'z') <==> ('a' <= c <= 'z' || 'A' <= c <= 'Z'),
{
}

/// A drive names the volume of a path. The path is absolute where a separator stands behind
/// it, and then alone.
pub proof fn lemma_drives(p: Seq<char>)
    requires
        on_a_drive(p),
    ensures
        volume_of(HostOs::Windows, p) == (Volume::Drive, 2int),
        is_absolute_path(HostOs::Windows, p) <==> p.len() > 2 && parts_names(p[2]),
        !is_verbatim(HostOs::Windows, p),
{
    lemma_letters_of_drives(p[0]);
}

/// Elsewhere nothing names a volume, and the path is absolute where it starts with a slash.
pub proof fn lemma_no_volumes(os: HostOs, p: Seq<char>)
    requires
        os != HostOs::Windows,
    ensures
        volume_of(os, p) == (Volume::Absent, 0int),
        is_absolute_path(os, p) <==> p.len() > 0 && p[0] == '/',
        !is_verbatim(os, p),
{
}

/// A path that starts with neither a separator nor a drive has no volume and no root.
pub proof fn lemma_bare_paths(p: Seq<char>)
    requires
        bare(p),
    ensures
        volume_of(HostOs::Windows, p) == (Volume::Absent, 0int),
        !has_root(HostOs::Windows, p),
        !is_absolute_path(HostOs::Windows, p),
{
    if p.len() > 0 {
        lemma_letters_of_drives(p[0]);
    }
}

/// How paths are joined on Windows. A path on a drive stands for itself. A bare path is
/// appended behind a backslash, unless the base ends with a separator, is empty or is a bare
/// drive. A path that starts with one separator keeps the drive of the base.
pub proof fn lemma_joined_on_windows(base: Seq<char>, path: Seq<char>)
    ensures
        on_a_drive(path) ==> joined_path(HostOs::Windows, base, path) == path,
        bare(path) && bare(base) && base.len() > 0 && !parts_names(base.last()) ==> joined_path(
            HostOs::Windows,
            base,
            path,
        ) == base + seq!['\\'] + path,
        bare(path) && on_a_drive(base) && base.len() > 2 && !parts_names(base.last())
            ==> joined_path(HostOs::Windows, base, path) == base + seq!['\\'] + path,
        bare(path) && on_a_drive(base) && (base.len() == 2 || parts_names(base.last()))
            ==> joined_path(HostOs::Windows, base, path) == base + path,
        bare(path) && base.len() == 0 ==> joined_path(HostOs::Windows, base, path) == path,
        path.len() > 0 && parts_names(path[0]) && (path.len() > 1 ==> !parts_names(path[1]))
            && on_a_drive(base) ==> joined_path(HostOs::Windows, base, path) == base.take(2) + path,
{
    if on_a_drive(path) {
        lemma_drives(path);
    }
    if on_a_drive(base) {
        lemma_drives(base);
    }
    if bare(path) {
        lemma_bare_paths(path);
        assert(Seq::<char>::empty() + path =~= path);
        assert(base.push('\\') + path =~= base + seq!['\\'] + path);
        assert(base + path =~= path || base.len() > 0);
    }
    if bare(base) {
        lemma_bare_paths(base);
    }
    if path.len() > 0 && parts_names(path[0]) {
        lemma_letters_of_drives(path[0]);
    }
}

/// Either separator will do: two paths that differ in their separators alone are the same,
/// unless one of them starts as a path does that is taken as it stands.
pub proof fn lemma_either_separator(p: Seq<char>, q: Seq<char>)
    requires
        p.len() == q.len(),
        forall|i: int|
            0 <= i < p.len() ==> #[trigger] p[i] == q[i] || (parts_names(p[i]) && parts_names(q[i])),
        !(p.len() >= 4 && parts_names(p[0]) && parts_names(p[1]) && p[2] == '?'),
    ensures
        same_path(HostOs::Windows, p, q),
        covers(HostOs::Windows, p, q),
        is_absolute_path(HostOs::Windows, p) == is_absolute_path(HostOs::Windows, q),
{
    let os = HostOs::Windows;
    assert(slashed(os, p) =~= slashed(os, q));
    if p.len() > 0 {
        assert(p[0] == q[0] || (parts_names(p[0]) && parts_names(q[0])));
        lemma_letters_of_drives(p[0]);
        lemma_letters_of_drives(q[0]);
    }
    if p.len() > 1 {
        assert(p[1] == q[1] || (parts_names(p[1]) && parts_names(q[1])));
    }
    if p.len() > 2 {
        assert(p[2] == q[2] || (parts_names(p[2]) && parts_names(q[2])));
    }
    assert(volume_of(os, p) == volume_of(os, q));
    if on_a_drive(p) {
        assert(p.take(2) =~= q.take(2));
    }
    let n = prefix_len(os, p);
    if 0 <= n < p.len() {
        assert(p[n] == q[n] || (parts_names(p[n]) && parts_names(q[n])));
    }
    let a = way_of(os, p);
    assert(a.take(a.len() as int) =~= a);
}

/// The case of a drive's letter does not matter.
pub proof fn lemma_drives_in_either_case(p: Seq<char>, q: Seq<char>)
    requires
        on_a_drive(p),
        q.len() == p.len(),
        lower(q[0]) == lower(p[0]),
        forall|i: int| 1 <= i < p.len() ==> #[trigger] q[i] == p[i],
    ensures
        same_path(HostOs::Windows, p, q),
        covers(HostOs::Windows, p, q),
{
    let os = HostOs::Windows;
    lemma_letters_of_drives(p[0]);
    lemma_letters_of_drives(q[0]);
    lemma_drives(p);
    lemma_drives(q);
    assert(lowered(p.take(2)) =~= lowered(q.take(2)));
    assert(slashed(os, p).skip(2) =~= slashed(os, q).skip(2));
    let a = way_of(os, p);
    assert(a.take(a.len() as int) =~= a);
}

/// Paths on different drives have nothing to do with each other.
pub proof fn lemma_drives_apart(p: Seq<char>, q: Seq<char>)
    requires
        on_a_drive(p),
        on_a_drive(q),
        lower(p[0]) != lower(q[0]),
    ensures
        !same_path(HostOs::Windows, p, q),
        !covers(HostOs::Windows, p, q),
{
    lemma_drives(p);
    lemma_drives(q);
    assert(lowered(p.take(2))[0] == lower(p[0]));
    assert(lowered(q.take(2))[0] == lower(q[0]));
}

proof fn lemma_next(s: Seq<char>, c: char, from: int, at: int)
    requires
        0 <= from <= at <= s.len(),
        at < s.len() ==> s[at] == c,
        forall|i: int| from <= i < at ==> #[trigger] s[i] != c,
    ensures
        next_of(s, c, from) == at,
    decreases at - from,
{
    if from < at {
        assert(s[from] != c);
        lemma_next(s, c, from + 1, at);
    }
}

/// A share of another machine names a volume as far as the name of the share goes, and a path
/// on it is absolute.
pub proof fn lemma_shares(p: Seq<char>, server: int, share: int)
    requires
        2 < server < share - 1,
        share <= p.len(),
        parts_names(p[0]) && parts_names(p[1]) && parts_names(p[server]),
        share < p.len() ==> parts_names(p[share]),
        forall|i: int| 2 <= i < server ==> !parts_names(#[trigger] p[i]),
        forall|i: int| server < i < share ==> !parts_names(#[trigger] p[i]),
        server == 3 ==> p[2] != '?' && p[2] != '.',
    ensures
        volume_of(HostOs::Windows, p) == (Volume::Share, share),
        is_absolute_path(HostOs::Windows, p),
        shows_root(HostOs::Windows, p),
{
    let s = slashed(HostOs::Windows, p);
    assert forall|i: int| 0 <= i < p.len() implies (#[trigger] s[i] == '/') == parts_names(p[i]) by {}
    assert(!parts_names(p[2]));
    if p.len() > 3 {
        assert(server == 3 || !parts_names(p[3]));
    }
    lemma_letters_of_drives(p[0]);
    lemma_next(s, '/', 2, server);
    lemma_next(s, '/', server + 1, share);
}

/// A path that starts with two backslashes, a question mark and a backslash is taken as it
/// stands, and no other is.
pub proof fn lemma_taken_as_they_stand(p: Seq<char>)
    ensures
        is_verbatim(HostOs::Windows, p) <==> p.len() >= 4 && p[0] == '\\' && p[1] == '\\' && p[2]
            == '?' && p[3] == '\\',
        is_verbatim(HostOs::Windows, p) ==> is_absolute_path(HostOs::Windows, p),
{
    if p.len() > 0 {
        lemma_letters_of_drives(p[0]);
    }
}

/// What stands behind the volume of a path that is taken as it stands is parted by backslashes
/// alone, and only what is empty is left out: slashes and dots are names like others.
pub proof fn lemma_verbatim_components(p: Seq<char>, part: Seq<char>)
    requires
        is_verbatim(HostOs::Windows, p),
        0 <= prefix_len(HostOs::Windows, p) < p.len(),
        p[prefix_len(HostOs::Windows, p)] == '\\',
    ensures
        components(HostOs::Windows, p).contains(part) <==> part.len() > 0 && pieces(
            p.skip(prefix_len(HostOs::Windows, p) + 1),
            '\\',
        ).contains(part),
        way_of(HostOs::Windows, p) == components(HostOs::Windows, p),
{
    let all = pieces(p.skip(prefix_len(HostOs::Windows, p) + 1), '\\');
    let keep = |piece: Seq<char>| piece.len() > 0;
    broadcast use vstd::seq_lib::group_filter_ensures;

    let kept = all.filter(keep);
    if kept.contains(part) {
        let i = choose|i: int| 0 <= i < kept.len() && kept[i] == part;
        assert(keep(kept[i]));
        all.lemma_filter_contains_rev(keep, kept[i]);
    }
    if part.len() > 0 && all.contains(part) {
        let i = choose|i: int| 0 <= i < all.len() && all[i] == part;
        assert(keep(all[i]));
        assert(kept.contains(all[i]));
    }
}

/// What is appended to a path that is taken as it stands: a name as it is, nothing for a dot,
/// and two dots take the name before them back.
pub proof fn lemma_appended_parts(parts: Seq<Seq<char>>, more: Seq<Seq<char>>, name: Seq<char>)
    requires
        name != seq!['.'],
        name != seq!['.', '.'],
    ensures
        followed(parts, Seq::<Seq<char>>::empty()) == parts,
        followed(parts, more.push(name)) == followed(parts, more).push(name),
        followed(parts, more.push(seq!['.'])) == followed(parts, more),
        followed(parts, more.push(name).push(seq!['.', '.'])) == followed(parts, more),
{
    let dots = seq!['.', '.'];
    let named = more.push(name);
    let up = named.push(dots);
    assert(named.drop_last() =~= more && named.last() == name);
    assert(more.push(seq!['.']).drop_last() =~= more);
    assert(more.push(seq!['.']).last() == seq!['.']);
    assert(up.drop_last() =~= named && up.last() == dots);
    assert(seq!['.'].len() == 1 && dots.len() == 2);
    assert(seq!['.'] != dots);
    let before = followed(parts, named);
    assert(before == followed(parts, more).push(name));
    assert(before.last() == name);
    assert(before.drop_last() =~= followed(parts, more));
    assert(followed(parts, up) == before.drop_last());
}

/// A bare path that is seen from a path which is taken as it stands keeps its volume, and its
/// parts follow those of the base, with backslashes between them.
pub proof fn lemma_joined_as_they_stand(base: Seq<char>, path: Seq<char>)
    requires
        is_verbatim(HostOs::Windows, base),
        bare(path),
        path.len() > 0,
        writes_root(HostOs::Windows, base),
    ensures
        joined_path(HostOs::Windows, base, path) == base.take(prefix_len(HostOs::Windows, base))
            + seq!['\\'] + joined(
            followed(components(HostOs::Windows, base), components(HostOs::Windows, path)),
            seq!['\\'],
        ),
{
    lemma_bare_paths(path);
}

/// The start of a path that is taken as it stands.
pub open spec fn starts_as_it_stands(p: Seq<char>) -> bool {
    p.len() >= 4 && p[0] == '\\' && p[1] == '\\' && p[2] == '?' && p[3] == '\\'
}

/// What names the volume of a path that is taken as it stands: a drive that nothing or a
/// separator follows; behind `UNC` a server and what it shares, if that has a name; else the
/// first name.
pub proof fn lemma_volumes_as_they_stand(p: Seq<char>, server: int, share: int)
    requires
        starts_as_it_stands(p),
    ensures
        on_a_drive(p.skip(4)) && (p.len() == 6 || parts_names(p[6])) ==> volume_of(
            HostOs::Windows,
            p,
        ) == (Volume::VerbatimDrive, 6int),
        8 <= p.len() && p[4] == 'U' && p[5] == 'N' && p[6] == 'C' && parts_names(p[7]) ==> {
            &&& 8 <= server < share - 1 && share <= p.len() && p[server] == '\\' && (share < p.len()
                ==> p[share] == '\\') && (forall|i: int|
                8 <= i < share && i != server ==> #[trigger] p[i] != '\\') ==> volume_of(
                HostOs::Windows,
                p,
            ) == (Volume::VerbatimShare, share)
            &&& (forall|i: int| 8 <= i < p.len() ==> #[trigger] p[i] != '\\') ==> volume_of(
                HostOs::Windows,
                p,
            ) == (Volume::VerbatimShare, p.len() as int)
            &&& 8 <= server < p.len() && p[server] == '\\' && (server + 1 < p.len() ==> p[server + 1]
                == '\\') && (forall|i: int| 8 <= i < server ==> #[trigger] p[i] != '\\')
                ==> volume_of(HostOs::Windows, p) == (Volume::VerbatimShare, server)
        },
        4 <= server <= p.len() && (server < p.len() ==> p[server] == '\\') && (forall|i: int|
            4 <= i < server ==> #[trigger] p[i] != '\\') && !on_a_drive(p.skip(4)) && !(8
            <= p.len() && p[4] == 'U' && p[5] == 'N' && p[6] == 'C' && parts_names(p[7]))
            ==> volume_of(HostOs::Windows, p) == (Volume::Verbatim, server),
{
    let os = HostOs::Windows;
    let s = slashed(os, p);
    lemma_letters_of_drives(p[0]);
    if p.len() > 4 {
        lemma_letters_of_drives(p[4]);
        assert(p.skip(4)[0] == p[4]);
    }
    if p.len() > 5 {
        assert(p.skip(4)[1] == p[5]);
    }
    if 8 <= p.len() && p[4] == 'U' && p[5] == 'N' && p[6] == 'C' && parts_names(p[7]) {
        if 8 <= server < share - 1 && share <= p.len() && p[server] == '\\' && (share < p.len()
            ==> p[share] == '\\') && (forall|i: int|
            8 <= i < share && i != server ==> #[trigger] p[i] != '\\') {
            lemma_next(p, '\\', 8, server);
            lemma_next(p, '\\', server + 1, share);
        }
        if 8 <= server < p.len() && p[server] == '\\' && (server + 1 < p.len() ==> p[server + 1]
            == '\\') && (forall|i: int| 8 <= i < server ==> #[trigger] p[i] != '\\') {
            lemma_next(p, '\\', 8, server);
            lemma_next(p, '\\', server + 1, server + 1);
        }
        if forall|i: int| 8 <= i < p.len() ==> #[trigger] p[i] != '\\' {
            lemma_next(p, '\\', 8, p.len() as int);
        }
    }
    if 4 <= server <= p.len() && (server < p.len() ==> p[server] == '\\') && (forall|i: int|
        4 <= i < server ==> #[trigger] p[i] != '\\') {
        lemma_next(p, '\\', 4, server);
    }
}

/// Behind `UNC` either separator will do.
pub proof fn lemma_either_separator_behind_unc(p: Seq<char>, q: Seq<char>)
    requires
        starts_as_it_stands(p),
        p.len() == q.len() >= 8,
        p[4] == 'U' && p[5] == 'N' && p[6] == 'C',
        parts_names(p[7]) && parts_names(q[7]),
        forall|i: int| 0 <= i < p.len() && i != 7 ==> #[trigger] p[i] == q[i],
    ensures
        same_path(HostOs::Windows, p, q),
{
    let os = HostOs::Windows;
    lemma_letters_of_drives(p[0]);
    assert(q[0] == p[0] && q[1] == p[1] && q[2] == p[2] && q[3] == p[3]);
    assert(q[4] == p[4] && q[5] == p[5] && q[6] == p[6]);
    lemma_next_agrees(p, q, '\\', 8);
    let server = next_of(p, '\\', 8);
    lemma_next_agrees(p, q, '\\', server + 1);
    let n = prefix_len(os, p);
    assert(prefix_len(os, q) == n);
    assert(p.take(n).update(7, '\\') =~= q.take(n).update(7, '\\'));
    assert(p.skip(n) =~= q.skip(n));
    if n < p.len() {
        assert(p.skip(n + 1) =~= q.skip(n + 1));
    }
}

proof fn lemma_next_agrees(p: Seq<char>, q: Seq<char>, c: char, from: int)
    requires
        p.len() == q.len(),
        8 <= from,
        forall|i: int| 8 <= i < p.len() ==> #[trigger] p[i] == q[i],
    ensures
        next_of(p, c, from) == next_of(q, c, from),
        from <= p.len() ==> from <= next_of(p, c, from) <= p.len(),
    decreases p.len() - from,
{
    if from < p.len() {
        assert(p[from] == q[from]);
        lemma_next_agrees(p, q, c, from + 1);
    }
}

} // verus!
