//! What holds of paths where slashes part the components and there are no volumes.
use crate::launch::{is_searched, HostOs};
use crate::paths::{
    component_pieces, components, covers, is_component, joined_path, lemma_plain_components,
    present_paths, same_path, way_of, PathKind,
};
use crate::text::{lemma_pieces_nonempty, pieces};
use vstd::prelude::*;

verus! {

broadcast use vstd::seq::group_seq_axioms;

/// A name that a directory can hold: not empty, without a slash, and none of the two names
/// made of dots alone.
pub open spec fn is_entry_name(n: Seq<char>) -> bool {
    n.len() > 0 && !n.contains('/') && n != seq!['.'] && n != seq!['.', '.']
}

/// The path of the entry `n` of the directory `base`.
pub open spec fn entry_path(base: Seq<char>, n: Seq<char>) -> Seq<char> {
    base + seq!['/'] + n
}

proof fn lemma_pieces_grow(s: Seq<char>, n: Seq<char>)
    requires
        !n.contains('/'),
    ensures
        pieces(s + seq!['/'] + n, '/') == pieces(s, '/').push(n),
    decreases n.len(),
{
    let head = s + seq!['/'];
    lemma_pieces_nonempty(s, '/');
    if n.len() == 0 {
        assert(head + n =~= s.push('/'));
        assert(s.push('/').drop_last() =~= s);
        assert(Seq::<char>::empty() =~= n);
    } else {
        let m = n.drop_last();
        assert forall|c: char| m.contains(c) implies n.contains(c) by {
            let k = choose|k: int| 0 <= k < m.len() && m[k] == c;
            assert(n[k] == c);
        }
        lemma_pieces_grow(s, m);
        let all = head + n;
        assert(all.drop_last() =~= head + m);
        assert(n[n.len() - 1] == n.last());
        assert(n.contains(n.last()));
        let before = pieces(s, '/').push(m);
        assert(before.drop_last() =~= pieces(s, '/'));
        assert(m.push(n.last()) =~= n);
    }
}

/// The components of an entry are those of its directory, and its name.
pub proof fn lemma_entry_components(os: HostOs, base: Seq<char>, n: Seq<char>)
    requires
        os != HostOs::Windows,
        n.len() > 0,
        !n.contains('/'),
        n != seq!['.'],
    ensures
        components(os, entry_path(base, n)) == components(os, base).push(n),
{
    lemma_plain_components(os, entry_path(base, n));
    lemma_plain_components(os, base);
    lemma_pieces_grow(base, n);
    let p = pieces(base, '/');
    lemma_pieces_nonempty(base, '/');
    assert(p.push(n).drop_last() =~= p);
    assert(is_component(n, p.len() as int));
}

/// Slashes at the end, doubled slashes and dots between slashes do not change a path.
pub proof fn lemma_same_path_in_other_words(os: HostOs, p: Seq<char>)
    requires
        os != HostOs::Windows,
        p.len() > 0,
    ensures
        same_path(os, p + seq!['/'], p),
        same_path(os, p + seq!['/', '.'], p),
{
    lemma_plain_components(os, p);
    let a = p + seq!['/'];
    let b = p + seq!['/', '.'];
    lemma_plain_components(os, a);
    lemma_plain_components(os, b);
    let none = Seq::<char>::empty();
    let dot = seq!['.'];
    assert(a =~= p + seq!['/'] + none);
    assert(b =~= p + seq!['/'] + dot);
    lemma_pieces_grow(p, none);
    lemma_pieces_grow(p, dot);
    let q = pieces(p, '/');
    lemma_pieces_nonempty(p, '/');
    assert(q.push(none).drop_last() =~= q);
    assert(q.push(dot).drop_last() =~= q);
    assert(!is_component(none, q.len() as int));
    assert(!is_component(dot, q.len() as int));
    assert(a[0] == p[0] && b[0] == p[0]);
}

/// A path seen from a directory: an absolute one stands for itself, any other stands behind
/// the directory and one slash.
pub proof fn lemma_path_seen_from(os: HostOs, base: Seq<char>, path: Seq<char>)
    requires
        os != HostOs::Windows,
    ensures
        path.len() > 0 && path[0] == '/' ==> joined_path(os, base, path) == path,
        !(path.len() > 0 && path[0] == '/') && base.len() > 0 && base.last() != '/'
            ==> joined_path(os, base, path) == base + seq!['/'] + path,
        !(path.len() > 0 && path[0] == '/') && base.len() > 0 && base.last() == '/'
            ==> joined_path(os, base, path) == base + path,
        !(path.len() > 0 && path[0] == '/') && base.len() == 0 ==> joined_path(os, base, path)
            == path,
{
    lemma_plain_components(os, path);
    if base.len() == 0 {
        assert(base + path =~= path);
    } else {
        assert(base.push('/') + path =~= base + seq!['/'] + path);
    }
}

/// Two entries of a directory are the same if and only if their names are.
pub proof fn lemma_entries_apart(os: HostOs, base: Seq<char>, n: Seq<char>, m: Seq<char>)
    requires
        os != HostOs::Windows,
        base.len() > 0,
        is_entry_name(n),
        is_entry_name(m),
    ensures
        same_path(os, entry_path(base, n), entry_path(base, m)) <==> n == m,
        !same_path(os, entry_path(base, n), base),
{
    lemma_entry_components(os, base, n);
    lemma_entry_components(os, base, m);
    let c = components(os, base);
    assert(c.push(n).last() == n && c.push(m).last() == m);
    assert(c.push(n).len() == c.len() + 1);
}

/// What lies below a directory: itself, its entries and theirs; and neither what lies above
/// it nor its neighbours, whatever their names start with. A step up takes a step down back.
pub proof fn lemma_below_a_directory(os: HostOs, base: Seq<char>, n: Seq<char>, m: Seq<char>)
    requires
        os != HostOs::Windows,
        base.len() > 0,
        is_entry_name(n),
        is_entry_name(m),
    ensures
        covers(os, base, base),
        covers(os, base, entry_path(base, n)),
        covers(os, base, entry_path(entry_path(base, n), m)),
        !covers(os, entry_path(base, n), base),
        covers(os, entry_path(base, n), entry_path(base, m)) <==> n == m,
        covers(os, base, entry_path(entry_path(base, n), seq!['.', '.'])),
        covers(os, entry_path(entry_path(base, n), seq!['.', '.']), base),
{
    let a = entry_path(base, n);
    let b = entry_path(base, m);
    let deep = entry_path(a, m);
    let up = seq!['.', '.'];
    let back = entry_path(a, up);
    lemma_entry_components(os, base, n);
    lemma_entry_components(os, base, m);
    lemma_entry_components(os, a, m);
    lemma_entry_components(os, a, up);
    lemma_plain_components(os, base);
    lemma_plain_components(os, a);
    lemma_plain_components(os, b);
    lemma_plain_components(os, deep);
    lemma_plain_components(os, back);
    let c = components(os, base);
    assert(c.push(n).drop_last() =~= c);
    assert(c.push(m).drop_last() =~= c);
    assert(c.push(n).push(m).drop_last() =~= c.push(n));
    assert(c.push(n).push(up).drop_last() =~= c.push(n));
    let w = way_of(os, base);
    assert(way_of(os, a) == w.push(n));
    assert(way_of(os, b) == w.push(m));
    assert(way_of(os, deep) == w.push(n).push(m));
    assert(w.push(n).drop_last() =~= w);
    assert(way_of(os, back) == w);
    assert(w.take(w.len() as int) =~= w);
    assert(w.push(n).take(w.len() as int) =~= w);
    assert(w.push(n).push(m).take(w.len() as int) =~= w);
    assert(w.push(m).take(w.push(n).len() as int) =~= w.push(m));
    assert(w.push(n).last() == n && w.push(m).last() == m);
    assert(a[0] == base[0] && b[0] == base[0] && deep[0] == base[0] && back[0] == base[0]);
}

/// Of some paths, those that are there: all of them and no others.
pub proof fn lemma_paths_that_are_there(
    paths: Seq<Seq<char>>,
    kinds: Seq<PathKind>,
    x: Seq<char>,
)
    requires
        paths.len() == kinds.len(),
    ensures
        present_paths(paths, kinds).contains(x) <==> exists|i: int|
            0 <= i < paths.len() && #[trigger] paths[i] == x && kinds[i] != PathKind::Missing,
{
    lemma_there(paths, kinds, x);
}

proof fn lemma_there(paths: Seq<Seq<char>>, kinds: Seq<PathKind>, x: Seq<char>)
    requires
        paths.len() <= kinds.len(),
    ensures
        present_paths(paths, kinds).contains(x) <==> exists|i: int|
            0 <= i < paths.len() && #[trigger] paths[i] == x && kinds[i] != PathKind::Missing,
    decreases paths.len(),
{
    if paths.len() > 0 {
        let t = paths.drop_last();
        lemma_there(t, kinds, x);
        let before = present_paths(t, kinds);
        let all = present_paths(paths, kinds);
        if before.contains(x) {
            let k = choose|k: int| 0 <= k < before.len() && before[k] == x;
            assert(all[k] == x);
            let i = choose|i: int|
                0 <= i < t.len() && #[trigger] t[i] == x && kinds[i] != PathKind::Missing;
            assert(paths[i] == x);
        }
        if all.contains(x) {
            let k = choose|k: int| 0 <= k < all.len() && all[k] == x;
            if k < before.len() {
                assert(before[k] == x);
            } else {
                assert(paths[paths.len() - 1] == x);
            }
        }
        if exists|i: int|
            0 <= i < paths.len() && #[trigger] paths[i] == x && kinds[i] != PathKind::Missing {
            let i = choose|i: int|
                0 <= i < paths.len() && #[trigger] paths[i] == x && kinds[i] != PathKind::Missing;
            if i < t.len() {
                assert(t[i] == x);
            } else {
                assert(all[all.len() - 1] == x);
            }
        }
    }
}

/// Which programs are looked for: a bare name is, a name with a directory in it is not, and
/// an absolute one is not.
pub proof fn lemma_which_programs_are_searched(os: HostOs, dir: Seq<char>, name: Seq<char>)
    requires
        os != HostOs::Windows,
        is_entry_name(name),
    ensures
        is_searched(os, name),
        dir.len() > 0 && components(os, dir).len() > 0 ==> !is_searched(os, entry_path(dir, name)),
        !is_searched(os, seq!['/'] + name),
{
    lemma_plain_components(os, name);
    lemma_plain_components(os, seq!['/'] + name);
    lemma_plain_components(os, entry_path(dir, name));
    assert(name[0] != '/') by {
        if name[0] == '/' {
            assert(name.contains('/'));
        }
    }
    lemma_bare_name(name);
    assert(component_pieces(seq![name]).len() <= 1) by {
        reveal_with_fuel(component_pieces, 3);
        assert(seq![name].drop_last() =~= Seq::<Seq<char>>::empty());
    }
    assert((seq!['/'] + name)[0] == '/');
    if dir.len() > 0 && components(os, dir).len() > 0 {
        lemma_entry_components(os, dir, name);
    }
}

proof fn lemma_bare_name(s: Seq<char>)
    requires
        !s.contains('/'),
    ensures
        pieces(s, '/') == seq![s],
    decreases s.len(),
{
    if s.len() == 0 {
        assert(Seq::<char>::empty() =~= s);
    } else {
        let t = s.drop_last();
        assert forall|c: char| t.contains(c) implies s.contains(c) by {
            let k = choose|k: int| 0 <= k < t.len() && t[k] == c;
            assert(s[k] == c);
        }
        lemma_bare_name(t);
        assert(s[s.len() - 1] == s.last());
        assert(s.contains(s.last()));
        assert(t.push(s.last()) =~= s);
        assert(seq![t].drop_last().push(s) =~= seq![s]);
    }
}

} // verus!
