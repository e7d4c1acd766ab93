//! Paths by the rules of the machine's system: volumes, roots, and components between
//! separators.
use crate::launch::HostOs;
use crate::text::{
    chars_of, is_empty, join, joined, lemma_texts_push, lower, lower_char, lowercase, lowered,
    pieces, same_text, split, text_of, texts,
};
use vstd::prelude::*;
use vstd::slice::slice_subrange;

verus! {

broadcast use vstd::seq::group_seq_axioms;

/// What parts the components of a path: on Windows either slash.
pub open spec fn is_separator(os: HostOs, c: char) -> bool {
    c == '/' || (os == HostOs::Windows && c == '\\')
}

/// The separator that is written.
pub open spec fn main_separator(os: HostOs) -> char {
    if os == HostOs::Windows {
        '\\'
    } else {
        '/'
    }
}

/// The path with `/` for every separator.
pub open spec fn slashed(os: HostOs, p: Seq<char>) -> Seq<char> {
    p.map_values(
        |c: char|
            if is_separator(os, c) {
                '/'
            } else {
                c
            },
    )
}

/// The position of the first `c` from `from` on, or the length.
pub open spec fn next_of(s: Seq<char>, c: char, from: int) -> int
    decreases s.len() - from,
{
    if from >= s.len() {
        s.len() as int
    } else if s[from] == c {
        from
    } else {
        next_of(s, c, from + 1)
    }
}

/// What names a volume at the start of a path. Only Windows knows volumes.
#[derive(Debug, Clone, Copy, PartialEq, Eq, Structural)]
pub enum Volume {
    /// Nothing does.
    Absent,
    /// A letter and a colon: `C:`.
    Drive,
    /// A volume of another machine: `\\server\share`.
    Share,
    /// A device: `\\.\COM42`.
    Device,
    /// A name that is taken as it stands: `\\?\name`.
    Verbatim,
    /// A drive, and what follows is taken as it stands: `\\?\C:`.
    VerbatimDrive,
    /// A volume of another machine, and what follows is taken as it stands:
    /// `\\?\UNC\server\share`.
    VerbatimShare,
}

/// The letter and the colon of a drive.
pub open spec fn starts_with_drive(s: Seq<char>) -> bool {
    s.len() >= 2 && ('a' <= lower(s[0]) <= 'z') && s[1] == ':'
}

/// The start of a path that is taken as it stands. It is written with backslashes.
pub open spec fn starts_verbatim(p: Seq<char>) -> bool {
    p.len() >= 4 && p[0] == '\\' && p[1] == '\\' && p[2] == '?' && p[3] == '\\'
}

/// The end of a server's name that starts at `from`, and of the name behind it unless that is
/// empty, with `c` between them.
pub open spec fn two_names_end(s: Seq<char>, c: char, from: int) -> int {
    let server = next_of(s, c, from);
    let share = next_of(s, c, server + 1);
    if server < s.len() && server + 1 < share {
        share
    } else {
        server
    }
}

/// What names the volume in a path that is taken as it stands, and where it ends.
pub open spec fn verbatim_volume(p: Seq<char>) -> (Volume, int) {
    let s = slashed(HostOs::Windows, p);
    if s.len() >= 8 && s[4] == 'U' && s[5] == 'N' && s[6] == 'C' && s[7] == '/' {
        (Volume::VerbatimShare, two_names_end(p, '\\', 8))
    } else if starts_with_drive(p.skip(4)) && (p.len() == 6 || s[6] == '/') {
        (Volume::VerbatimDrive, 6)
    } else {
        (Volume::Verbatim, next_of(p, '\\', 4))
    }
}

/// What names the volume of a path, and where it ends. A server needs a name, and so does what
/// it shares.
pub open spec fn volume_of(os: HostOs, p: Seq<char>) -> (Volume, int) {
    let s = slashed(os, p);
    let server = next_of(s, '/', 2);
    if os != HostOs::Windows {
        (Volume::Absent, 0)
    } else if starts_with_drive(p) {
        (Volume::Drive, 2)
    } else if s.len() < 2 || s[0] != '/' || s[1] != '/' {
        (Volume::Absent, 0)
    } else if starts_verbatim(p) {
        verbatim_volume(p)
    } else if s.len() >= 4 && s[2] == '.' && s[3] == '/' {
        (Volume::Device, next_of(s, '/', 4))
    } else if 2 < server < s.len() && server + 1 < next_of(s, '/', server + 1) {
        (Volume::Share, next_of(s, '/', server + 1))
    } else {
        (Volume::Absent, 0)
    }
}

/// The length of the part that names a volume.
pub open spec fn prefix_len(os: HostOs, p: Seq<char>) -> int {
    volume_of(os, p).1
}

/// The path is taken as it stands: only the backslash parts components, and a dot is one.
pub open spec fn is_verbatim(os: HostOs, p: Seq<char>) -> bool {
    let kind = volume_of(os, p).0;
    kind == Volume::Verbatim || kind == Volume::VerbatimDrive || kind == Volume::VerbatimShare
}

/// The volume in one spelling: slashes where either slash will do, drives in lower case.
pub open spec fn prefix_name(os: HostOs, p: Seq<char>) -> Seq<char> {
    let n = prefix_len(os, p);
    match volume_of(os, p).0 {
        Volume::Absent => Seq::<char>::empty(),
        Volume::Drive | Volume::VerbatimDrive => lowered(p.take(n)),
        Volume::Share | Volume::Device => slashed(os, p).take(n),
        Volume::Verbatim => p.take(n),
        Volume::VerbatimShare => p.take(n).update(7, '\\'),
    }
}

/// A separator stands behind the volume.
pub open spec fn writes_root(os: HostOs, p: Seq<char>) -> bool {
    prefix_len(os, p) < p.len() && is_separator(os, p[prefix_len(os, p)])
}

/// The root is a part of the path: it is written, or the volume is a share or a device, which
/// have nothing else.
pub open spec fn shows_root(os: HostOs, p: Seq<char>) -> bool {
    let kind = volume_of(os, p).0;
    writes_root(os, p) || kind == Volume::Share || kind == Volume::Device
}

/// The path starts at the root of its volume, as it always does but on a drive.
pub open spec fn has_root(os: HostOs, p: Seq<char>) -> bool {
    let kind = volume_of(os, p).0;
    writes_root(os, p) || (kind != Volume::Absent && kind != Volume::Drive)
}

/// A path is absolute where it starts at the root; on Windows, at that of a volume.
pub open spec fn is_absolute_path(os: HostOs, p: Seq<char>) -> bool {
    has_root(os, p) && (os == HostOs::Windows ==> volume_of(os, p).0 != Volume::Absent)
}

/// The piece at index `i` between separators names a component: it is not empty, and
/// it is not a `.`, unless that is where a relative path starts.
pub open spec fn is_component(piece: Seq<char>, i: int) -> bool {
    piece.len() > 0 && (piece == seq!['.'] ==> i == 0)
}

/// The pieces that name components.
pub open spec fn component_pieces(pieces: Seq<Seq<char>>) -> Seq<Seq<char>>
    decreases pieces.len(),
{
    if pieces.len() == 0 {
        Seq::<Seq<char>>::empty()
    } else {
        let before = component_pieces(pieces.drop_last());
        if is_component(pieces.last(), pieces.len() - 1) {
            before.push(pieces.last())
        } else {
            before
        }
    }
}

/// The components between slashes.
pub open spec fn slash_components(s: Seq<char>) -> Seq<Seq<char>> {
    component_pieces(pieces(s, '/'))
}

/// What stands behind the volume and the root of a path that is taken as it stands.
pub open spec fn verbatim_rest(os: HostOs, p: Seq<char>) -> Seq<char> {
    if writes_root(os, p) {
        p.skip(prefix_len(os, p) + 1)
    } else {
        p.skip(prefix_len(os, p))
    }
}

/// The components of a path below the root.
pub open spec fn components(os: HostOs, p: Seq<char>) -> Seq<Seq<char>> {
    if is_verbatim(os, p) {
        pieces(verbatim_rest(os, p), '\\').filter(|piece: Seq<char>| piece.len() > 0)
    } else {
        slash_components(slashed(os, p).skip(prefix_len(os, p)))
    }
}

/// The number of parts of a path: volume, root and components.
pub open spec fn part_count(os: HostOs, p: Seq<char>) -> int {
    components(os, p).len() + if volume_of(os, p).0 != Volume::Absent {
        1int
    } else {
        0
    } + if shows_root(os, p) {
        1int
    } else {
        0
    }
}

/// Two paths are the same where their volumes agree, the root is a part of both or of
/// neither, and their components agree.
pub open spec fn same_path(os: HostOs, a: Seq<char>, b: Seq<char>) -> bool {
    &&& prefix_name(os, a) == prefix_name(os, b)
    &&& shows_root(os, a) == shows_root(os, b)
    &&& components(os, a) == components(os, b)
}

/// A component that is neither `.` nor `..`.
pub open spec fn is_name(part: Seq<char>) -> bool {
    part != seq!['.'] && part != seq!['.', '.']
}

/// The components `parts` followed by `more`, of which `.` changes nothing and `..` takes the
/// name before it back.
pub open spec fn followed(parts: Seq<Seq<char>>, more: Seq<Seq<char>>) -> Seq<Seq<char>>
    decreases more.len(),
{
    if more.len() == 0 {
        parts
    } else {
        let before = followed(parts, more.drop_last());
        if is_name(more.last()) {
            before.push(more.last())
        } else if more.last() == seq!['.', '.'] && before.len() > 0 && is_name(before.last()) {
            before.drop_last()
        } else {
            before
        }
    }
}

/// `path`, which has no volume, seen from a `base` that is taken as it stands: the dots are
/// gone from what is appended.
pub open spec fn verbatim_join(os: HostOs, base: Seq<char>, path: Seq<char>) -> Seq<char> {
    let rooted = writes_root(os, base) || writes_root(os, path);
    let start = if writes_root(os, path) {
        Seq::<Seq<char>>::empty()
    } else {
        components(os, base)
    };
    let parts = followed(start, components(os, path));
    base.take(prefix_len(os, base)) + if rooted || parts.len() > 0 {
        seq!['\\']
    } else {
        Seq::<char>::empty()
    } + joined(parts, seq!['\\'])
}

/// `path` seen from `base`: an absolute path, or one with a volume, stands for itself; one
/// that starts at the root keeps the volume of the base; any other is appended behind a
/// separator. A bare drive needs none. Onto a base that is taken as it stands the parts are
/// appended one by one.
pub open spec fn joined_path(os: HostOs, base: Seq<char>, path: Seq<char>) -> Seq<char> {
    if is_absolute_path(os, path) || volume_of(os, path).0 != Volume::Absent {
        path
    } else if is_verbatim(os, base) && path.len() > 0 {
        verbatim_join(os, base, path)
    } else if has_root(os, path) {
        base.take(prefix_len(os, base)) + path
    } else if base.len() == 0 || is_separator(os, base.last()) || (base.len() == 2 && volume_of(
        os,
        base,
    ).0 == Volume::Drive) {
        base + path
    } else {
        base.push(main_separator(os)) + path
    }
}

/// The components without those that a `..` behind them takes back.
pub open spec fn settled(parts: Seq<Seq<char>>) -> Seq<Seq<char>>
    decreases parts.len(),
{
    if parts.len() == 0 {
        Seq::<Seq<char>>::empty()
    } else {
        let before = settled(parts.drop_last());
        if parts.last() == seq!['.', '.'] {
            if before.len() > 0 {
                before.drop_last()
            } else {
                before
            }
        } else if parts.last() == seq!['.'] {
            before
        } else {
            before.push(parts.last())
        }
    }
}

/// Where a path leads below its root, going by the names: links are not followed.
pub open spec fn way_of(os: HostOs, p: Seq<char>) -> Seq<Seq<char>> {
    if is_verbatim(os, p) {
        components(os, p)
    } else {
        settled(components(os, p))
    }
}

/// `b` is `a` or lies below it, going by the names.
pub open spec fn covers(os: HostOs, a: Seq<char>, b: Seq<char>) -> bool {
    let above = way_of(os, a);
    let below = way_of(os, b);
    &&& prefix_name(os, a) == prefix_name(os, b)
    &&& has_root(os, a) == has_root(os, b)
    &&& above.len() <= below.len()
    &&& below.take(above.len() as int) == above
}

/// Every path covers itself, and what covers a path covers all that the path covers.
pub proof fn lemma_covers(os: HostOs, a: Seq<char>, b: Seq<char>, c: Seq<char>)
    ensures
        covers(os, a, a),
        covers(os, a, b) && covers(os, b, c) ==> covers(os, a, c),
{
    let x = way_of(os, a);
    let y = way_of(os, b);
    let z = way_of(os, c);
    assert(x.take(x.len() as int) =~= x);
    if covers(os, a, b) && covers(os, b, c) {
        assert(z.take(x.len() as int) =~= z.take(y.len() as int).take(x.len() as int));
    }
}

/// Where there are no volumes, the components are those between the slashes.
pub proof fn lemma_plain_components(os: HostOs, p: Seq<char>)
    requires
        os != HostOs::Windows,
    ensures
        slashed(os, p) == p,
        components(os, p) == slash_components(p),
        is_absolute_path(os, p) == (p.len() > 0 && p[0] == '/'),
{
    assert(slashed(os, p) =~= p);
    assert(slashed(os, p).skip(0) =~= p);
}

fn on_windows(os: HostOs) -> (r: bool)
    ensures
        r == (os == HostOs::Windows),
{
    match os {
        HostOs::Windows => true,
        _ => false,
    }
}

fn separator(os: HostOs, c: char) -> (r: bool)
    ensures
        r == is_separator(os, c),
{
    c == '/' || (c == '\\' && on_windows(os))
}

fn slash(os: HostOs, path: &str) -> (out: Vec<char>)
    ensures
        out@ == slashed(os, path@),
{
    let chars = chars_of(path);
    let mut out: Vec<char> = Vec::new();
    for i in 0..chars.len()
        invariant
            chars@ == path@,
            out.len() == i,
            forall|j: int| 0 <= j < i ==> out@[j] == #[trigger] slashed(os, path@)[j],
    {
        let c = chars[i];
        if separator(os, c) {
            out.push('/');
        } else {
            out.push(c);
        }
    }
    assert(out@ =~= slashed(os, path@));
    out
}

fn find_char(chars: &Vec<char>, c: char, from: usize) -> (at: usize)
    requires
        from <= chars.len(),
    ensures
        at == next_of(chars@, c, from as int),
        from <= at <= chars.len(),
{
    let mut at: usize = from;
    while at < chars.len() && chars[at] != c
        invariant
            from <= at <= chars.len(),
            next_of(chars@, c, from as int) == next_of(chars@, c, at as int),
        decreases chars.len() - at,
    {
        at += 1;
    }
    at
}

fn has_drive(chars: &Vec<char>, at: usize) -> (r: bool)
    requires
        at <= chars.len(),
    ensures
        r == starts_with_drive(chars@.skip(at as int)),
{
    if chars.len() - at < 2 {
        return false;
    }
    let letter = lower_char(chars[at]);
    'a' <= letter && letter <= 'z' && chars[at + 1] == ':'
}

/// What names the volume of a path, and where it ends.
fn find_volume(os: HostOs, path: &str) -> (r: (Volume, usize))
    ensures
        (r.0, r.1 as int) == volume_of(os, path@),
        r.1 <= path@.len(),
        r.0 == Volume::VerbatimShare ==> r.1 >= 8,
{
    if !on_windows(os) {
        return (Volume::Absent, 0);
    }
    let chars = chars_of(path);
    let slashes = slash(os, path);
    assert(chars@.skip(0) =~= chars@);
    if has_drive(&chars, 0) {
        return (Volume::Drive, 2);
    }
    if slashes.len() < 2 || slashes[0] != '/' || slashes[1] != '/' {
        return (Volume::Absent, 0);
    }
    if chars.len() >= 4 && chars[0] == '\\' && chars[1] == '\\' && chars[2] == '?' && chars[3]
        == '\\' {
        if slashes.len() >= 8 && slashes[4] == 'U' && slashes[5] == 'N' && slashes[6] == 'C'
            && slashes[7] == '/' {
            let server = find_char(&chars, '\\', 8);
            if server < chars.len() {
                let share = find_char(&chars, '\\', server + 1);
                if share > server + 1 {
                    return (Volume::VerbatimShare, share);
                }
            }
            return (Volume::VerbatimShare, server);
        }
        if has_drive(&chars, 4) && (chars.len() == 6 || slashes[6] == '/') {
            return (Volume::VerbatimDrive, 6);
        }
        return (Volume::Verbatim, find_char(&chars, '\\', 4));
    }
    if slashes.len() >= 4 && slashes[2] == '.' && slashes[3] == '/' {
        return (Volume::Device, find_char(&slashes, '/', 4));
    }
    let server = find_char(&slashes, '/', 2);
    if server > 2 && server < slashes.len() {
        let share = find_char(&slashes, '/', server + 1);
        if share > server + 1 {
            return (Volume::Share, share);
        }
    }
    (Volume::Absent, 0)
}

fn has_volume(os: HostOs, path: &str) -> (r: bool)
    ensures
        r == (volume_of(os, path@).0 != Volume::Absent),
{
    match find_volume(os, path).0 {
        Volume::Absent => false,
        _ => true,
    }
}

/// Whether `path` is taken as it stands.
pub fn taken_as_is(os: HostOs, path: &str) -> (r: bool)
    ensures
        r == is_verbatim(os, path@),
{
    match find_volume(os, path).0 {
        Volume::Verbatim | Volume::VerbatimDrive | Volume::VerbatimShare => true,
        _ => false,
    }
}

fn root_is_written(os: HostOs, path: &str) -> (r: bool)
    ensures
        r == writes_root(os, path@),
{
    let chars = chars_of(path);
    let (_, n) = find_volume(os, path);
    n < chars.len() && separator(os, chars[n])
}

fn root_is_shown(os: HostOs, path: &str) -> (r: bool)
    ensures
        r == shows_root(os, path@),
{
    match find_volume(os, path).0 {
        Volume::Share | Volume::Device => true,
        _ => root_is_written(os, path),
    }
}

/// Whether `path` starts at the root of its volume.
pub fn is_rooted(os: HostOs, path: &str) -> (r: bool)
    ensures
        r == has_root(os, path@),
{
    match find_volume(os, path).0 {
        Volume::Absent | Volume::Drive => root_is_written(os, path),
        _ => true,
    }
}

/// Whether `path` is absolute.
pub fn is_absolute(os: HostOs, path: &str) -> (r: bool)
    ensures
        r == is_absolute_path(os, path@),
{
    is_rooted(os, path) && (!on_windows(os) || has_volume(os, path))
}

fn follow(parts: Vec<String>, more: &Vec<String>) -> (out: Vec<String>)
    ensures
        texts(out@) == followed(texts(parts@), texts(more@)),
{
    let ghost start = texts(parts@);
    let ghost all = texts(more@);
    let mut out = parts;
    for i in 0..more.len()
        invariant
            all == texts(more@),
            texts(out@) == followed(start, all.take(i as int)),
    {
        assert(all.take(i + 1).drop_last() =~= all.take(i as int));
        assert(all.take(i + 1).last() == more@[i as int]@);
        assert(texts(out@).len() == out.len());
        let chars = chars_of(more[i].as_str());
        let up = is_dots(&chars, 2);
        if !up && !is_dots(&chars, 1) {
            proof {
                lemma_texts_push(out@, more@[i as int]);
            }
            out.push(more[i].clone());
        } else if up && out.len() > 0 {
            assert(texts(out@).last() == out@[out.len() - 1]@);
            let last = chars_of(out[out.len() - 1].as_str());
            if !is_dots(&last, 1) && !is_dots(&last, 2) {
                let ghost before = out@;
                out.truncate(out.len() - 1);
                assert(texts(out@) =~= texts(before).drop_last());
            }
        }
    }
    assert(all.take(all.len() as int) =~= all);
    out
}

fn join_verbatim(os: HostOs, base: &str, path: &str) -> (out: String)
    ensures
        out@ == verbatim_join(os, base@, path@),
{
    let chars = chars_of(base);
    let (_, n) = find_volume(os, base);
    let from_root = root_is_written(os, path);
    let start = if from_root {
        let none: Vec<String> = Vec::new();
        assert(texts(none@) =~= Seq::<Seq<char>>::empty());
        none
    } else {
        path_components(os, base)
    };
    let parts = follow(start, &path_components(os, path));
    assert(texts(parts@).len() == parts.len());
    let mut out = text_of(slice_subrange(chars.as_slice(), 0, n));
    assert(out@ =~= base@.take(n as int));
    if from_root || root_is_written(os, base) || parts.len() > 0 {
        out.push('\\');
    }
    proof {
        reveal_strlit("\\");
    }
    assert("\\"@ =~= seq!['\\']);
    out.append(join(&parts, "\\").as_str());
    assert(out@ =~= verbatim_join(os, base@, path@));
    out
}

/// `path` seen from `base`.
pub fn join_path(os: HostOs, base: &str, path: &str) -> (out: String)
    ensures
        out@ == joined_path(os, base@, path@),
{
    if is_absolute(os, path) || has_volume(os, path) {
        return path.to_string();
    }
    if !is_empty(path) && taken_as_is(os, base) {
        return join_verbatim(os, base, path);
    }
    let chars = chars_of(base);
    let (kind, n) = find_volume(os, base);
    if is_rooted(os, path) {
        let mut out = text_of(slice_subrange(chars.as_slice(), 0, n));
        assert(out@ =~= base@.take(n as int));
        out.append(path);
        return out;
    }
    let mut out = base.to_string();
    if chars.len() > 0 && !separator(os, chars[chars.len() - 1]) && !(chars.len() == 2 && kind
        == Volume::Drive) {
        out.push(
            if on_windows(os) {
                '\\'
            } else {
                '/'
            },
        );
    }
    out.append(path);
    out
}

fn verbatim_components(os: HostOs, path: &str) -> (out: Vec<String>)
    requires
        is_verbatim(os, path@),
    ensures
        texts(out@) == components(os, path@),
{
    let chars = chars_of(path);
    let (_, n) = find_volume(os, path);
    let start: usize = if root_is_written(os, path) {
        assert(n < chars.len());
        n + 1
    } else {
        n
    };
    let rest = text_of(slice_subrange(chars.as_slice(), start, chars.len()));
    assert(rest@ =~= verbatim_rest(os, path@));
    let parts = split(rest.as_str(), '\\');
    let mut out: Vec<String> = Vec::new();
    let ghost all = texts(parts@);
    let ghost keep = |piece: Seq<char>| piece.len() > 0;
    assert(all.take(0).filter(keep) =~= Seq::<Seq<char>>::empty()) by {
        reveal(Seq::filter);
    }
    assert(texts(out@) =~= all.take(0).filter(keep));
    for i in 0..parts.len()
        invariant
            all == texts(parts@),
            keep == (|piece: Seq<char>| piece.len() > 0),
            texts(out@) == all.take(i as int).filter(keep),
    {
        proof {
            reveal(Seq::filter);
        }
        assert(all.take(i + 1).drop_last() =~= all.take(i as int));
        assert(all.take(i + 1).last() == parts@[i as int]@);
        if !is_empty(parts[i].as_str()) {
            proof {
                lemma_texts_push(out@, parts@[i as int]);
            }
            out.push(parts[i].clone());
        }
    }
    assert(all.take(all.len() as int) =~= all);
    out
}

/// The components of `path` below the root.
pub fn path_components(os: HostOs, path: &str) -> (out: Vec<String>)
    ensures
        texts(out@) == components(os, path@),
{
    if taken_as_is(os, path) {
        return verbatim_components(os, path);
    }
    let all_chars = slash(os, path);
    let (_, start) = find_volume(os, path);
    let rest = text_of(slice_subrange(all_chars.as_slice(), start, all_chars.len()));
    assert(rest@ =~= slashed(os, path@).skip(prefix_len(os, path@)));
    let parts = split(rest.as_str(), '/');
    let mut out: Vec<String> = Vec::new();
    let ghost all = texts(parts@);
    assert(texts(out@) =~= component_pieces(all.take(0)));
    for i in 0..parts.len()
        invariant
            all == texts(parts@),
            texts(out@) == component_pieces(all.take(i as int)),
    {
        let piece = &parts[i];
        assert(all.take(i + 1).drop_last() =~= all.take(i as int));
        assert(all.take(i + 1).last() == piece@);
        let chars = chars_of(piece.as_str());
        let dot = is_dots(&chars, 1);
        assert(dot == (piece@ == seq!['.']));
        if chars.len() > 0 && (!dot || i == 0) {
            proof {
                lemma_texts_push(out@, *piece);
            }
            out.push(piece.clone());
        }
    }
    assert(all.take(all.len() as int) =~= all);
    out
}

/// Whether `chars` is one dot, or two.
fn is_dots(chars: &Vec<char>, n: usize) -> (r: bool)
    requires
        n == 1 || n == 2,
    ensures
        n == 1 ==> r == (chars@ == seq!['.']),
        n == 2 ==> r == (chars@ == seq!['.', '.']),
{
    let r = chars.len() == n && chars[0] == '.' && chars[n - 1] == '.';
    proof {
        if r && n == 1 {
            assert(chars@ =~= seq!['.']);
        }
        if r && n == 2 {
            assert(chars@ =~= seq!['.', '.']);
        }
    }
    r
}

/// Whether two lists hold the same texts in the same order.
pub fn same_texts(a: &Vec<String>, b: &Vec<String>) -> (r: bool)
    ensures
        r == (texts(a@) == texts(b@)),
{
    if a.len() != b.len() {
        assert(texts(a@).len() != texts(b@).len());
        return false;
    }
    for i in 0..a.len()
        invariant
            a.len() == b.len(),
            forall|j: int| 0 <= j < i ==> a@[j]@ == b@[j]@,
    {
        if !same_text(a[i].as_str(), b[i].as_str()) {
            assert(texts(a@)[i as int] != texts(b@)[i as int]);
            return false;
        }
    }
    assert(texts(a@) =~= texts(b@));
    true
}

/// The volume of `path` in one spelling.
fn volume(os: HostOs, path: &str) -> (out: String)
    ensures
        out@ == prefix_name(os, path@),
{
    let chars = chars_of(path);
    let slashes = slash(os, path);
    let (kind, n) = find_volume(os, path);
    let name = text_of(slice_subrange(chars.as_slice(), 0, n));
    assert(name@ =~= path@.take(n as int));
    match kind {
        Volume::Absent => {
            assert(name@ =~= Seq::<char>::empty());
            name
        },
        Volume::Drive | Volume::VerbatimDrive => lowercase(name.as_str()),
        Volume::Share | Volume::Device => {
            let out = text_of(slice_subrange(slashes.as_slice(), 0, n));
            assert(out@ =~= slashed(os, path@).take(n as int));
            out
        },
        Volume::Verbatim => name,
        Volume::VerbatimShare => {
            let mut spelled = chars_of(name.as_str());
            spelled.set(7, '\\');
            text_of(spelled.as_slice())
        },
    }
}

/// Whether two paths are the same.
pub fn paths_equal(os: HostOs, a: &str, b: &str) -> (r: bool)
    ensures
        r == same_path(os, a@, b@),
{
    same_text(volume(os, a).as_str(), volume(os, b).as_str()) && root_is_shown(os, a)
        == root_is_shown(os, b) && same_texts(&path_components(os, a), &path_components(os, b))
}

/// Whether `path` has at most one part.
pub fn has_one_part(os: HostOs, path: &str) -> (r: bool)
    ensures
        r == (part_count(os, path@) <= 1),
{
    let parts = path_components(os, path);
    assert(texts(parts@).len() == parts.len());
    let on_volume = has_volume(os, path);
    let rooted = root_is_shown(os, path);
    if on_volume && rooted {
        false
    } else if on_volume || rooted {
        parts.len() == 0
    } else {
        parts.len() <= 1
    }
}

fn settle(parts: &Vec<String>) -> (out: Vec<String>)
    ensures
        texts(out@) == settled(texts(parts@)),
{
    let mut out: Vec<String> = Vec::new();
    let ghost all = texts(parts@);
    assert(texts(out@) =~= settled(all.take(0)));
    for i in 0..parts.len()
        invariant
            all == texts(parts@),
            texts(out@) == settled(all.take(i as int)),
    {
        assert(all.take(i + 1).drop_last() =~= all.take(i as int));
        assert(all.take(i + 1).last() == parts@[i as int]@);
        assert(texts(out@).len() == out.len());
        let chars = chars_of(parts[i].as_str());
        if is_dots(&chars, 2) {
            if out.len() > 0 {
                let ghost before = out@;
                out.truncate(out.len() - 1);
                assert(texts(out@) =~= texts(before).drop_last());
            }
        } else if !is_dots(&chars, 1) {
            proof {
                lemma_texts_push(out@, parts@[i as int]);
            }
            out.push(parts[i].clone());
        }
    }
    assert(all.take(all.len() as int) =~= all);
    out
}

fn find_way(os: HostOs, path: &str) -> (out: Vec<String>)
    ensures
        texts(out@) == way_of(os, path@),
{
    if taken_as_is(os, path) {
        path_components(os, path)
    } else {
        settle(&path_components(os, path))
    }
}

/// Whether `b` is `a` or lies below it.
pub fn path_covers(os: HostOs, a: &str, b: &str) -> (r: bool)
    ensures
        r == covers(os, a@, b@),
{
    if !same_text(volume(os, a).as_str(), volume(os, b).as_str()) || is_rooted(os, a) != is_rooted(
        os,
        b,
    ) {
        return false;
    }
    let above = find_way(os, a);
    let mut below = find_way(os, b);
    assert(texts(above@).len() == above.len() && texts(below@).len() == below.len());
    if above.len() > below.len() {
        return false;
    }
    let ghost all = texts(below@);
    below.truncate(above.len());
    assert(texts(below@) =~= all.take(above.len() as int));
    same_texts(&above, &below)
}

/// One of the paths is `p` or lies above it.
pub open spec fn any_covers(os: HostOs, list: Seq<Seq<char>>, p: Seq<char>) -> bool {
    exists|i: int| 0 <= i < list.len() && covers(os, #[trigger] list[i], p)
}

/// One of the paths is `p` or lies below it.
pub open spec fn covers_any(os: HostOs, p: Seq<char>, list: Seq<Seq<char>>) -> bool {
    exists|i: int| 0 <= i < list.len() && covers(os, p, #[trigger] list[i])
}

/// Whether one of the paths is `p` or lies above it.
pub fn is_covered(os: HostOs, list: &Vec<String>, p: &str) -> (r: bool)
    ensures
        r == any_covers(os, texts(list@), p@),
{
    for i in 0..list.len()
        invariant
            forall|j: int| 0 <= j < i ==> !covers(os, #[trigger] texts(list@)[j], p@),
    {
        if path_covers(os, list[i].as_str(), p) {
            assert(covers(os, texts(list@)[i as int], p@));
            return true;
        }
    }
    false
}

/// Whether one of the paths is `p` or lies below it.
pub fn is_above(os: HostOs, p: &str, list: &Vec<String>) -> (r: bool)
    ensures
        r == covers_any(os, p@, texts(list@)),
{
    for i in 0..list.len()
        invariant
            forall|j: int| 0 <= j < i ==> !covers(os, p@, #[trigger] texts(list@)[j]),
    {
        if path_covers(os, p, list[i].as_str()) {
            assert(covers(os, p@, texts(list@)[i as int]));
            return true;
        }
    }
    false
}

/// What a path is on disk.
#[derive(Debug, Clone, Copy, PartialEq, Eq, Structural)]
pub enum PathKind {
    Directory,
    /// Anything else that is there.
    File,
    Missing,
}

/// Of the paths, those that are there.
pub open spec fn present_paths(paths: Seq<Seq<char>>, kinds: Seq<PathKind>) -> Seq<Seq<char>>
    decreases paths.len(),
{
    if paths.len() == 0 {
        Seq::<Seq<char>>::empty()
    } else {
        let before = present_paths(paths.drop_last(), kinds);
        if kinds[paths.len() - 1] == PathKind::Missing {
            before
        } else {
            before.push(paths.last())
        }
    }
}

/// A path that is there is among those that are there.
pub proof fn lemma_present_paths(paths: Seq<Seq<char>>, kinds: Seq<PathKind>, i: int)
    requires
        0 <= i < paths.len(),
        kinds[i] != PathKind::Missing,
    ensures
        present_paths(paths, kinds).contains(paths[i]),
    decreases paths.len(),
{
    let before = present_paths(paths.drop_last(), kinds);
    let all = present_paths(paths, kinds);
    if i < paths.len() - 1 {
        lemma_present_paths(paths.drop_last(), kinds, i);
        let j = choose|j: int| 0 <= j < before.len() && before[j] == paths.drop_last()[i];
        assert(all[j] == paths[i]);
    } else {
        assert(all[all.len() - 1] == paths[i]);
    }
}

/// Of the paths, those that are there.
pub fn keep_present(paths: &Vec<String>, kinds: &Vec<PathKind>) -> (out: Vec<String>)
    requires
        paths.len() == kinds.len(),
    ensures
        texts(out@) == present_paths(texts(paths@), kinds@),
{
    let mut out: Vec<String> = Vec::new();
    let ghost all = texts(paths@);
    assert(texts(out@) =~= present_paths(all.take(0), kinds@));
    for i in 0..paths.len()
        invariant
            paths.len() == kinds.len(),
            all == texts(paths@),
            texts(out@) == present_paths(all.take(i as int), kinds@),
    {
        assert(all.take(i + 1).drop_last() =~= all.take(i as int));
        assert(all.take(i + 1).last() == paths@[i as int]@);
        if kinds[i] != PathKind::Missing {
            proof {
                lemma_texts_push(out@, paths@[i as int]);
            }
            out.push(paths[i].clone());
        }
    }
    assert(all.take(all.len() as int) =~= all);
    out
}

/// The position of the last `c` in `s`, or -1.
pub open spec fn last_position(s: Seq<char>, c: char) -> int
    decreases s.len(),
{
    if s.len() == 0 {
        -1
    } else if s.last() == c {
        s.len() - 1
    } else {
        last_position(s.drop_last(), c)
    }
}

/// The path starts with a slash.
pub open spec fn starts_with_slash(p: Seq<char>) -> bool {
    p.len() > 0 && p[0] == '/'
}

/// A path without what follows its last component: separators, and dots that stand for
/// the directory itself.
pub open spec fn without_tail(p: Seq<char>) -> Seq<char>
    decreases p.len(),
{
    if p.len() > 1 && p.last() == '/' {
        without_tail(p.drop_last())
    } else if p.len() > 1 && p.last() == '.' && p[p.len() - 2] == '/' {
        without_tail(p.drop_last())
    } else {
        p
    }
}

/// The path without its last component, where slashes part components; the root and the
/// empty path have none.
pub open spec fn parent_path(p: Seq<char>) -> Option<Seq<char>> {
    let body = without_tail(p);
    let cut = last_position(body, '/');
    if body.len() == 0 || body == seq!['/'] {
        None
    } else {
        Some(without_tail(body.take(cut + 1)))
    }
}

proof fn lemma_last_position(s: Seq<char>, c: char)
    ensures
        -1 <= last_position(s, c) < s.len(),
        last_position(s, c) >= 0 ==> s[last_position(s, c)] == c,
        forall|j: int| last_position(s, c) < j < s.len() ==> s[j] != c,
    decreases s.len(),
{
    if s.len() > 0 && s.last() != c {
        lemma_last_position(s.drop_last(), c);
        assert forall|j: int| last_position(s, c) < j < s.len() implies s[j] != c by {
            if j < s.len() - 1 {
                assert(s.drop_last()[j] == s[j]);
            }
        }
    }
}

proof fn lemma_pieces_last(s: Seq<char>)
    ensures
        pieces(s, '/').len() >= 1,
        pieces(s, '/').last() == s.skip(last_position(s, '/') + 1),
        last_position(s, '/') >= 0 ==> pieces(s, '/').drop_last() == pieces(
            s.take(last_position(s, '/')),
            '/',
        ),
        last_position(s, '/') < 0 ==> pieces(s, '/').len() == 1,
    decreases s.len(),
{
    lemma_last_position(s, '/');
    if s.len() == 0 {
        assert(s.skip(0) =~= Seq::<char>::empty());
    } else {
        let t = s.drop_last();
        lemma_pieces_last(t);
        lemma_last_position(t, '/');
        let at = last_position(s, '/');
        if s.last() == '/' {
            assert(s.take(at) =~= t);
            assert(s.skip(at + 1) =~= Seq::<char>::empty());
            assert(pieces(s, '/').drop_last() =~= pieces(t, '/'));
        } else {
            assert(t.skip(at + 1).push(s.last()) =~= s.skip(at + 1));
            let before = pieces(t, '/');
            assert(pieces(s, '/').drop_last() =~= before.drop_last());
            if at >= 0 {
                assert(t.take(at) =~= s.take(at));
            }
        }
    }
}

proof fn lemma_tail_components(p: Seq<char>)
    ensures
        slash_components(without_tail(p)) == slash_components(p),
        without_tail(p).len() <= p.len(),
        p.len() > 0 ==> without_tail(p).len() > 0 && without_tail(p)[0] == p[0],
    decreases p.len(),
{
    if p.len() > 1 && p.last() == '/' {
        lemma_tail_components(p.drop_last());
        let before = pieces(p.drop_last(), '/');
        assert(pieces(p, '/').drop_last() =~= before);
    } else if p.len() > 1 && p.last() == '.' && p[p.len() - 2] == '/' {
        let t = p.drop_last();
        lemma_tail_components(t);
        lemma_pieces_last(t);
        assert(last_position(t, '/') == t.len() - 1);
        assert(t.skip(t.len() as int) =~= Seq::<char>::empty());
        let before = pieces(t, '/');
        assert(before.drop_last() == pieces(t.take(t.len() - 1), '/'));
        lemma_pieces_last(t.take(t.len() - 1));
        assert(before.len() >= 2);
        assert(pieces(p, '/').drop_last() =~= before.drop_last());
        assert(pieces(p, '/').last() =~= seq!['.']);
    }
}

proof fn lemma_tail_ends(p: Seq<char>)
    ensures
        ({
            let t = without_tail(p);
            t.len() > 1 ==> t.last() != '/' && !(t.last() == '.' && t[t.len() - 2] == '/')
        }),
    decreases p.len(),
{
    if p.len() > 1 && (p.last() == '/' || (p.last() == '.' && p[p.len() - 2] == '/')) {
        lemma_tail_ends(p.drop_last());
    }
}

/// A parent has the components of the path but for the last one, and starts at the root
/// where the path does; a path without components has no parent.
pub proof fn lemma_parent_components(p: Seq<char>)
    ensures
        parent_path(p) is Some <==> slash_components(p).len() > 0,
        parent_path(p) matches Some(parent) ==> {
            &&& slash_components(parent) == slash_components(p).drop_last()
            &&& starts_with_slash(parent) == starts_with_slash(p)
        },
{
    let body = without_tail(p);
    let cut = last_position(body, '/');
    lemma_tail_components(p);
    lemma_tail_ends(p);
    lemma_last_position(body, '/');
    lemma_pieces_last(body);
    let parts = pieces(body, '/');
    if body.len() == 0 {
        assert(parts =~= seq![Seq::<char>::empty()]);
        reveal_with_fuel(component_pieces, 2);
    } else if body == seq!['/'] {
        assert(body.drop_last() =~= Seq::<char>::empty());
        reveal_with_fuel(pieces, 2);
        assert(parts =~= seq![Seq::<char>::empty(), Seq::<char>::empty()]);
        reveal_with_fuel(component_pieces, 3);
    } else {
        let name = body.skip(cut + 1);
        if body.len() == 1 {
            assert(body[0] != '/') by {
                if body[0] == '/' {
                    assert(body =~= seq!['/']);
                }
            }
        }
        assert(name.len() > 0);
        if name == seq!['.'] && cut >= 0 {
            assert(body.last() == name[0]);
            assert(body[body.len() - 2] == '/');
        }
        assert(is_component(parts.last(), parts.len() - 1));
        let base = body.take(cut + 1);
        lemma_tail_components(base);
        if cut < 0 {
            assert(base =~= Seq::<char>::empty());
            assert(pieces(base, '/') =~= seq![Seq::<char>::empty()]);
            assert(parts.drop_last() =~= Seq::<Seq<char>>::empty());
            reveal_with_fuel(component_pieces, 2);
        } else {
            let head = body.take(cut);
            assert(base.drop_last() =~= head);
            assert(pieces(base, '/') == pieces(head, '/').push(Seq::<char>::empty()));
            assert(pieces(base, '/').drop_last() =~= pieces(head, '/'));
            assert(slash_components(base) == slash_components(head));
            assert(base[0] == body[0]);
        }
        assert(slash_components(body) == component_pieces(parts.drop_last()).push(name));
        assert(slash_components(body).drop_last() =~= component_pieces(parts.drop_last()));
    }
}

/// The end of the path without its tail.
fn tail_start(chars: &Vec<char>, len: usize) -> (n: usize)
    requires
        len <= chars.len(),
    ensures
        n <= len,
        without_tail(chars@.take(len as int)) == chars@.take(n as int),
{
    let mut n: usize = len;
    while n > 1 && (chars[n - 1] == '/' || (chars[n - 1] == '.' && chars[n - 2] == '/'))
        invariant
            n <= len <= chars.len(),
            without_tail(chars@.take(len as int)) == without_tail(chars@.take(n as int)),
        decreases n,
    {
        assert(chars@.take(n as int).drop_last() =~= chars@.take(n - 1));
        n -= 1;
    }
    n
}

/// The position behind the last separator.
fn last_separator(chars: &Vec<char>, len: usize) -> (n: usize)
    requires
        len <= chars.len(),
    ensures
        n <= len,
        n == last_position(chars@.take(len as int), '/') + 1,
{
    let mut n: usize = len;
    while n > 0 && chars[n - 1] != '/'
        invariant
            n <= len <= chars.len(),
            last_position(chars@.take(len as int), '/') == last_position(
                chars@.take(n as int),
                '/',
            ),
        decreases n,
    {
        assert(chars@.take(n as int).drop_last() =~= chars@.take(n - 1));
        n -= 1;
    }
    n
}

/// The path without its last component.
pub fn parent(path: &str) -> (out: Option<String>)
    ensures
        match parent_path(path@) {
            Some(p) => out matches Some(text) && text@ == p,
            None => out is None,
        },
{
    let chars = chars_of(path);
    assert(chars@.take(chars@.len() as int) =~= chars@);
    let end = tail_start(&chars, chars.len());
    let ghost body = chars@.take(end as int);
    assert((body == seq!['/']) == (end == 1 && chars@[0] == '/')) by {
        if end == 1 && chars@[0] == '/' {
            assert(body =~= seq!['/']);
        }
        if body == seq!['/'] {
            assert(body.len() == 1);
            assert(body[0] == '/');
        }
    }
    if end == 0 || (end == 1 && chars[0] == '/') {
        return None;
    }
    let cut = last_separator(&chars, end);
    assert(body.take(cut as int) =~= chars@.take(cut as int));
    let stop = tail_start(&chars, cut);
    assert(chars@.take(stop as int) =~= chars@.subrange(0, stop as int));
    Some(text_of(slice_subrange(chars.as_slice(), 0, stop)))
}

} // verus!
