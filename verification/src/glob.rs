//! Name patterns with `*` as the wildcard.
use crate::text::{
    chars_of, has_char, is_space, lemma_strip_back, lemma_strip_front, lowercase, lowered, occurs_at,
    same_text, stands_at, texts, trim, trimmed,
};
use vstd::prelude::*;
use vstd::slice::slice_subrange;

verus! {

broadcast use vstd::seq::group_seq_axioms;

/// The wildcard pattern `p` accepts `c`: a `*` stands for any run of characters,
/// the empty one among them, and every other character for itself.
pub open spec fn glob_accepts(p: Seq<char>, c: Seq<char>) -> bool
    decreases p.len() + c.len(),
{
    if p.len() == 0 {
        c.len() == 0
    } else if p[0] == '*' {
        glob_accepts(p.skip(1), c) || (c.len() > 0 && glob_accepts(p, c.skip(1)))
    } else {
        c.len() > 0 && c[0] == p[0] && glob_accepts(p.skip(1), c.skip(1))
    }
}

/// A pattern matches a name. White space around the pattern does not count. With a
/// `*` in it, it is a wildcard pattern; without one, it matches the same name in any
/// mix of ASCII upper and lower case.
pub open spec fn pattern_matches(pattern: Seq<char>, name: Seq<char>) -> bool {
    let p = trimmed(pattern);
    if p.contains('*') {
        glob_accepts(p, name)
    } else {
        lowered(p) == lowered(name)
    }
}

/// Some pattern of the list matches the name.
pub open spec fn any_pattern_matches(patterns: Seq<Seq<char>>, name: Seq<char>) -> bool {
    exists|i: int| 0 <= i < patterns.len() && #[trigger] pattern_matches(patterns[i], name)
}

/// No `*` among the first `m` characters.
spec fn literal(p: Seq<char>, m: int) -> bool {
    forall|i: int| 0 <= i < m ==> p[i] != '*'
}

/// A literal beginning of a pattern is matched by exactly itself.
proof fn lemma_literal(p: Seq<char>, m: int, c: Seq<char>)
    requires
        0 <= m <= p.len(),
        literal(p, m),
    ensures
        glob_accepts(p, c) <==> occurs_at(c, p.take(m), 0) && glob_accepts(p.skip(m), c.skip(m)),
    decreases m,
{
    if m == 0 {
        assert(p.skip(0) =~= p);
        assert(c.skip(0) =~= c);
        assert(c.subrange(0, 0) =~= p.take(0));
    } else {
        let part = p.take(m);
        if c.len() > 0 && c[0] == p[0] {
            lemma_literal(p.skip(1), m - 1, c.skip(1));
            assert(p.skip(1).skip(m - 1) =~= p.skip(m));
            if m <= c.len() {
                assert(c.skip(1).skip(m - 1) =~= c.skip(m));
            }
            assert(p.skip(1).take(m - 1) =~= part.skip(1));
            if occurs_at(c, part, 0) {
                assert(c.skip(1).subrange(0, m - 1) =~= c.subrange(0, m).skip(1));
                assert(occurs_at(c.skip(1), part.skip(1), 0));
            }
            if occurs_at(c.skip(1), part.skip(1), 0) {
                assert forall|i: int| 0 <= i < m implies c.subrange(0, m)[i] == part[i] by {
                    if i > 0 {
                        assert(c.skip(1).subrange(0, m - 1)[i - 1] == part.skip(1)[i - 1]);
                    }
                }
                assert(c.subrange(0, m) =~= part);
            }
        } else if occurs_at(c, part, 0) {
            assert(c.subrange(0, m)[0] == part[0]);
        }
    }
}

/// Behind an accepted leading `*` some tail is accepted by the rest of the pattern.
proof fn lemma_star_takes(p: Seq<char>, c: Seq<char>) -> (k: int)
    requires
        p.len() > 0,
        p[0] == '*',
        glob_accepts(p, c),
    ensures
        0 <= k <= c.len(),
        glob_accepts(p.skip(1), c.skip(k)),
    decreases c.len(),
{
    if glob_accepts(p.skip(1), c) {
        assert(c.skip(0) =~= c);
        0
    } else {
        let k = lemma_star_takes(p, c.skip(1));
        assert(c.skip(1).skip(k) =~= c.skip(k + 1));
        k + 1
    }
}

/// A leading `*` takes any run of characters.
proof fn lemma_star_gives(p: Seq<char>, c: Seq<char>, k: int)
    requires
        p.len() > 0,
        p[0] == '*',
        0 <= k <= c.len(),
        glob_accepts(p.skip(1), c.skip(k)),
    ensures
        glob_accepts(p, c),
    decreases k,
{
    if k == 0 {
        assert(c.skip(0) =~= c);
    } else {
        assert(c.skip(1).skip(k - 1) =~= c.skip(k));
        lemma_star_gives(p, c.skip(1), k - 1);
    }
}

/// A pattern that starts with `*` accepts whatever it accepts a tail of.
proof fn lemma_star_absorbs(p: Seq<char>, c: Seq<char>, k: int)
    requires
        p.len() > 0,
        p[0] == '*',
        0 <= k <= c.len(),
        glob_accepts(p, c.skip(k)),
    ensures
        glob_accepts(p, c),
{
    let j = lemma_star_takes(p, c.skip(k));
    assert(c.skip(k).skip(j) =~= c.skip(k + j));
    lemma_star_gives(p, c, k + j);
}

/// `*`, a literal of `m` characters, and a rest that starts with `*` again: the
/// literal may be taken where it stands first.
proof fn lemma_star_first(p: Seq<char>, part: Seq<char>, m: int, c: Seq<char>, at: int)
    requires
        p.len() > m + 1,
        m >= 0,
        p[0] == '*',
        p[m + 1] == '*',
        literal(p.skip(1), m),
        part == p.subrange(1, m + 1),
        occurs_at(c, part, at),
        forall|j: int| 0 <= j < at ==> !occurs_at(c, part, j),
    ensures
        glob_accepts(p, c) <==> glob_accepts(p.skip(m + 1), c.skip(at + m)),
{
    let rest = p.skip(m + 1);
    assert(p.skip(1).take(m) =~= part);
    assert(p.skip(1).skip(m) =~= rest);
    if glob_accepts(p, c) {
        let k = lemma_star_takes(p, c);
        lemma_literal(p.skip(1), m, c.skip(k));
        assert(c.skip(k).subrange(0, m) =~= c.subrange(k, k + m));
        assert(occurs_at(c, part, k));
        assert(c.skip(k).skip(m) =~= c.skip(at + m).skip(k - at));
        lemma_star_absorbs(rest, c.skip(at + m), k - at);
    }
    if glob_accepts(rest, c.skip(at + m)) {
        lemma_literal(p.skip(1), m, c.skip(at));
        assert(c.skip(at).subrange(0, m) =~= c.subrange(at, at + m));
        assert(c.skip(at).skip(m) =~= c.skip(at + m));
        lemma_star_gives(p, c, at);
    }
}

/// `*`, a literal of `m` characters, and a rest: nothing is accepted in which the
/// literal does not stand.
proof fn lemma_star_absent(p: Seq<char>, part: Seq<char>, m: int, c: Seq<char>)
    requires
        p.len() >= m + 1,
        m >= 0,
        p[0] == '*',
        literal(p.skip(1), m),
        part == p.subrange(1, m + 1),
        forall|j: int| !occurs_at(c, part, j),
    ensures
        !glob_accepts(p, c),
{
    assert(p.skip(1).take(m) =~= part);
    if glob_accepts(p, c) {
        let k = lemma_star_takes(p, c);
        lemma_literal(p.skip(1), m, c.skip(k));
        assert(c.skip(k).subrange(0, m) =~= c.subrange(k, k + m));
        assert(occurs_at(c, part, k));
    }
}

/// `*` and a literal to the end: the accepted names are those that end with it.
proof fn lemma_star_last(p: Seq<char>, c: Seq<char>)
    requires
        p.len() > 0,
        p[0] == '*',
        literal(p.skip(1), p.len() - 1),
    ensures
        glob_accepts(p, c) <==> occurs_at(c, p.skip(1), c.len() - (p.len() - 1)),
{
    let m = p.len() - 1;
    let part = p.skip(1);
    assert(part.take(m) =~= part);
    if glob_accepts(p, c) {
        let k = lemma_star_takes(p, c);
        lemma_literal(part, m, c.skip(k));
        assert(part.skip(m).len() == 0);
        assert(k + m == c.len());
        assert(c.skip(k).subrange(0, m) =~= c.subrange(k, k + m));
    }
    if occurs_at(c, part, c.len() - m) {
        let k = c.len() - m;
        lemma_literal(part, m, c.skip(k));
        assert(c.skip(k).subrange(0, m) =~= c.subrange(k, k + m));
        lemma_star_gives(p, c, k);
    }
}

/// The pattern `*` matches every name.
pub proof fn lemma_star_matches_all(name: Seq<char>)
    ensures
        pattern_matches(seq!['*'], name),
{
    let p = seq!['*'];
    lemma_strip_front(p, |c: char| is_space(c), 0);
    assert(p.skip(0) =~= p);
    lemma_strip_back(p, |c: char| is_space(c), 1);
    assert(p.take(1) =~= p);
    assert(p[0] == '*');
    assert(p.contains('*'));
    assert(name.skip(name.len() as int).len() == 0);
    lemma_star_gives(p, name, name.len() as int);
}

/// A literal followed by `*` matches exactly the names that start with the literal.
pub proof fn lemma_prefix_pattern(prefix: Seq<char>, name: Seq<char>)
    requires
        !prefix.contains('*'),
        trimmed(prefix.push('*')) == prefix.push('*'),
    ensures
        pattern_matches(prefix.push('*'), name) <==> occurs_at(name, prefix, 0),
{
    let p = prefix.push('*');
    let m = prefix.len() as int;
    assert(p[m] == '*');
    assert(p.contains('*'));
    assert(literal(p, m)) by {
        assert forall|i: int| 0 <= i < m implies p[i] != '*' by {
            assert(prefix.contains(prefix[i]));
        }
    }
    lemma_literal(p, m, name);
    assert(p.take(m) =~= prefix);
    assert(p.skip(m) =~= seq!['*']);
    let tail = name.skip(m);
    assert(tail.skip(tail.len() as int).len() == 0);
    if m <= name.len() {
        lemma_star_gives(p.skip(m), tail, tail.len() as int);
    }
}

/// The first position at or behind `from` where `needle` stands.
fn find_from(chars: &[char], needle: &[char], from: usize) -> (found: Option<usize>)
    requires
        from <= chars.len(),
    ensures
        found matches Some(at) ==> from <= at && occurs_at(chars@, needle@, at as int),
        found matches Some(at) ==> forall|j: int|
            from <= j < at ==> !occurs_at(chars@, needle@, j),
        found is None ==> forall|j: int| from <= j ==> !occurs_at(chars@, needle@, j),
{
    let mut at: usize = from;
    loop
        invariant
            from <= at <= chars.len(),
            forall|j: int| from <= j < at ==> !occurs_at(chars@, needle@, j),
        decreases chars.len() - at,
    {
        if stands_at(chars, needle, at) {
            return Some(at);
        }
        if at == chars.len() {
            return None;
        }
        at += 1;
    }
}

/// The first position at or behind `from` that holds `*`, or else the end.
fn next_star(pattern: &[char], from: usize) -> (end: usize)
    requires
        from <= pattern.len(),
    ensures
        from <= end <= pattern.len(),
        end < pattern.len() ==> pattern@[end as int] == '*',
        forall|j: int| from <= j < end ==> pattern@[j] != '*',
{
    let mut end: usize = from;
    while end < pattern.len() && pattern[end] != '*'
        invariant
            from <= end <= pattern.len(),
            forall|j: int| from <= j < end ==> pattern@[j] != '*',
        decreases pattern.len() - end,
    {
        end += 1;
    }
    end
}

/// Whether the wildcard pattern accepts the name.
fn wildcard_accepts(pattern: &[char], name: &[char]) -> (accepted: bool)
    ensures
        accepted == glob_accepts(pattern@, name@),
{
    let ghost p = pattern@;
    let ghost c = name@;
    let first = next_star(pattern, 0);
    proof {
        lemma_literal(p, first as int, c);
        assert(p.take(first as int) =~= p.subrange(0, first as int));
    }
    if !stands_at(name, slice_subrange(pattern, 0, first), 0) {
        return false;
    }
    if first == pattern.len() {
        return name.len() == first;
    }
    let mut star: usize = first;
    let mut used: usize = first;
    loop
        invariant
            p == pattern@,
            c == name@,
            star < pattern.len(),
            p[star as int] == '*',
            used <= name.len(),
            glob_accepts(p, c) <==> glob_accepts(p.skip(star as int), c.skip(used as int)),
        decreases pattern.len() - star,
    {
        let end = next_star(pattern, star + 1);
        let ghost q = p.skip(star as int);
        let ghost d = c.skip(used as int);
        let ghost m = end - star - 1;
        let part = slice_subrange(pattern, star + 1, end);
        proof {
            assert(literal(q.skip(1), m)) by {
                assert forall|i: int| 0 <= i < m implies q.skip(1)[i] != '*' by {
                    assert(q.skip(1)[i] == p[star + 1 + i]);
                }
            }
            assert(part@ =~= q.subrange(1, m + 1));
        }
        if end == pattern.len() {
            proof {
                assert(q.skip(1) =~= part@);
                lemma_star_last(q, d);
                let at = c.len() - m;
                if at >= used {
                    assert(d.subrange(d.len() - m, d.len() as int) =~= c.subrange(at, at + m));
                }
            }
            if part.len() > name.len() - used {
                return false;
            }
            return stands_at(name, part, name.len() - part.len());
        }
        match find_from(name, part, used) {
            Some(at) => {
                proof {
                    assert(d.subrange(at - used, at - used + m) =~= c.subrange(at as int, at + m));
                    assert forall|j: int| 0 <= j < at - used implies !occurs_at(d, part@, j) by {
                        if occurs_at(d, part@, j) {
                            assert(d.subrange(j, j + m) =~= c.subrange(used + j, used + j + m));
                            assert(occurs_at(c, part@, used + j));
                        }
                    }
                    lemma_star_first(q, part@, m, d, at - used);
                    assert(q.skip(m + 1) =~= p.skip(end as int));
                    assert(d.skip(at - used + m) =~= c.skip(at + m));
                }
                used = at + part.len();
                star = end;
            },
            None => {
                proof {
                    assert forall|j: int| !occurs_at(d, part@, j) by {
                        if occurs_at(d, part@, j) {
                            assert(d.subrange(j, j + m) =~= c.subrange(used + j, used + j + m));
                            assert(occurs_at(c, part@, used + j));
                        }
                    }
                    lemma_star_absent(q, part@, m, d);
                }
                return false;
            },
        }
    }
}

/// Whether `pattern` matches `candidate`.
pub fn matches_glob(pattern: &str, candidate: &str) -> (matched: bool)
    ensures
        matched == pattern_matches(pattern@, candidate@),
{
    let trimmed_pattern = trim(pattern);
    if !has_char(trimmed_pattern.as_str(), '*') {
        let left = lowercase(trimmed_pattern.as_str());
        let right = lowercase(candidate);
        return same_text(left.as_str(), right.as_str());
    }
    let p = chars_of(trimmed_pattern.as_str());
    let c = chars_of(candidate);
    wildcard_accepts(p.as_slice(), c.as_slice())
}

/// Whether some pattern of the list matches `candidate`.
pub fn matches_glob_any(candidate: &str, patterns: &Vec<String>) -> (matched: bool)
    ensures
        matched == any_pattern_matches(texts(patterns@), candidate@),
{
    for i in 0..patterns.len()
        invariant
            forall|j: int|
                0 <= j < i ==> !#[trigger] pattern_matches(texts(patterns@)[j], candidate@),
    {
        if matches_glob(patterns[i].as_str(), candidate) {
            assert(pattern_matches(texts(patterns@)[i as int], candidate@));
            return true;
        }
    }
    false
}

} // verus!
