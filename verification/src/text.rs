//! Text as sequences of characters.
//!
//! A `str` or `String` is modelled by its view, a `Seq<char>`. The spec functions
//! here say what trimming, lowering, splitting and joining mean on such sequences;
//! the executable functions compute them.
use vstd::prelude::*;
use vstd::slice::slice_subrange;

verus! {

broadcast use vstd::seq::group_seq_axioms;

/// `String::push` appends one character at the end of the string.
pub assume_specification[ String::push ](s: &mut String, c: char)
    ensures
        final(s)@ == old(s)@.push(c),
;

// ---------------------------------------------------------------------------
// Models

/// The characters with the Unicode `White_Space` property.
pub open spec fn is_space(c: char) -> bool {
    ||| '\u{9}' <= c <= '\u{d}'
    ||| c == '\u{20}'
    ||| c == '\u{85}'
    ||| c == '\u{a0}'
    ||| c == '\u{1680}'
    ||| '\u{2000}' <= c <= '\u{200a}'
    ||| c == '\u{2028}'
    ||| c == '\u{2029}'
    ||| c == '\u{202f}'
    ||| c == '\u{205f}'
    ||| c == '\u{3000}'
}

/// `s` without its longest prefix of characters that satisfy `p`.
pub open spec fn strip_front(s: Seq<char>, p: spec_fn(char) -> bool) -> Seq<char>
    decreases s.len(),
{
    if s.len() > 0 && p(s[0]) {
        strip_front(s.skip(1), p)
    } else {
        s
    }
}

/// `s` without its longest suffix of characters that satisfy `p`.
pub open spec fn strip_back(s: Seq<char>, p: spec_fn(char) -> bool) -> Seq<char>
    decreases s.len(),
{
    if s.len() > 0 && p(s.last()) {
        strip_back(s.drop_last(), p)
    } else {
        s
    }
}

/// `s` without leading and trailing white space.
pub open spec fn trimmed(s: Seq<char>) -> Seq<char> {
    strip_back(strip_front(s, |c: char| is_space(c)), |c: char| is_space(c))
}

/// The lower-case form of an ASCII letter; every other character is its own.
pub open spec fn lower(c: char) -> char {
    if 'A' <= c <= 'Z' {
        (c as u32 + 32) as char
    } else {
        c
    }
}

/// `s` with every ASCII letter lowered.
pub open spec fn lowered(s: Seq<char>) -> Seq<char> {
    s.map_values(|c: char| lower(c))
}

/// ASCII letters and digits.
pub open spec fn is_alphanumeric(c: char) -> bool {
    ||| 'a' <= c <= 'z'
    ||| 'A' <= c <= 'Z'
    ||| '0' <= c <= '9'
}

/// `needle` stands in `s` at position `i`.
pub open spec fn occurs_at(s: Seq<char>, needle: Seq<char>, i: int) -> bool {
    &&& 0 <= i
    &&& i + needle.len() <= s.len()
    &&& s.subrange(i, i + needle.len()) == needle
}

/// `needle` stands somewhere in `s`.
pub open spec fn occurs_in(s: Seq<char>, needle: Seq<char>) -> bool {
    exists|i: int| occurs_at(s, needle, i)
}

/// `s` ends with `suffix`.
pub open spec fn has_suffix(s: Seq<char>, suffix: Seq<char>) -> bool {
    suffix.len() <= s.len() && s.skip(s.len() - suffix.len()) == suffix
}

/// The pieces of `s` between the occurrences of `sep`: one piece more than there
/// are separators.
pub open spec fn pieces(s: Seq<char>, sep: char) -> Seq<Seq<char>>
    decreases s.len(),
{
    if s.len() == 0 {
        seq![Seq::<char>::empty()]
    } else {
        let before = pieces(s.drop_last(), sep);
        if s.last() == sep {
            before.push(Seq::<char>::empty())
        } else {
            before.drop_last().push(before.last().push(s.last()))
        }
    }
}

/// The texts one after the other, with `sep` between neighbours.
pub open spec fn joined(parts: Seq<Seq<char>>, sep: Seq<char>) -> Seq<char>
    decreases parts.len(),
{
    if parts.len() == 0 {
        Seq::<char>::empty()
    } else if parts.len() == 1 {
        parts[0]
    } else {
        joined(parts.drop_last(), sep) + sep + parts.last()
    }
}

/// The contents of a list of strings.
pub open spec fn texts(v: Seq<String>) -> Seq<Seq<char>> {
    Seq::new(v.len(), |i: int| v[i]@)
}

/// The contents of an optional string.
pub open spec fn opt_text(o: Option<String>) -> Option<Seq<char>> {
    match o {
        Some(s) => Some(s@),
        None => None,
    }
}

/// The contents of an optional list of strings.
pub open spec fn opt_texts(o: Option<Vec<String>>) -> Option<Seq<Seq<char>>> {
    match o {
        Some(v) => Some(texts(v@)),
        None => None,
    }
}

// ---------------------------------------------------------------------------
// Facts

pub proof fn lemma_texts_push(v: Seq<String>, s: String)
    ensures
        texts(v.push(s)) == texts(v).push(s@),
{
    assert(texts(v.push(s)) =~= texts(v).push(s@));
}

pub proof fn lemma_pieces_nonempty(s: Seq<char>, sep: char)
    ensures
        pieces(s, sep).len() >= 1,
    decreases s.len(),
{
    if s.len() > 0 {
        lemma_pieces_nonempty(s.drop_last(), sep);
    }
}

/// `strip_front` leaves the suffix that starts at the first character outside `p`.
pub proof fn lemma_strip_front(s: Seq<char>, p: spec_fn(char) -> bool, i: int)
    requires
        0 <= i <= s.len(),
        forall|j: int| 0 <= j < i ==> p(#[trigger] s[j]),
        i < s.len() ==> !p(s[i]),
    ensures
        strip_front(s, p) == s.skip(i),
    decreases s.len(),
{
    if i == 0 {
        assert(s.skip(0) =~= s);
    } else {
        assert(p(s[0]));
        assert forall|j: int| 0 <= j < i - 1 implies p(#[trigger] s.skip(1)[j]) by {
            assert(s.skip(1)[j] == s[j + 1]);
        }
        lemma_strip_front(s.skip(1), p, i - 1);
        assert(s.skip(1).skip(i - 1) =~= s.skip(i));
    }
}

/// `strip_back` leaves the prefix that ends behind the last character outside `p`.
pub proof fn lemma_strip_back(s: Seq<char>, p: spec_fn(char) -> bool, n: int)
    requires
        0 <= n <= s.len(),
        forall|j: int| n <= j < s.len() ==> p(#[trigger] s[j]),
        n > 0 ==> !p(s[n - 1]),
    ensures
        strip_back(s, p) == s.take(n),
    decreases s.len(),
{
    if n == s.len() {
        assert(s.take(n) =~= s);
    } else {
        assert(p(s[s.len() - 1]));
        lemma_strip_back(s.drop_last(), p, n);
        assert(s.drop_last().take(n) =~= s.take(n));
    }
}

/// A text that neither starts nor ends with white space is its own trimmed form.
pub proof fn lemma_trimmed_fixed(s: Seq<char>)
    requires
        s.len() > 0 ==> !is_space(s[0]) && !is_space(s.last()),
    ensures
        trimmed(s) == s,
{
    let p = |c: char| is_space(c);
    lemma_strip_front(s, p, 0);
    assert(s.skip(0) =~= s);
    lemma_strip_back(s, p, s.len() as int);
    assert(s.take(s.len() as int) =~= s);
}

/// A text without ASCII upper-case letters is its own lowered form.
pub proof fn lemma_lowered_fixed(s: Seq<char>)
    requires
        forall|i: int| 0 <= i < s.len() ==> !('A' <= #[trigger] s[i] <= 'Z'),
    ensures
        lowered(s) == s,
{
    assert(lowered(s) =~= s);
}

// ---------------------------------------------------------------------------
// Computations

/// The characters of `input`, in order.
pub fn chars_of(input: &str) -> (out: Vec<char>)
    ensures
        out@ == input@,
{
    let mut out: Vec<char> = Vec::new();
    for c in iter: input.chars()
        invariant
            out@ == input@.take(iter.index() as int),
            iter.seq() == input@,
    {
        out.push(c);
    }
    out
}

/// The string with the given characters.
pub fn text_of(chars: &[char]) -> (out: String)
    ensures
        out@ == chars@,
{
    let mut out = String::new();
    for i in 0..chars.len()
        invariant
            out@ == chars@.take(i as int),
    {
        out.push(chars[i]);
    }
    assert(chars@.take(chars@.len() as int) =~= chars@);
    out
}

/// Whether two texts have the same characters.
pub fn same_text(left: &str, right: &str) -> (same: bool)
    ensures
        same == (left@ == right@),
{
    let a = chars_of(left);
    let b = chars_of(right);
    if a.len() != b.len() {
        return false;
    }
    for i in 0..a.len()
        invariant
            a@ == left@,
            b@ == right@,
            a.len() == b.len(),
            forall|j: int| 0 <= j < i ==> a@[j] == b@[j],
    {
        if a[i] != b[i] {
            return false;
        }
    }
    assert(a@ =~= b@);
    true
}

/// Whether `input` has no characters.
pub fn is_empty(input: &str) -> (r: bool)
    ensures
        r == (input@.len() == 0),
{
    chars_of(input).len() == 0
}

/// Whether `c` has the Unicode `White_Space` property.
pub fn space(c: char) -> (r: bool)
    ensures
        r == is_space(c),
{
    ('\u{9}' <= c && c <= '\u{d}') || c == '\u{20}' || c == '\u{85}' || c == '\u{a0}' || c
        == '\u{1680}' || ('\u{2000}' <= c && c <= '\u{200a}') || c == '\u{2028}' || c == '\u{2029}'
        || c == '\u{202f}' || c == '\u{205f}' || c == '\u{3000}'
}

/// `input` without leading and trailing white space.
pub fn trim(input: &str) -> (out: String)
    ensures
        out@ == trimmed(input@),
{
    let chars = chars_of(input);
    let ghost p = |c: char| is_space(c);
    let mut start: usize = 0;
    while start < chars.len() && space(chars[start])
        invariant
            start <= chars.len(),
            p == (|c: char| is_space(c)),
            forall|j: int| 0 <= j < start ==> p(#[trigger] chars@[j]),
        decreases chars.len() - start,
    {
        start += 1;
    }
    proof {
        lemma_strip_front(chars@, p, start as int);
    }
    let ghost rest = chars@.skip(start as int);
    let mut end: usize = chars.len();
    while end > start && space(chars[end - 1])
        invariant
            start <= end <= chars.len(),
            p == (|c: char| is_space(c)),
            rest == chars@.skip(start as int),
            forall|j: int| end - start <= j < rest.len() ==> p(#[trigger] rest[j]),
        decreases end,
    {
        end -= 1;
    }
    proof {
        if end > start {
            assert(rest[end - start - 1] == chars@[end - 1]);
        }
        lemma_strip_back(rest, p, end - start);
        assert(rest.take(end - start) =~= chars@.subrange(start as int, end as int));
    }
    text_of(slice_subrange(chars.as_slice(), start, end))
}

/// `lower` on one character.
pub fn lower_char(c: char) -> (r: char)
    ensures
        r == lower(c),
{
    if 'A' <= c && c <= 'Z' {
        ((c as u8) + 32) as char
    } else {
        c
    }
}

/// Whether `c` is an ASCII letter or digit.
pub fn alphanumeric(c: char) -> (r: bool)
    ensures
        r == is_alphanumeric(c),
{
    ('a' <= c && c <= 'z') || ('A' <= c && c <= 'Z') || ('0' <= c && c <= '9')
}

/// `input` with every ASCII letter lowered.
pub fn lowercase(input: &str) -> (out: String)
    ensures
        out@ == lowered(input@),
{
    let chars = chars_of(input);
    let mut out = String::new();
    for i in 0..chars.len()
        invariant
            chars@ == input@,
            out@ == lowered(input@.take(i as int)),
    {
        out.push(lower_char(chars[i]));
        assert(lowered(input@.take(i + 1)) =~= lowered(input@.take(i as int)).push(
            lower(input@[i as int]),
        ));
    }
    assert(input@.take(chars@.len() as int) =~= input@);
    out
}

/// Whether `c` stands in `input`.
pub fn has_char(input: &str, c: char) -> (found: bool)
    ensures
        found == input@.contains(c),
{
    let chars = chars_of(input);
    for i in 0..chars.len()
        invariant
            chars@ == input@,
            forall|j: int| 0 <= j < i ==> input@[j] != c,
    {
        if chars[i] == c {
            assert(input@[i as int] == c);
            return true;
        }
    }
    false
}

/// Whether `needle` stands in `chars` at position `at`.
pub fn stands_at(chars: &[char], needle: &[char], at: usize) -> (r: bool)
    ensures
        r == occurs_at(chars@, needle@, at as int),
{
    if at > chars.len() || needle.len() > chars.len() - at {
        return false;
    }
    for i in 0..needle.len()
        invariant
            at + needle.len() <= chars.len(),
            forall|j: int| 0 <= j < i ==> chars@[at + j] == needle@[j],
    {
        if chars[at + i] != needle[i] {
            assert(chars@.subrange(at as int, at + needle@.len())[i as int] != needle@[i as int]);
            return false;
        }
    }
    assert(chars@.subrange(at as int, at + needle@.len()) =~= needle@);
    true
}

/// Whether `needle` stands somewhere in `input`.
pub fn has_text(input: &str, needle: &str) -> (found: bool)
    ensures
        found == occurs_in(input@, needle@),
{
    let chars = chars_of(input);
    let wanted = chars_of(needle);
    let mut at: usize = 0;
    while at < chars.len()
        invariant
            chars@ == input@,
            wanted@ == needle@,
            at <= chars.len(),
            forall|j: int| 0 <= j < at ==> !occurs_at(input@, needle@, j),
        decreases chars.len() - at,
    {
        if stands_at(chars.as_slice(), wanted.as_slice(), at) {
            return true;
        }
        at += 1;
    }
    stands_at(chars.as_slice(), wanted.as_slice(), at)
}

/// `input` without `suffix`, where it ends with it.
pub fn strip_suffix(input: &str, suffix: &str) -> (out: Option<String>)
    ensures
        out is Some <==> has_suffix(input@, suffix@),
        out matches Some(rest) ==> rest@ == input@.take(input@.len() - suffix@.len()),
{
    let chars = chars_of(input);
    let tail = chars_of(suffix);
    if tail.len() > chars.len() {
        return None;
    }
    let at = chars.len() - tail.len();
    assert(input@.skip(at as int) =~= input@.subrange(at as int, at + suffix@.len()));
    if stands_at(chars.as_slice(), tail.as_slice(), at) {
        assert(input@.take(at as int) =~= input@.subrange(0, at as int));
        Some(text_of(slice_subrange(chars.as_slice(), 0, at)))
    } else {
        None
    }
}

/// The pieces of `input` between the occurrences of `sep`.
pub fn split(input: &str, sep: char) -> (out: Vec<String>)
    ensures
        texts(out@) == pieces(input@, sep),
{
    let chars = chars_of(input);
    let mut out: Vec<String> = Vec::new();
    let mut piece = String::new();
    assert(texts(out@).push(piece@) =~= pieces(input@.take(0), sep));
    for i in 0..chars.len()
        invariant
            chars@ == input@,
            texts(out@).push(piece@) == pieces(input@.take(i as int), sep),
    {
        let c = chars[i];
        let ghost so_far = texts(out@).push(piece@);
        assert(input@.take(i + 1).drop_last() =~= input@.take(i as int));
        if c == sep {
            proof {
                lemma_texts_push(out@, piece);
            }
            out.push(piece);
            piece = String::new();
            assert(texts(out@).push(piece@) =~= so_far.push(Seq::<char>::empty()));
        } else {
            piece.push(c);
            assert(texts(out@).push(piece@) =~= so_far.drop_last().push(so_far.last().push(c)));
        }
    }
    assert(input@.take(chars@.len() as int) =~= input@);
    proof {
        lemma_texts_push(out@, piece);
    }
    out.push(piece);
    out
}

/// The parts one after the other, with `sep` between neighbours.
pub fn join(parts: &Vec<String>, sep: &str) -> (out: String)
    ensures
        out@ == joined(texts(parts@), sep@),
{
    let mut out = String::new();
    for i in 0..parts.len()
        invariant
            out@ == joined(texts(parts@).take(i as int), sep@),
    {
        let ghost all = texts(parts@);
        assert(all.take(i + 1).drop_last() =~= all.take(i as int));
        if i > 0 {
            out.append(sep);
        }
        out.append(parts[i].as_str());
        assert(i == 0 ==> out@ =~= all[0]);
    }
    assert(texts(parts@).take(parts@.len() as int) =~= texts(parts@));
    out
}

/// `left` followed by `right`.
pub fn concat(left: &str, right: &str) -> (out: String)
    ensures
        out@ == left@ + right@,
{
    let mut out = left.to_string();
    out.append(right);
    out
}

} // verus!
