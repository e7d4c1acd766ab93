//! What holds of texts, numbers, names, sizes and durations as people write them.
use crate::errors::{policy_message, sandbox_message, PolicyFault, SandboxFault};
use crate::glob::{any_pattern_matches, glob_accepts, pattern_matches};
use crate::levels::{
    level_name, named_level, named_preset, preset_name, IsolationLevel, PresetKind,
};
use crate::number::{
    decimal, digits_value, is_digit, lemma_decimal, lemma_parsed_decimal, parsed_u64, signed_decimal,
};
use crate::text::{
    has_suffix, is_alphanumeric, is_space, joined, lemma_lowered_fixed, lemma_pieces_nonempty,
    lemma_strip_back, lemma_strip_front, lemma_trimmed_fixed, lower, lowered, pieces, trimmed,
};
use crate::units::{
    duration_parts, formatted_bytes, formatted_millis, parsed_millis, parsed_size, size_parts,
    without_last,
};
use vstd::prelude::*;

verus! {

broadcast use vstd::seq::group_seq_axioms;

// ---------------------------------------------------------------------------
// Texts

/// Every character is white space.
pub open spec fn blank(s: Seq<char>) -> bool {
    forall|i: int| 0 <= i < s.len() ==> is_space(#[trigger] s[i])
}

/// Trimming takes the white space away at both ends and nothing else: what is left stands
/// between two blank texts, and neither starts nor ends with white space.
pub proof fn lemma_trimmed_core(front: Seq<char>, core: Seq<char>, back: Seq<char>)
    requires
        blank(front),
        blank(back),
        core.len() > 0 ==> !is_space(core[0]) && !is_space(core.last()),
    ensures
        trimmed(front + core + back) == core,
{
    let p = |c: char| is_space(c);
    let s = front + core + back;
    if core.len() == 0 {
        assert forall|j: int| 0 <= j < s.len() implies p(#[trigger] s[j]) by {
            if j < front.len() {
                assert(s[j] == front[j]);
            } else {
                assert(s[j] == back[j - front.len()]);
            }
        }
        lemma_strip_front(s, p, s.len() as int);
        let none = s.skip(s.len() as int);
        lemma_strip_back(none, p, 0);
        assert(none.take(0) =~= core);
    } else {
        assert forall|j: int| 0 <= j < front.len() implies p(#[trigger] s[j]) by {
            assert(s[j] == front[j]);
        }
        assert(s[front.len() as int] == core[0]);
        lemma_strip_front(s, p, front.len() as int);
        let rest = core + back;
        assert(s.skip(front.len() as int) =~= rest);
        assert forall|j: int| core.len() <= j < rest.len() implies p(#[trigger] rest[j]) by {
            assert(rest[j] == back[j - core.len()]);
        }
        assert(rest[core.len() - 1] == core.last());
        lemma_strip_back(rest, p, core.len() as int);
        assert(rest.take(core.len() as int) =~= core);
    }
}

/// What counts as white space: the tab and its four neighbours, the space, and the spaces and
/// line ends beyond ASCII. Letters, digits and punctuation of ASCII do not.
pub proof fn lemma_white_space(c: char)
    ensures
        is_space(c) <==> {
            ||| 9 <= c as u32 <= 13
            ||| c as u32 == 32
            ||| c as u32 == 0x85
            ||| c as u32 == 0xa0
            ||| c as u32 == 0x1680
            ||| 0x2000 <= c as u32 <= 0x200a
            ||| c as u32 == 0x2028
            ||| c as u32 == 0x2029
            ||| c as u32 == 0x202f
            ||| c as u32 == 0x205f
            ||| c as u32 == 0x3000
        },
        0x21 <= c as u32 <= 0x7e ==> !is_space(c),
{
}

/// Lowering changes the twenty-six upper-case letters of ASCII, each into the letter 32
/// places behind it, and nothing else.
pub proof fn lemma_lowering(s: Seq<char>, i: int)
    requires
        0 <= i < s.len(),
    ensures
        lowered(s).len() == s.len(),
        65 <= s[i] as u32 <= 90 ==> lowered(s)[i] as u32 == s[i] as u32 + 32,
        !(65 <= s[i] as u32 <= 90) ==> lowered(s)[i] == s[i],
        lowered(lowered(s)) == lowered(s),
{
    assert(lowered(s)[i] == lower(s[i]));
    assert forall|k: int| 0 <= k < lowered(s).len() implies !('A' <= #[trigger] lowered(s)[k]
        <= 'Z') by {
        assert(lowered(s)[k] == lower(s[k]));
    }
    lemma_lowered_fixed(lowered(s));
}

/// The letters and digits of ASCII.
pub proof fn lemma_letters_and_digits(c: char)
    ensures
        is_alphanumeric(c) <==> 48 <= c as u32 <= 57 || 65 <= c as u32 <= 90 || 97 <= c as u32
            <= 122,
{
}

/// Splitting loses nothing: no piece holds the separator, and the pieces put together again
/// are the text.
pub proof fn lemma_split_and_joined(s: Seq<char>, sep: char)
    ensures
        pieces(s, sep).len() >= 1,
        forall|i: int| 0 <= i < pieces(s, sep).len() ==> !(#[trigger] pieces(s, sep)[i]).contains(sep),
        joined(pieces(s, sep), seq![sep]) == s,
    decreases s.len(),
{
    lemma_pieces_nonempty(s, sep);
    let p = pieces(s, sep);
    if s.len() == 0 {
        assert(p[0] =~= s);
    } else {
        let t = s.drop_last();
        let before = pieces(t, sep);
        lemma_split_and_joined(t, sep);
        lemma_pieces_nonempty(t, sep);
        let one = seq![sep];
        if s.last() == sep {
            lemma_joined_push(before, Seq::<char>::empty(), one);
            assert(joined(p, one) =~= t + one + Seq::<char>::empty());
            assert(t + one + Seq::<char>::empty() =~= s);
            assert forall|i: int| 0 <= i < p.len() implies !(#[trigger] p[i]).contains(sep) by {
                if i < before.len() {
                    assert(p[i] == before[i]);
                }
            }
        } else {
            let last = before.last();
            let grown = last.push(s.last());
            assert(before.drop_last().push(last) =~= before);
            assert forall|i: int| 0 <= i < p.len() implies !(#[trigger] p[i]).contains(sep) by {
                if i < before.len() - 1 {
                    assert(p[i] == before[i]);
                } else {
                    assert(p[i] == grown);
                    assert(!before[before.len() - 1].contains(sep));
                    if grown.contains(sep) {
                        let k = choose|k: int| 0 <= k < grown.len() && grown[k] == sep;
                        assert(last[k] == sep);
                    }
                }
            }
            if before.len() == 1 {
                assert(p =~= seq![grown]);
                assert(t.push(s.last()) =~= s);
                assert(last == t);
            } else {
                let head = before.drop_last();
                lemma_joined_push(head, last, one);
                lemma_joined_push(head, grown, one);
                assert(joined(head, one) + one + grown =~= (joined(head, one) + one + last).push(
                    s.last(),
                ));
                assert(t.push(s.last()) =~= s);
            }
        }
    }
}

/// Texts put together: none are the empty text, one is itself, and one more stands behind a
/// separator.
pub proof fn lemma_joined_push(parts: Seq<Seq<char>>, last: Seq<char>, sep: Seq<char>)
    ensures
        joined(Seq::<Seq<char>>::empty(), sep).len() == 0,
        joined(seq![last], sep) == last,
        parts.len() > 0 ==> joined(parts.push(last), sep) == joined(parts, sep) + sep + last,
{
    assert(seq![last][0] == last);
    assert(parts.push(last).drop_last() =~= parts);
}

// ---------------------------------------------------------------------------
// Numbers

/// Which texts are numbers: digits, at least one, with or without one plus sign before them,
/// that stand for less than two to the sixty-fourth.
pub proof fn lemma_what_is_a_number(s: Seq<char>, digits: Seq<char>)
    requires
        s == digits || s == seq!['+'] + digits,
        digits.len() > 0 ==> digits[0] != '+',
    ensures
        parsed_u64(s) is Some <==> digits.len() > 0 && (forall|i: int|
            0 <= i < digits.len() ==> '0' <= #[trigger] digits[i] <= '9') && digits_value(
            digits,
        ) <= 0xffff_ffff_ffff_ffff,
        parsed_u64(s) matches Some(n) ==> n == digits_value(digits),
{
    if s == seq!['+'] + digits {
        assert(s.skip(1) =~= digits);
        assert(s[0] == '+');
    }
    if parsed_u64(s) is Some {
        assert forall|i: int| 0 <= i < digits.len() implies '0' <= #[trigger] digits[i] <= '9' by {
            assert(is_digit(digits[i]));
        }
    }
    if forall|i: int| 0 <= i < digits.len() ==> '0' <= #[trigger] digits[i] <= '9' {
        assert forall|i: int| 0 <= i < digits.len() implies is_digit(#[trigger] digits[i]) by {
            assert('0' <= digits[i] <= '9');
        }
    }
}

/// Digits count tenfold from one place to the next.
pub proof fn lemma_digit_places(s: Seq<char>, c: char)
    requires
        48 <= c as u32 <= 57,
    ensures
        digits_value(Seq::<char>::empty()) == 0,
        digits_value(s.push(c)) == digits_value(s) * 10 + (c as u32 - 48),
{
    assert(s.push(c).drop_last() =~= s);
}

/// A negative number is written with a minus sign before its size; others are written as
/// they are.
pub proof fn lemma_signed_numerals(n: nat)
    ensures
        signed_decimal(n as int) == decimal(n),
        n > 0 ==> signed_decimal(-(n as int)) == seq!['-'] + decimal(n),
        digits_value(decimal(n)) == n,
{
    lemma_decimal(n);
}

// ---------------------------------------------------------------------------
// Names

/// The three levels by name, in any case and with any white space around.
pub proof fn lemma_level_names(s: Seq<char>)
    ensures
        named_level(s) == Some(IsolationLevel::Fast) <==> lowered(trimmed(s)) == "fast"@,
        named_level(s) == Some(IsolationLevel::Safe) <==> lowered(trimmed(s)) == "safe"@,
        named_level(s) == Some(IsolationLevel::Paranoid) <==> lowered(trimmed(s)) == "paranoid"@,
        level_name(IsolationLevel::Fast) == "fast"@,
        level_name(IsolationLevel::Safe) == "safe"@,
        level_name(IsolationLevel::Paranoid) == "paranoid"@,
{
    reveal_strlit("fast");
    reveal_strlit("safe");
    reveal_strlit("paranoid");
    assert("fast"@[0] == 'f' && "safe"@[0] == 's' && "paranoid"@[0] == 'p');
}

/// The three presets by their names and short names, in any case and with any white space
/// around.
pub proof fn lemma_preset_names(s: Seq<char>)
    ensures
        named_preset(s) == Some(PresetKind::AiAgent) <==> lowered(trimmed(s)) == "ai-agent"@
            || lowered(trimmed(s)) == "aiagent"@ || lowered(trimmed(s)) == "agent"@,
        named_preset(s) == Some(PresetKind::WebServer) <==> lowered(trimmed(s)) == "web-server"@
            || lowered(trimmed(s)) == "webserver"@ || lowered(trimmed(s)) == "web"@,
        named_preset(s) == Some(PresetKind::Hermetic) <==> lowered(trimmed(s)) == "hermetic"@,
        preset_name(PresetKind::AiAgent) == "ai-agent"@,
        preset_name(PresetKind::WebServer) == "web-server"@,
        preset_name(PresetKind::Hermetic) == "hermetic"@,
{
    reveal_strlit("ai-agent");
    reveal_strlit("aiagent");
    reveal_strlit("agent");
    reveal_strlit("web-server");
    reveal_strlit("webserver");
    reveal_strlit("web");
    reveal_strlit("hermetic");
    assert("ai-agent"@[0] == 'a' && "aiagent"@[0] == 'a' && "agent"@[0] == 'a');
    assert("web-server"@[0] == 'w' && "webserver"@[0] == 'w' && "web"@[0] == 'w' && "hermetic"@[0]
        == 'h');
}

/// What is told of errors: each kind has a head of its own and keeps what it is about.
pub proof fn lemma_messages(s: Seq<char>, path: Seq<char>)
    ensures
        policy_message(PolicyFault::InvalidIsolationLevel(s)) == "invalid isolation level: "@ + s,
        policy_message(PolicyFault::InvalidPreset(s)) == "invalid preset: "@ + s,
        policy_message(PolicyFault::InvalidSize(s)) == "invalid human-readable size: "@ + s,
        policy_message(PolicyFault::InvalidDuration(s)) == "invalid human-readable duration: "@ + s,
        policy_message(PolicyFault::InvalidFilesystemAllowSpec(s))
            == "invalid filesystem allow spec: "@ + s,
        policy_message(PolicyFault::InvalidPolicyConfiguration(s))
            == "invalid policy configuration: "@ + s,
        policy_message(PolicyFault::ConfigParse(s)) == "failed to parse config file: "@ + s,
        policy_message(PolicyFault::ConfigRead { path, source: s })
            == "failed to read config file "@ + path + ": "@ + s,
        sandbox_message(SandboxFault::EmptyCommand) == "empty command"@,
        sandbox_message(SandboxFault::LaunchFailed(s)) == "launch failed: "@ + s,
        sandbox_message(SandboxFault::BackendUnavailable(s)) == "backend unavailable: "@ + s,
        sandbox_message(SandboxFault::Policy(s)) == "policy error: "@ + s,
        sandbox_message(SandboxFault::Io(s)) == "io error: "@ + s,
        sandbox_message(SandboxFault::TimedOut) == "timed out"@,
{
}

// ---------------------------------------------------------------------------
// Patterns

/// No `*` in the text.
pub open spec fn plain(p: Seq<char>) -> bool {
    forall|i: int| 0 <= i < p.len() ==> #[trigger] p[i] != '*'
}

/// A plain text, as a wildcard pattern, accepts itself and nothing else.
pub proof fn lemma_plain_pattern(p: Seq<char>, c: Seq<char>)
    requires
        plain(p),
    ensures
        glob_accepts(p, c) <==> p == c,
    decreases p.len(),
{
    if p.len() == 0 {
        assert(glob_accepts(p, c) ==> p =~= c);
    } else {
        assert(p[0] != '*');
        if c.len() > 0 && c[0] == p[0] {
            assert forall|i: int| 0 <= i < p.skip(1).len() implies #[trigger] p.skip(1)[i] != '*' by {
                assert(p.skip(1)[i] == p[i + 1]);
            }
            lemma_plain_pattern(p.skip(1), c.skip(1));
            if p.skip(1) == c.skip(1) {
                assert forall|i: int| 0 <= i < p.len() implies p[i] == c[i] by {
                    if i > 0 {
                        assert(p.skip(1)[i - 1] == c.skip(1)[i - 1]);
                    }
                }
                assert(p.len() == c.len());
                assert(p =~= c);
            }
        }
    }
}

/// A plain text and a `*` behind it: accepted is what starts with the text, and whose rest,
/// from some place on, the rest of the pattern accepts.
pub proof fn lemma_star_pattern(head: Seq<char>, rest: Seq<char>, c: Seq<char>)
    requires
        plain(head),
    ensures
        glob_accepts(head + seq!['*'] + rest, c) <==> head.len() <= c.len() && c.take(
            head.len() as int,
        ) == head && exists|k: int| head.len() <= k <= c.len() && #[trigger] glob_accepts(rest, c.skip(k)),
    decreases head.len() + c.len(),
{
    let p = head + seq!['*'] + rest;
    if head.len() == 0 {
        assert(p =~= seq!['*'] + rest);
        assert(p.skip(1) =~= rest);
        assert(c.take(0) =~= head);
        assert(c.skip(0) =~= c);
        if c.len() > 0 {
            lemma_star_pattern(head, rest, c.skip(1));
            assert(c.skip(1).take(0) =~= head);
            if exists|k: int| 0 <= k <= c.skip(1).len() && #[trigger] glob_accepts(
                rest,
                c.skip(1).skip(k),
            ) {
                let k = choose|k: int|
                    0 <= k <= c.skip(1).len() && #[trigger] glob_accepts(rest, c.skip(1).skip(k));
                assert(c.skip(1).skip(k) =~= c.skip(k + 1));
                assert(glob_accepts(rest, c.skip(k + 1)));
            }
            if exists|k: int| 0 <= k <= c.len() && #[trigger] glob_accepts(rest, c.skip(k)) {
                let k = choose|k: int| 0 <= k <= c.len() && #[trigger] glob_accepts(rest, c.skip(k));
                if k > 0 {
                    assert(c.skip(1).skip(k - 1) =~= c.skip(k));
                    assert(glob_accepts(rest, c.skip(1).skip(k - 1)));
                }
            }
        } else if exists|k: int| 0 <= k <= c.len() && #[trigger] glob_accepts(rest, c.skip(k)) {
            let k = choose|k: int| 0 <= k <= c.len() && #[trigger] glob_accepts(rest, c.skip(k));
            assert(c.skip(k) =~= c);
        }
        if glob_accepts(rest, c) {
            assert(glob_accepts(rest, c.skip(0)));
        }
    } else {
        assert(p[0] == head[0] && head[0] != '*');
        assert(p.skip(1) =~= head.skip(1) + seq!['*'] + rest);
        let n = head.len() as int;
        if c.len() > 0 && c[0] == head[0] {
            let (h, d) = (head.skip(1), c.skip(1));
            assert forall|i: int| 0 <= i < h.len() implies #[trigger] h[i] != '*' by {
                assert(h[i] == head[i + 1]);
            }
            lemma_star_pattern(h, rest, d);
            if n <= c.len() {
                assert(c.take(n).skip(1) =~= d.take(n - 1));
                if d.take(n - 1) == h {
                    assert forall|i: int| 0 <= i < n implies c.take(n)[i] == head[i] by {
                        if i > 0 {
                            assert(d.take(n - 1)[i - 1] == h[i - 1]);
                        }
                    }
                    assert(c.take(n) =~= head);
                }
            }
            if exists|k: int| n - 1 <= k <= d.len() && #[trigger] glob_accepts(rest, d.skip(k)) {
                let k = choose|k: int| n - 1 <= k <= d.len() && #[trigger] glob_accepts(rest, d.skip(k));
                assert(d.skip(k) =~= c.skip(k + 1));
                assert(glob_accepts(rest, c.skip(k + 1)));
            }
            if exists|k: int| n <= k <= c.len() && #[trigger] glob_accepts(rest, c.skip(k)) {
                let k = choose|k: int| n <= k <= c.len() && #[trigger] glob_accepts(rest, c.skip(k));
                assert(d.skip(k - 1) =~= c.skip(k));
                assert(glob_accepts(rest, d.skip(k - 1)));
            }
        } else if c.len() > 0 && n <= c.len() && c.take(n) == head {
            assert(c.take(n)[0] == head[0]);
        }
    }
}

/// How a pattern matches: without a `*` in any mix of cases, with one letter for letter; and
/// white space around the pattern never counts.
pub proof fn lemma_pattern_cases(pattern: Seq<char>, name: Seq<char>)
    ensures
        plain(trimmed(pattern)) ==> (pattern_matches(pattern, name) <==> lowered(trimmed(pattern))
            == lowered(name)),
        !plain(trimmed(pattern)) ==> (pattern_matches(pattern, name) <==> glob_accepts(
            trimmed(pattern),
            name,
        )),
{
    let p = trimmed(pattern);
    if p.contains('*') {
        let i = choose|i: int| 0 <= i < p.len() && p[i] == '*';
        assert(p[i] == '*');
    }
    if !plain(p) {
        let i = choose|i: int| 0 <= i < p.len() && #[trigger] p[i] == '*';
        assert(p.contains('*'));
    }
}

/// A list of patterns matches what one of them matches: more patterns never match less, and
/// no patterns match nothing.
pub proof fn lemma_pattern_lists(
    patterns: Seq<Seq<char>>,
    more: Seq<Seq<char>>,
    name: Seq<char>,
)
    ensures
        any_pattern_matches(patterns + more, name) <==> any_pattern_matches(patterns, name)
            || any_pattern_matches(more, name),
        !any_pattern_matches(Seq::<Seq<char>>::empty(), name),
        patterns.len() == 1 ==> any_pattern_matches(patterns, name) == pattern_matches(
            patterns[0],
            name,
        ),
{
    let all = patterns + more;
    if any_pattern_matches(all, name) {
        let i = choose|i: int| 0 <= i < all.len() && #[trigger] pattern_matches(all[i], name);
        if i < patterns.len() {
            assert(pattern_matches(patterns[i], name));
        } else {
            assert(pattern_matches(more[i - patterns.len()], name));
        }
    }
    if any_pattern_matches(patterns, name) {
        let i = choose|i: int|
            0 <= i < patterns.len() && #[trigger] pattern_matches(patterns[i], name);
        assert(pattern_matches(all[i], name));
    }
    if any_pattern_matches(more, name) {
        let i = choose|i: int| 0 <= i < more.len() && #[trigger] pattern_matches(more[i], name);
        assert(pattern_matches(all[i + patterns.len()], name));
    }
}

// ---------------------------------------------------------------------------
// Sizes and durations

/// The product, or the largest number of sixty-four bits where that is smaller.
pub open spec fn at_most_max(n: nat) -> nat {
    if n <= 0xffff_ffff_ffff_ffff {
        n
    } else {
        0xffff_ffff_ffff_ffff
    }
}

proof fn lemma_number_and_unit(n: u64, gap: Seq<char>, unit: Seq<char>)
    requires
        blank(gap),
        unit.len() > 0,
        forall|i: int| 0 <= i < unit.len() ==> 'a' <= #[trigger] unit[i] <= 'z',
    ensures
        ({
            let t = decimal(n as nat) + gap + unit;
            &&& lowered(trimmed(t)) == t
            &&& trimmed(without_last(t, unit.len() as int)) == decimal(n as nat)
            &&& has_suffix(t, unit)
            &&& t.len() > unit.len()
            &&& forall|k: int| 0 <= k < unit.len() ==> t[t.len() - unit.len() + k] == #[trigger] unit[k]
            &&& t[t.len() - unit.len() - 1] == (if gap.len() == 0 {
                decimal(n as nat).last()
            } else {
                gap.last()
            })
        }),
        parsed_u64(decimal(n as nat)) == Some(n),
{
    let d = decimal(n as nat);
    let t = d + gap + unit;
    lemma_decimal(n as nat);
    lemma_parsed_decimal(n);
    assert(is_digit(d[0]) && is_digit(d[d.len() - 1]));
    let none = Seq::<char>::empty();
    assert(t.last() == unit[unit.len() - 1]);
    assert(t[0] == d[0]);
    lemma_trimmed_fixed(t);
    assert forall|i: int| 0 <= i < t.len() implies !('A' <= #[trigger] t[i] <= 'Z') by {
        if i < d.len() {
            assert(is_digit(d[i]));
        } else if i < d.len() + gap.len() {
            assert(is_space(gap[i - d.len()]));
        } else {
            assert(t[i] == unit[i - d.len() - gap.len()]);
        }
    }
    lemma_lowered_fixed(t);
    assert(without_last(t, unit.len() as int) =~= none + d + gap);
    lemma_trimmed_core(none, d, gap);
    assert(t.skip(t.len() - unit.len()) =~= unit);
}

/// A text with another character at the place of a suffix's does not have the suffix.
proof fn lemma_not_suffix(t: Seq<char>, suffix: Seq<char>, k: int)
    requires
        0 <= k < suffix.len(),
        suffix.len() <= t.len() ==> t[t.len() - suffix.len() + k] != suffix[k],
    ensures
        !has_suffix(t, suffix),
{
    if has_suffix(t, suffix) {
        assert(t.skip(t.len() - suffix.len())[k] == suffix[k]);
    }
}

/// Sizes: a number counts bytes; with `k` or `kb` behind it units of 1024 bytes, with `m` or
/// `mb` units of 1024 times as much, and so on with `g` and `t`. White space between number
/// and unit does not count.
pub proof fn lemma_size_units(n: u64, gap: Seq<char>)
    requires
        blank(gap),
    ensures
        parsed_size(decimal(n as nat)) == Some(n),
        parsed_size(decimal(n as nat) + gap + "k"@) == Some(at_most_max(n as nat * 1024) as u64),
        parsed_size(decimal(n as nat) + gap + "kb"@) == Some(at_most_max(n as nat * 1024) as u64),
        parsed_size(decimal(n as nat) + gap + "m"@) == Some(
            at_most_max(n as nat * 1_048_576) as u64,
        ),
        parsed_size(decimal(n as nat) + gap + "mb"@) == Some(
            at_most_max(n as nat * 1_048_576) as u64,
        ),
        parsed_size(decimal(n as nat) + gap + "g"@) == Some(
            at_most_max(n as nat * 1_073_741_824) as u64,
        ),
        parsed_size(decimal(n as nat) + gap + "gb"@) == Some(
            at_most_max(n as nat * 1_073_741_824) as u64,
        ),
        parsed_size(decimal(n as nat) + gap + "t"@) == Some(
            at_most_max(n as nat * 1_099_511_627_776) as u64,
        ),
        parsed_size(decimal(n as nat) + gap + "tb"@) == Some(
            at_most_max(n as nat * 1_099_511_627_776) as u64,
        ),
{
    reveal_strlit("kb");
    reveal_strlit("k");
    reveal_strlit("mb");
    reveal_strlit("m");
    reveal_strlit("gb");
    reveal_strlit("g");
    reveal_strlit("tb");
    reveal_strlit("t");
    let d = decimal(n as nat);
    lemma_decimal(n as nat);
    lemma_parsed_decimal(n);
    assert(is_digit(d[0]) && is_digit(d[d.len() - 1]));
    lemma_trimmed_fixed(d);
    assert forall|i: int| 0 <= i < d.len() implies !('A' <= #[trigger] d[i] <= 'Z') by {
        assert(is_digit(d[i]));
    }
    lemma_lowered_fixed(d);
    lemma_other_ends(d, "kb"@, "k"@, "mb"@, "m"@);
    lemma_other_ends(d, "gb"@, "g"@, "tb"@, "t"@);
    if gap.len() > 0 {
        assert(is_space(gap[gap.len() - 1]));
    }
    lemma_number_and_unit(n, gap, "k"@);
    lemma_number_and_unit(n, gap, "kb"@);
    lemma_number_and_unit(n, gap, "m"@);
    lemma_number_and_unit(n, gap, "mb"@);
    lemma_number_and_unit(n, gap, "g"@);
    lemma_number_and_unit(n, gap, "gb"@);
    lemma_number_and_unit(n, gap, "t"@);
    lemma_number_and_unit(n, gap, "tb"@);
    let t = d + gap + "k"@;
    lemma_not_suffix(t, "kb"@, 1);
    let t = d + gap + "m"@;
    lemma_not_suffix(t, "kb"@, 1);
    lemma_not_suffix(t, "k"@, 0);
    lemma_not_suffix(t, "mb"@, 1);
    let t = d + gap + "mb"@;
    assert("mb"@[0] == 'm' && "mb"@[1] == 'b');
    lemma_not_suffix(t, "kb"@, 0);
    lemma_not_suffix(t, "k"@, 0);
    let t = d + gap + "g"@;
    lemma_not_suffix(t, "kb"@, 1);
    lemma_not_suffix(t, "k"@, 0);
    lemma_not_suffix(t, "mb"@, 1);
    lemma_not_suffix(t, "m"@, 0);
    lemma_not_suffix(t, "gb"@, 1);
    let t = d + gap + "gb"@;
    assert("gb"@[0] == 'g' && "gb"@[1] == 'b');
    lemma_not_suffix(t, "kb"@, 0);
    lemma_not_suffix(t, "k"@, 0);
    lemma_not_suffix(t, "mb"@, 0);
    lemma_not_suffix(t, "m"@, 0);
    let t = d + gap + "t"@;
    lemma_not_suffix(t, "kb"@, 1);
    lemma_not_suffix(t, "k"@, 0);
    lemma_not_suffix(t, "mb"@, 1);
    lemma_not_suffix(t, "m"@, 0);
    lemma_not_suffix(t, "gb"@, 1);
    lemma_not_suffix(t, "g"@, 0);
    lemma_not_suffix(t, "tb"@, 1);
    let t = d + gap + "tb"@;
    assert("tb"@[0] == 't' && "tb"@[1] == 'b');
    lemma_not_suffix(t, "kb"@, 0);
    lemma_not_suffix(t, "k"@, 0);
    lemma_not_suffix(t, "mb"@, 0);
    lemma_not_suffix(t, "m"@, 0);
    lemma_not_suffix(t, "gb"@, 0);
    lemma_not_suffix(t, "g"@, 0);
}

proof fn lemma_other_ends(
    t: Seq<char>,
    a: Seq<char>,
    b: Seq<char>,
    c: Seq<char>,
    d: Seq<char>,
)
    requires
        t.len() > 0,
        a.len() > 0 && t.last() != a.last(),
        b.len() > 0 && t.last() != b.last(),
        c.len() > 0 && t.last() != c.last(),
        d.len() > 0 && t.last() != d.last(),
    ensures
        !has_suffix(t, a),
        !has_suffix(t, b),
        !has_suffix(t, c),
        !has_suffix(t, d),
{
    lemma_not_suffix(t, a, a.len() - 1);
    lemma_not_suffix(t, b, b.len() - 1);
    lemma_not_suffix(t, c, c.len() - 1);
    lemma_not_suffix(t, d, d.len() - 1);
}

/// Durations: a number counts seconds, with `ms` behind it milliseconds, with `s` seconds,
/// with `m` minutes and with `h` hours. White space between number and unit does not count.
pub proof fn lemma_duration_units(n: u64, gap: Seq<char>)
    requires
        blank(gap),
    ensures
        parsed_millis(decimal(n as nat)) == Some(at_most_max(n as nat * 1_000) as u64),
        parsed_millis(decimal(n as nat) + gap + "ms"@) == Some(n),
        parsed_millis(decimal(n as nat) + gap + "s"@) == Some(at_most_max(n as nat * 1_000) as u64),
        parsed_millis(decimal(n as nat) + gap + "m"@) == Some(at_most_max(n as nat * 60_000) as u64),
        parsed_millis(decimal(n as nat) + gap + "h"@) == Some(
            at_most_max(n as nat * 3_600_000) as u64,
        ),
{
    reveal_strlit("ms");
    reveal_strlit("s");
    reveal_strlit("m");
    reveal_strlit("h");
    let d = decimal(n as nat);
    lemma_decimal(n as nat);
    lemma_parsed_decimal(n);
    assert(is_digit(d[0]) && is_digit(d[d.len() - 1]));
    lemma_trimmed_fixed(d);
    assert forall|i: int| 0 <= i < d.len() implies !('A' <= #[trigger] d[i] <= 'Z') by {
        assert(is_digit(d[i]));
    }
    lemma_lowered_fixed(d);
    lemma_other_ends(d, "ms"@, "s"@, "m"@, "h"@);
    if gap.len() > 0 {
        assert(is_space(gap[gap.len() - 1]));
    }
    lemma_number_and_unit(n, gap, "ms"@);
    lemma_number_and_unit(n, gap, "s"@);
    lemma_number_and_unit(n, gap, "m"@);
    lemma_number_and_unit(n, gap, "h"@);
    let t = d + gap + "s"@;
    lemma_not_suffix(t, "ms"@, 0);
    let t = d + gap + "m"@;
    lemma_not_suffix(t, "ms"@, 1);
    lemma_not_suffix(t, "s"@, 0);
    let t = d + gap + "h"@;
    lemma_not_suffix(t, "ms"@, 1);
    lemma_not_suffix(t, "s"@, 0);
    lemma_not_suffix(t, "m"@, 0);
}

/// What is no size is not taken for one: a text that is read as a size is a number with one of
/// the units behind it or with none, and comes to that many units.
pub proof fn lemma_what_is_a_size(s: Seq<char>) -> (r: (Seq<char>, u64))
    requires
        parsed_size(s) is Some,
    ensures
        parsed_u64(trimmed(r.0)) == Some(r.1),
        ({
            let t = lowered(trimmed(s));
            let b = parsed_size(s)->0;
            let n = r.1 as nat;
            ||| t == r.0 && b == n
            ||| (t == r.0 + "k"@ || t == r.0 + "kb"@) && b == at_most_max(n * 1024)
            ||| (t == r.0 + "m"@ || t == r.0 + "mb"@) && b == at_most_max(n * 1_048_576)
            ||| (t == r.0 + "g"@ || t == r.0 + "gb"@) && b == at_most_max(n * 1_073_741_824)
            ||| (t == r.0 + "t"@ || t == r.0 + "tb"@) && b == at_most_max(n * 1_099_511_627_776)
        }),
{
    reveal_strlit("kb");
    reveal_strlit("k");
    reveal_strlit("mb");
    reveal_strlit("m");
    reveal_strlit("gb");
    reveal_strlit("g");
    reveal_strlit("tb");
    reveal_strlit("t");
    let t = lowered(trimmed(s));
    let d = size_parts(t).0;
    let n = parsed_u64(trimmed(d))->0;
    lemma_cut(t, "kb"@);
    lemma_cut(t, "k"@);
    lemma_cut(t, "mb"@);
    lemma_cut(t, "m"@);
    lemma_cut(t, "gb"@);
    lemma_cut(t, "g"@);
    lemma_cut(t, "tb"@);
    lemma_cut(t, "t"@);
    (d, n)
}

proof fn lemma_cut(t: Seq<char>, suffix: Seq<char>)
    ensures
        has_suffix(t, suffix) ==> without_last(t, suffix.len() as int) + suffix == t,
{
    if has_suffix(t, suffix) {
        assert(t.take(t.len() - suffix.len()) + t.skip(t.len() - suffix.len()) =~= t);
    }
}

/// What is no duration is not taken for one: a text that is read as a duration is a number
/// with one of the units behind it or with none, and comes to that many units.
pub proof fn lemma_what_is_a_duration(s: Seq<char>) -> (r: (Seq<char>, u64))
    requires
        parsed_millis(s) is Some,
    ensures
        parsed_u64(trimmed(r.0)) == Some(r.1),
        ({
            let t = lowered(trimmed(s));
            let ms = parsed_millis(s)->0;
            let n = r.1 as nat;
            ||| t == r.0 + "ms"@ && ms == n
            ||| (t == r.0 || t == r.0 + "s"@) && ms == at_most_max(n * 1_000)
            ||| t == r.0 + "m"@ && ms == at_most_max(n * 60_000)
            ||| t == r.0 + "h"@ && ms == at_most_max(n * 3_600_000)
        }),
{
    reveal_strlit("ms");
    reveal_strlit("s");
    reveal_strlit("m");
    reveal_strlit("h");
    let t = lowered(trimmed(s));
    let d = duration_parts(t).0;
    let n = parsed_u64(trimmed(d))->0;
    lemma_cut(t, "ms"@);
    lemma_cut(t, "s"@);
    lemma_cut(t, "m"@);
    lemma_cut(t, "h"@);
    (d, n)
}

/// How a size is told: in the largest unit up to `g` in which it is a whole number.
pub proof fn lemma_told_sizes(bytes: nat)
    requires
        bytes > 0,
    ensures
        bytes % 1_073_741_824 == 0 ==> formatted_bytes(bytes) == decimal(bytes / 1_073_741_824)
            + "g"@,
        bytes % 1_073_741_824 != 0 && bytes % 1_048_576 == 0 ==> formatted_bytes(bytes) == decimal(
            bytes / 1_048_576,
        ) + "m"@,
        bytes % 1_048_576 != 0 && bytes % 1024 == 0 ==> formatted_bytes(bytes) == decimal(
            bytes / 1024,
        ) + "k"@,
        bytes % 1024 != 0 ==> formatted_bytes(bytes) == decimal(bytes),
{
}

/// How a duration is told: in the largest unit up to hours in which it is a whole number.
pub proof fn lemma_told_durations(millis: nat)
    ensures
        millis % 3_600_000 == 0 ==> formatted_millis(millis) == decimal(millis / 3_600_000) + "h"@,
        millis % 3_600_000 != 0 && millis % 60_000 == 0 ==> formatted_millis(millis) == decimal(
            millis / 60_000,
        ) + "m"@,
        millis % 60_000 != 0 && millis % 1_000 == 0 ==> formatted_millis(millis) == decimal(
            millis / 1_000,
        ) + "s"@,
        millis % 1_000 != 0 ==> formatted_millis(millis) == decimal(millis) + "ms"@,
{
}

} // verus!
