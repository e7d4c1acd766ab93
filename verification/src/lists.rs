//! Lists of texts or paths without repetitions: the first occurrence stays where it is.
use crate::launch::HostOs;
use crate::paths::{paths_equal, same_path};
use crate::text::{lemma_texts_push, same_text, texts};
use vstd::prelude::*;

verus! {

broadcast use vstd::seq::group_seq_axioms;

/// When two entries of a list count as the same.
#[derive(Clone, Copy, PartialEq, Eq, Structural, Debug)]
pub enum Sameness {
    /// The same characters.
    Text,
    /// The same path, by the rules of the system.
    Path(HostOs),
}

/// `a` and `b` count as the same entry.
pub open spec fn same_item(kind: Sameness, a: Seq<char>, b: Seq<char>) -> bool {
    match kind {
        Sameness::Text => a == b,
        Sameness::Path(os) => same_path(os, a, b),
    }
}

/// An entry of `list` is the same as `x`.
pub open spec fn holds(kind: Sameness, list: Seq<Seq<char>>, x: Seq<char>) -> bool {
    exists|i: int| 0 <= i < list.len() && same_item(kind, #[trigger] list[i], x)
}

/// `list` followed by those entries of `more`, in order, that are not there yet.
pub open spec fn absorbed(kind: Sameness, list: Seq<Seq<char>>, more: Seq<Seq<char>>) -> Seq<
    Seq<char>,
>
    decreases more.len(),
{
    if more.len() == 0 {
        list
    } else {
        let before = absorbed(kind, list, more.drop_last());
        if holds(kind, before, more.last()) {
            before
        } else {
            before.push(more.last())
        }
    }
}

/// `list` without the entries that are the same as an earlier one.
pub open spec fn distinct(kind: Sameness, list: Seq<Seq<char>>) -> Seq<Seq<char>> {
    absorbed(kind, Seq::<Seq<char>>::empty(), list)
}

/// What is the same as an absorbed entry is held by one of the two lists, and back.
pub proof fn lemma_absorbed_holds(
    kind: Sameness,
    list: Seq<Seq<char>>,
    more: Seq<Seq<char>>,
    x: Seq<char>,
)
    ensures
        holds(kind, absorbed(kind, list, more), x) == (holds(kind, list, x) || holds(
            kind,
            more,
            x,
        )),
    decreases more.len(),
{
    if more.len() > 0 {
        let last = more.last();
        let before = absorbed(kind, list, more.drop_last());
        lemma_absorbed_holds(kind, list, more.drop_last(), x);
        if holds(kind, more, x) {
            let i = choose|i: int|
                0 <= i < more.len() && same_item(kind, #[trigger] more[i], x);
            if i < more.len() - 1 {
                assert(same_item(kind, more.drop_last()[i], x));
                assert(holds(kind, more.drop_last(), x));
            } else if holds(kind, before, last) {
                let j = choose|j: int|
                    0 <= j < before.len() && same_item(kind, #[trigger] before[j], last);
                assert(same_item(kind, before[j], x));
            } else {
                assert(before.push(last)[before.len() as int] == last);
            }
        }
        if holds(kind, more.drop_last(), x) {
            let i = choose|i: int|
                0 <= i < more.drop_last().len() && same_item(
                    kind,
                    #[trigger] more.drop_last()[i],
                    x,
                );
            assert(same_item(kind, more[i], x));
        }
        if holds(kind, before, x) {
            let j = choose|j: int|
                0 <= j < before.len() && same_item(kind, #[trigger] before[j], x);
            assert(same_item(kind, before.push(last)[j], x));
            assert(holds(kind, before.push(last), x));
        }
        if holds(kind, before.push(last), x) {
            let j = choose|j: int|
                0 <= j < before.push(last).len() && same_item(
                    kind,
                    #[trigger] before.push(last)[j],
                    x,
                );
            if j < before.len() {
                assert(same_item(kind, before[j], x));
                assert(holds(kind, before, x));
            } else {
                assert(same_item(kind, more[more.len() - 1], x));
                assert(holds(kind, more, x));
            }
        }
    }
}

/// Absorbing two lists one after the other is absorbing them end to end.
pub proof fn lemma_absorbed_concat(
    kind: Sameness,
    list: Seq<Seq<char>>,
    a: Seq<Seq<char>>,
    b: Seq<Seq<char>>,
)
    ensures
        absorbed(kind, list, a + b) == absorbed(kind, absorbed(kind, list, a), b),
    decreases b.len(),
{
    if b.len() == 0 {
        assert(a + b =~= a);
    } else {
        assert((a + b).drop_last() =~= a + b.drop_last());
        lemma_absorbed_concat(kind, list, a, b.drop_last());
    }
}

/// Repetitions within the absorbed list do not matter.
pub proof fn lemma_absorbed_distinct(kind: Sameness, list: Seq<Seq<char>>, more: Seq<Seq<char>>)
    ensures
        absorbed(kind, list, distinct(kind, more)) == absorbed(kind, list, more),
    decreases more.len(),
{
    if more.len() > 0 {
        let rest = more.drop_last();
        let last = more.last();
        lemma_absorbed_distinct(kind, list, rest);
        if holds(kind, distinct(kind, rest), last) {
            lemma_absorbed_holds(kind, Seq::<Seq<char>>::empty(), rest, last);
            lemma_absorbed_holds(kind, list, rest, last);
        } else {
            assert(distinct(kind, more) == distinct(kind, rest).push(last));
            assert(distinct(kind, rest).push(last).drop_last() =~= distinct(kind, rest));
        }
    }
}

/// Dropping the repetitions of either half first makes no difference.
pub proof fn lemma_distinct_concat(kind: Sameness, a: Seq<Seq<char>>, b: Seq<Seq<char>>)
    ensures
        distinct(kind, distinct(kind, a) + b) == distinct(kind, a + b),
        distinct(kind, a + distinct(kind, b)) == distinct(kind, a + b),
{
    let none = Seq::<Seq<char>>::empty();
    lemma_absorbed_concat(kind, none, distinct(kind, a), b);
    lemma_absorbed_concat(kind, none, a, b);
    lemma_absorbed_concat(kind, none, a, distinct(kind, b));
    lemma_absorbed_distinct(kind, none, a);
    lemma_absorbed_distinct(kind, absorbed(kind, none, a), b);
}

/// A list without repetitions holds the same entries, and no two of them are the same.
pub proof fn lemma_distinct(kind: Sameness, list: Seq<Seq<char>>)
    ensures
        forall|x: Seq<char>| holds(kind, distinct(kind, list), x) == holds(kind, list, x),
        forall|i: int, j: int|
            0 <= i < j < distinct(kind, list).len() ==> !same_item(
                kind,
                #[trigger] distinct(kind, list)[i],
                #[trigger] distinct(kind, list)[j],
            ),
    decreases list.len(),
{
    assert forall|x: Seq<char>| holds(kind, distinct(kind, list), x) == holds(kind, list, x) by {
        lemma_absorbed_holds(kind, Seq::<Seq<char>>::empty(), list, x);
    }
    if list.len() > 0 {
        let before = distinct(kind, list.drop_last());
        lemma_distinct(kind, list.drop_last());
        assert forall|i: int, j: int| 0 <= i < j < distinct(kind, list).len() implies !same_item(
            kind,
            #[trigger] distinct(kind, list)[i],
            #[trigger] distinct(kind, list)[j],
        ) by {
            assert(distinct(kind, list)[i] == before[i]);
            if j < before.len() {
                assert(distinct(kind, list)[j] == before[j]);
            }
        }
    }
}

/// Whether `a` and `b` count as the same entry.
pub fn same_entry(kind: Sameness, a: &str, b: &str) -> (r: bool)
    ensures
        r == same_item(kind, a@, b@),
{
    match kind {
        Sameness::Text => same_text(a, b),
        Sameness::Path(os) => paths_equal(os, a, b),
    }
}

/// Whether `list` has an entry that is the same as `x`.
pub fn list_holds(kind: Sameness, list: &Vec<String>, x: &str) -> (r: bool)
    ensures
        r == holds(kind, texts(list@), x@),
{
    for i in 0..list.len()
        invariant
            forall|j: int| 0 <= j < i ==> !same_item(kind, #[trigger] texts(list@)[j], x@),
    {
        if same_entry(kind, list[i].as_str(), x) {
            assert(same_item(kind, texts(list@)[i as int], x@));
            return true;
        }
    }
    false
}

/// `list` followed by those entries of `more` that are not there yet.
pub fn absorb(kind: Sameness, list: Vec<String>, more: &Vec<String>) -> (out: Vec<String>)
    ensures
        texts(out@) == absorbed(kind, texts(list@), texts(more@)),
{
    let ghost start = texts(list@);
    let ghost all = texts(more@);
    let mut out = list;
    for i in 0..more.len()
        invariant
            all == texts(more@),
            texts(out@) == absorbed(kind, start, all.take(i as int)),
    {
        assert(all.take(i + 1).drop_last() =~= all.take(i as int));
        if !list_holds(kind, &out, more[i].as_str()) {
            proof {
                lemma_texts_push(out@, more@[i as int]);
            }
            out.push(more[i].clone());
        }
    }
    assert(all.take(all.len() as int) =~= all);
    out
}

/// `list` without the entries that are the same as an earlier one.
pub fn without_repetitions(kind: Sameness, list: &Vec<String>) -> (out: Vec<String>)
    ensures
        texts(out@) == distinct(kind, texts(list@)),
{
    let none: Vec<String> = Vec::new();
    assert(texts(none@) =~= Seq::<Seq<char>>::empty());
    absorb(kind, none, list)
}

/// A copy of a list of texts.
pub fn copy_list(list: &Vec<String>) -> (out: Vec<String>)
    ensures
        texts(out@) == texts(list@),
{
    let mut out: Vec<String> = Vec::new();
    for i in 0..list.len()
        invariant
            out.len() == i,
            forall|j: int| 0 <= j < i ==> out@[j]@ == #[trigger] list@[j]@,
    {
        out.push(list[i].clone());
    }
    assert(texts(out@) =~= texts(list@));
    out
}

/// `first` followed by `second`.
pub fn append_list(first: Vec<String>, second: &Vec<String>) -> (out: Vec<String>)
    ensures
        texts(out@) == texts(first@) + texts(second@),
{
    let ghost start = first@;
    let mut out = first;
    for i in 0..second.len()
        invariant
            texts(out@) == texts(start) + texts(second@).take(i as int),
    {
        proof {
            lemma_texts_push(out@, second@[i as int]);
        }
        out.push(second[i].clone());
        assert(texts(out@) =~= texts(start) + texts(second@).take(i + 1));
    }
    assert(texts(second@).take(second@.len() as int) =~= texts(second@));
    out
}

/// `lines` followed by `line`.
pub fn push_line(lines: Vec<String>, line: String) -> (out: Vec<String>)
    ensures
        texts(out@) == texts(lines@).push(line@),
{
    proof {
        lemma_texts_push(lines@, line);
    }
    let mut out = lines;
    out.push(line);
    out
}

/// The list without entries.
pub fn no_texts() -> (out: Vec<String>)
    ensures
        texts(out@) == Seq::<Seq<char>>::empty(),
{
    let out: Vec<String> = Vec::new();
    assert(texts(out@) =~= Seq::<Seq<char>>::empty());
    out
}

/// A list of one text.
pub fn one_text(a: &str) -> (out: Vec<String>)
    ensures
        texts(out@) == seq![a@],
{
    let out: Vec<String> = vec![a.to_string()];
    assert(texts(out@) =~= seq![a@]);
    out
}

/// A list of two texts.
pub fn two_texts(a: &str, b: &str) -> (out: Vec<String>)
    ensures
        texts(out@) == seq![a@, b@],
{
    let out: Vec<String> = vec![a.to_string(), b.to_string()];
    assert(texts(out@) =~= seq![a@, b@]);
    out
}

/// A list of three texts.
pub fn three_texts(a: &str, b: &str, c: &str) -> (out: Vec<String>)
    ensures
        texts(out@) == seq![a@, b@, c@],
{
    let out: Vec<String> = vec![a.to_string(), b.to_string(), c.to_string()];
    assert(texts(out@) =~= seq![a@, b@, c@]);
    out
}

} // verus!
