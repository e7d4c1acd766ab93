//! Filesystem grants as the user writes them: `/data:ro, /tmp`.
use crate::errors::{PolicyError, PolicyFault};
use crate::lists::no_texts;
use crate::paths::last_position;
use crate::text::{
    chars_of, is_empty, lemma_texts_push, lowercase, lowered, pieces, same_text, split, text_of, texts,
    trim, trimmed,
};
use vstd::prelude::*;
use vstd::slice::slice_subrange;

verus! {

broadcast use vstd::seq::group_seq_axioms;

/// What one part of a grant says.
pub enum FsGrant {
    Nothing,
    Writable(Seq<char>),
    Readonly(Seq<char>),
    UnknownMode(Seq<char>),
}

/// The grant of one part: a path, or a path and a mode with a colon between them.
/// Without a mode the path is writable.
pub open spec fn part_grant(part: Seq<char>) -> FsGrant {
    let text = trimmed(part);
    let colon = last_position(text, ':');
    let path = if colon < 0 {
        text
    } else {
        trimmed(text.take(colon))
    };
    let mode = if colon < 0 {
        "rw"@
    } else {
        lowered(trimmed(text.skip(colon + 1)))
    };
    if text.len() == 0 {
        FsGrant::Nothing
    } else if mode == "rw"@ || mode == "write"@ || mode == "writable"@ {
        FsGrant::Writable(path)
    } else if mode == "ro"@ || mode == "read"@ || mode == "readonly"@ || mode == "read-only"@ {
        FsGrant::Readonly(path)
    } else {
        FsGrant::UnknownMode(mode)
    }
}

/// The writable and the read-only paths that the parts grant, or the first mode that
/// is none.
pub open spec fn grants(parts: Seq<Seq<char>>) -> Result<
    (Seq<Seq<char>>, Seq<Seq<char>>),
    Seq<char>,
>
    decreases parts.len(),
{
    if parts.len() == 0 {
        Ok((Seq::<Seq<char>>::empty(), Seq::<Seq<char>>::empty()))
    } else {
        match grants(parts.drop_last()) {
            Err(mode) => Err(mode),
            Ok((writable, readonly)) => match part_grant(parts.last()) {
                FsGrant::Nothing => Ok((writable, readonly)),
                FsGrant::Writable(path) => Ok((writable.push(path), readonly)),
                FsGrant::Readonly(path) => Ok((writable, readonly.push(path))),
                FsGrant::UnknownMode(mode) => Err(mode),
            },
        }
    }
}

proof fn lemma_grants_error(parts: Seq<Seq<char>>, n: int)
    requires
        0 <= n <= parts.len(),
        grants(parts.take(n)) is Err,
    ensures
        grants(parts) == grants(parts.take(n)),
    decreases parts.len(),
{
    if n == parts.len() {
        assert(parts.take(n) =~= parts);
    } else {
        assert(parts.drop_last().take(n) =~= parts.take(n));
        lemma_grants_error(parts.drop_last(), n);
    }
}

fn last_colon(chars: &Vec<char>) -> (at: Option<usize>)
    ensures
        match at {
            Some(i) => i < chars.len() && last_position(chars@, ':') == i,
            None => last_position(chars@, ':') == -1,
        },
{
    let mut n: usize = chars.len();
    assert(chars@.take(n as int) =~= chars@);
    while n > 0
        invariant
            n <= chars.len(),
            last_position(chars@, ':') == last_position(chars@.take(n as int), ':'),
        decreases n,
    {
        if chars[n - 1] == ':' {
            return Some(n - 1);
        }
        assert(chars@.take(n as int).drop_last() =~= chars@.take(n - 1));
        n -= 1;
    }
    None
}

/// The writable and the read-only paths that `input` grants: parts with commas between
/// them, each a path with an optional mode.
pub fn parse_allow_fs_entry(input: &str) -> (r: Result<(Vec<String>, Vec<String>), PolicyError>)
    ensures
        match grants(pieces(input@, ',')) {
            Ok((writable, readonly)) => r matches Ok((w, o)) && texts(w@) == writable && texts(o@)
                == readonly,
            Err(mode) => r matches Err(e) && e@ == PolicyFault::InvalidFilesystemAllowSpec(mode),
        },
{
    let parts = split(input, ',');
    let ghost all = texts(parts@);
    let mut writable = no_texts();
    let mut readonly = no_texts();
    assert(grants(all.take(0)) == Ok::<(Seq<Seq<char>>, Seq<Seq<char>>), Seq<char>>(
        (texts(writable@), texts(readonly@)),
    ));
    for i in 0..parts.len()
        invariant
            all == texts(parts@),
            all == pieces(input@, ','),
            grants(all.take(i as int)) == Ok::<(Seq<Seq<char>>, Seq<Seq<char>>), Seq<char>>(
                (texts(writable@), texts(readonly@)),
            ),
    {
        assert(all.take(i + 1).drop_last() =~= all.take(i as int));
        assert(all.take(i + 1).last() == all[i as int]);
        let part = trim(parts[i].as_str());
        if !is_empty(part.as_str()) {
            let chars = chars_of(part.as_str());
            let (path, mode) = match last_colon(&chars) {
                Some(at) => {
                    let head = text_of(slice_subrange(chars.as_slice(), 0, at));
                    let tail = text_of(slice_subrange(chars.as_slice(), at + 1, chars.len()));
                    assert(head@ =~= part@.take(at as int));
                    assert(tail@ =~= part@.skip(at + 1));
                    let bare = trim(tail.as_str());
                    (trim(head.as_str()), lowercase(bare.as_str()))
                },
                None => (part.clone(), "rw".to_string()),
            };
            if same_text(mode.as_str(), "rw") || same_text(mode.as_str(), "write") || same_text(
                mode.as_str(),
                "writable",
            ) {
                proof {
                    lemma_texts_push(writable@, path);
                }
                writable.push(path);
            } else if same_text(mode.as_str(), "ro") || same_text(mode.as_str(), "read")
                || same_text(mode.as_str(), "readonly") || same_text(mode.as_str(), "read-only") {
                proof {
                    lemma_texts_push(readonly@, path);
                }
                readonly.push(path);
            } else {
                proof {
                    lemma_grants_error(all, i + 1);
                }
                return Err(PolicyError::InvalidFilesystemAllowSpec(mode));
            }
        }
    }
    assert(all.take(all.len() as int) =~= all);
    Ok((writable, readonly))
}

} // verus!
