//! Commands: how a command line becomes a plan, and how a plan is written down.
use crate::errors::{SandboxError, SandboxFault};
use crate::text::{
    alphanumeric, chars_of, has_char, has_text, is_alphanumeric, join, joined, occurs_in, texts,
};
use vstd::prelude::*;

verus! {

broadcast use vstd::seq::group_seq_axioms;

/// What is to be run: a program with its arguments, or a line for the shell.
#[derive(Debug, Clone, PartialEq, Eq)]
pub enum CommandPlan {
    Direct { argv: Vec<String> },
    Shell { command: String },
}

/// The contents of a `CommandPlan`.
pub enum PlanModel {
    Direct { argv: Seq<Seq<char>> },
    Shell { command: Seq<char> },
}

impl View for CommandPlan {
    type V = PlanModel;

    open spec fn view(&self) -> PlanModel {
        match *self {
            CommandPlan::Direct { argv } => PlanModel::Direct { argv: texts(argv@) },
            CommandPlan::Shell { command } => PlanModel::Shell { command: command@ },
        }
    }
}

/// A single word that only a shell understands: it has white space, a pipe, a
/// redirection or a separator of commands in it.
pub open spec fn is_shell_line(input: Seq<char>) -> bool {
    ||| input.contains(' ')
    ||| input.contains('\t')
    ||| input.contains('\n')
    ||| occurs_in(input, "&&"@)
    ||| input.contains('|')
    ||| input.contains(';')
    ||| input.contains('>')
    ||| input.contains('<')
}

/// Whether a single word is a line for the shell.
pub fn looks_like_shell_command(input: &str) -> (r: bool)
    ensures
        r == is_shell_line(input@),
{
    has_char(input, ' ') || has_char(input, '\t') || has_char(input, '\n') || has_text(input, "&&")
        || has_char(input, '|') || has_char(input, ';') || has_char(input, '>') || has_char(
        input,
        '<',
    )
}

/// The plan for the words of a command line.
pub open spec fn planned(raw: Seq<Seq<char>>) -> PlanModel {
    if raw.len() == 1 && is_shell_line(raw[0]) {
        PlanModel::Shell { command: raw[0] }
    } else {
        PlanModel::Direct { argv: raw }
    }
}

// ---------------------------------------------------------------------------
// Quoting

/// Characters that stand for themselves outside quotes.
pub open spec fn is_plain(c: char) -> bool {
    is_alphanumeric(c) || c == '_' || c == '-' || c == '.' || c == '/' || c == ':' || c == '\\'
}

/// An argument that needs no quotes.
pub open spec fn is_plain_word(s: Seq<char>) -> bool {
    s.len() > 0 && forall|i: int| 0 <= i < s.len() ==> is_plain(#[trigger] s[i])
}

/// `s` with a backslash before every backslash and quote.
pub open spec fn backslashed(s: Seq<char>) -> Seq<char>
    decreases s.len(),
{
    if s.len() == 0 {
        Seq::<char>::empty()
    } else {
        let before = backslashed(s.drop_last());
        if s.last() == '\\' || s.last() == '"' {
            before.push('\\').push(s.last())
        } else {
            before.push(s.last())
        }
    }
}

/// An argument as it is written: as it is where it needs no quotes, else in quotes.
pub open spec fn escaped(s: Seq<char>) -> Seq<char> {
    if is_plain_word(s) {
        s
    } else {
        seq!['"'] + backslashed(s) + seq!['"']
    }
}

/// Arguments as they are written, with blanks between them.
pub open spec fn written(argv: Seq<Seq<char>>) -> Seq<char> {
    joined(argv.map_values(|arg: Seq<char>| escaped(arg)), " "@)
}

/// A plan as it is written.
pub open spec fn written_plan(plan: PlanModel) -> Seq<char> {
    match plan {
        PlanModel::Direct { argv } => written(argv),
        PlanModel::Shell { command } => command,
    }
}

/// `input` as an argument is written.
pub fn shell_escape(input: &str) -> (out: String)
    ensures
        out@ == escaped(input@),
{
    let chars = chars_of(input);
    let mut plain = chars.len() > 0;
    for i in 0..chars.len()
        invariant
            chars@ == input@,
            plain == (chars.len() > 0 && forall|j: int|
                0 <= j < i ==> is_plain(#[trigger] chars@[j])),
    {
        let c = chars[i];
        plain = plain && (alphanumeric(c) || c == '_' || c == '-' || c == '.' || c == '/' || c
            == ':' || c == '\\');
    }
    if plain {
        return input.to_string();
    }
    let mut out = String::new();
    out.push('"');
    assert(out@ =~= seq!['"'] + backslashed(input@.take(0)));
    for i in 0..chars.len()
        invariant
            chars@ == input@,
            out@ == seq!['"'] + backslashed(input@.take(i as int)),
    {
        let c = chars[i];
        assert(input@.take(i + 1).drop_last() =~= input@.take(i as int));
        if c == '\\' || c == '"' {
            out.push('\\');
        }
        out.push(c);
        assert(out@ =~= seq!['"'] + backslashed(input@.take(i + 1)));
    }
    assert(input@.take(chars@.len() as int) =~= input@);
    out.push('"');
    assert(out@ =~= seq!['"'] + backslashed(input@) + seq!['"']);
    out
}

impl CommandPlan {
    /// The plan for the words of a command line; there must be one.
    pub fn from_raw(raw: Vec<String>) -> (r: Result<CommandPlan, SandboxError>)
        ensures
            if raw.len() == 0 {
                r matches Err(e) && e@ == SandboxFault::EmptyCommand
            } else {
                r matches Ok(plan) && plan@ == planned(texts(raw@))
            },
    {
        assert(texts(raw@).len() == raw.len());
        if raw.len() == 0 {
            return Err(SandboxError::EmptyCommand);
        }
        if raw.len() == 1 && looks_like_shell_command(raw[0].as_str()) {
            Ok(CommandPlan::Shell { command: raw[0].clone() })
        } else {
            Ok(CommandPlan::Direct { argv: raw })
        }
    }

    /// The plan as it is written.
    pub fn display(&self) -> (out: String)
        ensures
            out@ == written_plan(self@),
    {
        match self {
            CommandPlan::Direct { argv } => {
                let mut words: Vec<String> = Vec::new();
                for i in 0..argv.len()
                    invariant
                        words.len() == i,
                        forall|j: int| 0 <= j < i ==> words@[j]@ == escaped(#[trigger] argv@[j]@),
                {
                    words.push(shell_escape(argv[i].as_str()));
                }
                assert(texts(words@) =~= texts(argv@).map_values(|arg: Seq<char>| escaped(arg)));
                join(&words, " ")
            },
            CommandPlan::Shell { command } => command.clone(),
        }
    }
}

// ---------------------------------------------------------------------------
// Reading a written command back

/// Where a reader of a written command stands.
pub enum ReadMode {
    /// Before a word.
    Start,
    /// In a word without quotes.
    Plain,
    /// Between quotes.
    Quoted,
    /// Between quotes, behind a backslash.
    Escape,
    /// Behind the closing quote.
    Closed,
}

/// What a reader has read: the words that have ended, and the one under way.
pub struct Reader {
    pub words: Seq<Seq<char>>,
    pub word: Seq<char>,
    pub mode: ReadMode,
}

/// The reader after one more character: a blank outside quotes ends a word, and between
/// quotes a backslash takes the next character as it is.
pub open spec fn read_step(r: Reader, c: char) -> Reader {
    match r.mode {
        ReadMode::Quoted => if c == '"' {
            Reader { mode: ReadMode::Closed, ..r }
        } else if c == '\\' {
            Reader { mode: ReadMode::Escape, ..r }
        } else {
            Reader { word: r.word.push(c), ..r }
        },
        ReadMode::Escape => Reader { word: r.word.push(c), mode: ReadMode::Quoted, ..r },
        _ => if c == ' ' {
            Reader {
                words: r.words.push(r.word),
                word: Seq::<char>::empty(),
                mode: ReadMode::Start,
            }
        } else if c == '"' && r.mode is Start {
            Reader { mode: ReadMode::Quoted, ..r }
        } else {
            Reader { word: r.word.push(c), mode: ReadMode::Plain, ..r }
        },
    }
}

/// The reader after the text `s`.
pub open spec fn read(s: Seq<char>) -> Reader
    decreases s.len(),
{
    if s.len() == 0 {
        Reader {
            words: Seq::<Seq<char>>::empty(),
            word: Seq::<char>::empty(),
            mode: ReadMode::Start,
        }
    } else {
        read_step(read(s.drop_last()), s.last())
    }
}

/// The words of a written command.
pub open spec fn read_words(s: Seq<char>) -> Seq<Seq<char>> {
    read(s).words.push(read(s).word)
}

proof fn lemma_read_push(s: Seq<char>, c: char)
    ensures
        read(s.push(c)) == read_step(read(s), c),
{
    assert(s.push(c).drop_last() =~= s);
}

proof fn lemma_read_plain(s: Seq<char>, w: Seq<char>)
    requires
        read(s).mode is Start,
        read(s).word.len() == 0,
        is_plain_word(w),
    ensures
        read(s + w) == (Reader { word: w, mode: ReadMode::Plain, ..read(s) }),
    decreases w.len(),
{
    let c = w.last();
    assert(is_plain(w[w.len() - 1]));
    assert((s + w) =~= (s + w.drop_last()).push(c));
    lemma_read_push(s + w.drop_last(), c);
    if w.len() == 1 {
        assert(s + w.drop_last() =~= s);
        assert(read(s).word.push(c) =~= w);
    } else {
        assert forall|i: int| 0 <= i < w.drop_last().len() implies is_plain(
            #[trigger] w.drop_last()[i],
        ) by {
            assert(is_plain(w[i]));
        }
        lemma_read_plain(s, w.drop_last());
        assert(w.drop_last().push(c) =~= w);
    }
}

proof fn lemma_read_backslashed(s: Seq<char>, w: Seq<char>)
    requires
        read(s).mode is Quoted,
        read(s).word.len() == 0,
    ensures
        read(s + backslashed(w)) == (Reader { word: w, ..read(s) }),
    decreases w.len(),
{
    if w.len() == 0 {
        assert(s + backslashed(w) =~= s);
        assert(read(s).word =~= w);
    } else {
        let c = w.last();
        let t = s + backslashed(w.drop_last());
        lemma_read_backslashed(s, w.drop_last());
        assert(w.drop_last().push(c) =~= w);
        if c == '\\' || c == '"' {
            assert(s + backslashed(w) =~= t.push('\\').push(c));
            lemma_read_push(t, '\\');
            lemma_read_push(t.push('\\'), c);
        } else {
            assert(s + backslashed(w) =~= t.push(c));
            lemma_read_push(t, c);
        }
    }
}

/// Behind a written argument the reader has exactly that argument under way.
proof fn lemma_read_escaped(s: Seq<char>, w: Seq<char>)
    requires
        read(s).mode is Start,
        read(s).word.len() == 0,
    ensures
        read(s + escaped(w)).words == read(s).words,
        read(s + escaped(w)).word == w,
        read(s + escaped(w)).mode is Plain || read(s + escaped(w)).mode is Closed,
{
    if is_plain_word(w) {
        lemma_read_plain(s, w);
    } else {
        let opened = s.push('"');
        lemma_read_push(s, '"');
        lemma_read_backslashed(opened, w);
        lemma_read_push(opened + backslashed(w), '"');
        assert(s + escaped(w) =~= (opened + backslashed(w)).push('"'));
    }
}

/// A written command says what is run: reading it gives the arguments back, so no two
/// lists of arguments are written alike.
pub proof fn lemma_written_command_reads_back(argv: Seq<Seq<char>>)
    requires
        argv.len() > 0,
    ensures
        read_words(written(argv)) == argv,
{
    lemma_written_ends(argv);
    assert(argv.drop_last().push(argv.last()) =~= argv);
}

proof fn lemma_written_ends(argv: Seq<Seq<char>>)
    requires
        argv.len() > 0,
    ensures
        read(written(argv)).words == argv.drop_last(),
        read(written(argv)).word == argv.last(),
        read(written(argv)).mode is Plain || read(written(argv)).mode is Closed,
    decreases argv.len(),
{
    let none = Seq::<char>::empty();
    let all = argv.map_values(|arg: Seq<char>| escaped(arg));
    if argv.len() == 1 {
        lemma_read_escaped(none, argv[0]);
        assert(none + escaped(argv[0]) =~= escaped(argv[0]));
        assert(argv.drop_last() =~= read(none).words);
    } else {
        let rest = argv.drop_last();
        lemma_written_ends(rest);
        assert(all.drop_last() =~= rest.map_values(|arg: Seq<char>| escaped(arg)));
        reveal_strlit(" ");
        let before = written(rest);
        assert(before + " "@ =~= before.push(' '));
        lemma_read_push(before, ' ');
        lemma_read_escaped(before.push(' '), argv.last());
        assert(rest.drop_last().push(rest.last()) =~= rest);
    }
}

} // verus!
