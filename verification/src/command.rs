//! Launch commands: placeholders of the entry format are removed, and the
//! cleaned command is cut into the program and its arguments.

use vstd::prelude::*;
use crate::program::ProgramResult;
use crate::text::{chars_of, string_from_chars, texts};

verus! {

/// `s` from index `i` on, with every occurrence of the two characters `a`,
/// `b` in a row left out. The text is read once from left to right, and an
/// occurrence that only arises from a removal stays.
pub open spec fn without_pair_from(s: Seq<char>, i: int, a: char, b: char) -> Seq<char>
    decreases s.len() - i,
{
    if i < 0 || i >= s.len() {
        Seq::<char>::empty()
    } else if i + 1 < s.len() && s[i] == a && s[i + 1] == b {
        without_pair_from(s, i + 2, a, b)
    } else {
        seq![s[i]] + without_pair_from(s, i + 1, a, b)
    }
}

/// `s` with every occurrence of the placeholder `%` `letter` left out.
pub open spec fn without_placeholder(s: Seq<char>, letter: char) -> Seq<char> {
    without_pair_from(s, 0, '%', letter)
}

/// A raw command with the placeholders for one file, several files, a list
/// of directories, one URL and several URLs removed, one kind after the other
/// in that order.
pub open spec fn sanitized(raw: Seq<char>) -> Seq<char> {
    without_placeholder(
        without_placeholder(
            without_placeholder(without_placeholder(without_placeholder(raw, 'f'), 'F'), 'D'),
            'u',
        ),
        'U',
    )
}

/// Removes one kind of placeholder from a text.
pub fn strip_placeholder(s: &Vec<char>, letter: char) -> (out: Vec<char>)
    ensures
        out@ == without_placeholder(s@, letter),
{
    let mut out: Vec<char> = Vec::new();
    let mut i: usize = 0;
    while i < s.len()
        invariant
            i <= s@.len(),
            out@ + without_pair_from(s@, i as int, '%', letter) == without_placeholder(
                s@,
                letter,
            ),
        decreases s@.len() - i,
    {
        let ghost rest = without_pair_from(s@, i as int, '%', letter);
        if s[i] == '%' && i + 1 < s.len() && s[i + 1] == letter {
            i += 2;
        } else {
            let ghost before = out@;
            out.push(s[i]);
            i += 1;
            assert(out@ + without_pair_from(s@, i as int, '%', letter) == before + rest);
        }
    }
    assert(out@ + Seq::<char>::empty() == out@);
    out
}

impl ProgramResult {
    /// Removes the five placeholders from a raw launch command. Everything
    /// else, spacing included, stays as it is.
    pub fn format_exec(exec: &str) -> (out: String)
        ensures
            out@ == sanitized(exec@),
    {
        let raw = chars_of(exec);
        let a = strip_placeholder(&raw, 'f');
        let b = strip_placeholder(&a, 'F');
        let c = strip_placeholder(&b, 'D');
        let d = strip_placeholder(&c, 'u');
        let e = strip_placeholder(&d, 'U');
        string_from_chars(&e)
    }
}

/// Leaving a pair out never makes a text longer.
pub proof fn lemma_without_pair_len(s: Seq<char>, i: int, a: char, b: char)
    requires
        0 <= i <= s.len(),
    ensures
        without_pair_from(s, i, a, b).len() <= s.len() - i,
    decreases s.len() - i,
{
    if i < s.len() {
        if i + 1 < s.len() && s[i] == a && s[i + 1] == b {
            lemma_without_pair_len(s, i + 2, a, b);
        } else {
            lemma_without_pair_len(s, i + 1, a, b);
        }
    }
}

/// A cleaned command is never longer than the raw one.
pub proof fn lemma_sanitized_not_longer(raw: Seq<char>)
    ensures
        sanitized(raw).len() <= raw.len(),
{
    let a = without_placeholder(raw, 'f');
    let b = without_placeholder(a, 'F');
    let c = without_placeholder(b, 'D');
    let d = without_placeholder(c, 'u');
    lemma_without_pair_len(raw, 0, '%', 'f');
    lemma_without_pair_len(a, 0, '%', 'F');
    lemma_without_pair_len(b, 0, '%', 'D');
    lemma_without_pair_len(c, 0, '%', 'u');
    lemma_without_pair_len(d, 0, '%', 'U');
}

/// A text without the first character of a pair loses nothing.
pub proof fn lemma_without_pair_keeps(s: Seq<char>, i: int, a: char, b: char)
    requires
        0 <= i <= s.len(),
        forall|j: int| i <= j < s.len() ==> s[j] != a,
    ensures
        without_pair_from(s, i, a, b) == s.subrange(i, s.len() as int),
    decreases s.len() - i,
{
    if i < s.len() {
        lemma_without_pair_keeps(s, i + 1, a, b);
        assert(seq![s[i]] + s.subrange(i + 1, s.len() as int) == s.subrange(i, s.len() as int));
    } else {
        assert(s.subrange(i, s.len() as int) == Seq::<char>::empty());
    }
}

/// A command that holds no `%` comes out of `format_exec` unchanged.
pub proof fn lemma_plain_command_unchanged(raw: Seq<char>)
    requires
        forall|j: int| 0 <= j < raw.len() ==> raw[j] != '%',
    ensures
        sanitized(raw) == raw,
{
    assert(raw.subrange(0, raw.len() as int) == raw);
    lemma_without_pair_keeps(raw, 0, '%', 'f');
    lemma_without_pair_keeps(raw, 0, '%', 'F');
    lemma_without_pair_keeps(raw, 0, '%', 'D');
    lemma_without_pair_keeps(raw, 0, '%', 'u');
    lemma_without_pair_keeps(raw, 0, '%', 'U');
}

/// The words into which `shell_words::split` cuts a command line, `None`
/// where it refuses the line.
pub uninterp spec fn shell_words_of(line: Seq<char>) -> Option<Seq<Seq<char>>>;

#[verifier::external_type_specification]
#[verifier::external_body]
pub struct ExShellParseError(shell_words::ParseError);

/// Trusted: `shell_words::split`, which cuts a line into words as a Unix
/// shell would, quotes honoured, and fails on a quote left open. The result
/// is a function of the line alone; it is `shell_words_of` of it.
#[verifier::external_body]
pub(crate) fn shell_split(line: &str) -> (r: Result<Vec<String>, shell_words::ParseError>)
    ensures
        match r {
            Ok(words) => shell_words_of(line@) == Some(texts(words@)),
            Err(_) => shell_words_of(line@) is None,
        },
{
    shell_words::split(line)
}

/// Why a command could not be made ready for launching.
#[derive(Debug, Clone, Copy, PartialEq, Eq, Structural)]
pub enum ActivationError {
    /// The command is no valid shell line.
    Tokenization,
    /// The command holds no words, so there is no program to start.
    EmptyCommand,
}

/// A command ready to be started: the program and its arguments.
#[derive(Debug, Clone)]
pub struct LaunchCommand {
    pub program: String,
    pub args: Vec<String>,
}

impl LaunchCommand {
    /// Takes the first word as the program and the others as its arguments.
    pub fn from_words(words: Vec<String>) -> (r: Result<LaunchCommand, ActivationError>)
        ensures
            match r {
                Ok(cmd) => {
                    &&& words@.len() > 0
                    &&& cmd.program == words@[0]
                    &&& cmd.args@ == words@.subrange(1, words@.len() as int)
                },
                Err(e) => words@.len() == 0 && e == ActivationError::EmptyCommand,
            },
    {
        let mut words = words;
        if words.len() == 0 {
            return Err(ActivationError::EmptyCommand);
        }
        let ghost all = words@;
        let program = words.remove(0);
        assert(words@ == all.subrange(1, all.len() as int));
        Ok(LaunchCommand { program, args: words })
    }
}

/// What a command ready to be started holds: the program and its arguments.
pub open spec fn command_model(r: Result<LaunchCommand, ActivationError>) -> Result<
    (Seq<char>, Seq<Seq<char>>),
    ActivationError,
> {
    match r {
        Ok(cmd) => Ok((cmd.program@, texts(cmd.args@))),
        Err(e) => Err(e),
    }
}

/// What the words of a command line make: a failure where the line could not
/// be cut into words or holds none, and else the first word as the program
/// and the others as its arguments.
pub open spec fn launch_of(words: Option<Seq<Seq<char>>>) -> Result<
    (Seq<char>, Seq<Seq<char>>),
    ActivationError,
> {
    match words {
        None => Err(ActivationError::Tokenization),
        Some(w) => if w.len() == 0 {
            Err(ActivationError::EmptyCommand)
        } else {
            Ok((w[0], w.subrange(1, w.len() as int)))
        },
    }
}

/// Makes a command of the words that a command line was cut into, or of the
/// failure to cut it.
pub fn launch_words(words: Result<Vec<String>, shell_words::ParseError>) -> (r: Result<
    LaunchCommand,
    ActivationError,
>)
    ensures
        command_model(r) == launch_of(
            match words {
                Ok(w) => Some(texts(w@)),
                Err(_) => None,
            },
        ),
{
    match words {
        Ok(words) => {
            let ghost w = texts(words@);
            let r = LaunchCommand::from_words(words);
            proof {
                if let Ok(ref cmd) = r {
                    assert(texts(cmd.args@) == w.subrange(1, w.len() as int));
                }
            }
            r
        },
        Err(_) => Err(ActivationError::Tokenization),
    }
}

/// Cuts a command line into the program and its arguments.
pub fn launch_line(line: &str) -> (r: Result<LaunchCommand, ActivationError>)
    ensures
        command_model(r) == launch_of(shell_words_of(line@)),
{
    launch_words(shell_split(line))
}

/// Cleans a raw command of its placeholders and cuts it into the program and
/// its arguments.
pub fn launch_command(exec: &str) -> (r: Result<LaunchCommand, ActivationError>)
    ensures
        command_model(r) == launch_of(shell_words_of(sanitized(exec@))),
{
    let line = ProgramResult::format_exec(exec);
    launch_line(line.as_str())
}

} // verus!
