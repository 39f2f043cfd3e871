//! Commands: what the player typed, split into words.

use crate::types::Text;
use std::string::String;
use vstd::prelude::*;
use vstd::string::StrSliceExecFns;

verus! {

/// A command of the player.
#[derive(Debug)]
pub struct Command {
    /// The words of the command.
    pub words: Vec<String>,
    /// Whether the command is for looking into the game rather than for
    /// playing it.
    pub is_debug: bool,
}

/// A command as contracts see it.
pub struct CommandView {
    pub words: Seq<Text>,
    pub is_debug: bool,
}

/// The views of the words of a sequence.
pub open spec fn words_view(words: Seq<String>) -> Seq<Text> {
    Seq::new(words.len(), |i: int| words[i]@)
}

impl View for Command {
    type V = CommandView;

    open spec fn view(&self) -> CommandView {
        CommandView { words: words_view(self.words@), is_debug: self.is_debug }
    }
}

/// The view of a command that was or was not understood.
pub open spec fn input_view(input: Result<Command, String>) -> Result<CommandView, Text> {
    match input {
        Ok(cmd) => Ok(cmd@),
        Err(msg) => Err(msg@),
    }
}

/// Does the character separate words?
pub open spec fn is_blank(c: char) -> bool {
    c == ' ' || c == '\t' || c == '\n' || c == '\r'
}

/// The state of reading a text for its words: the words that are complete,
/// and the word that is being read.
pub struct Scan {
    pub done: Seq<Text>,
    pub word: Text,
}

/// The state after the first `n` characters of the text have been read.
pub open spec fn scan(text: Text, n: nat) -> Scan
    decreases n,
{
    if n == 0 {
        Scan { done: Seq::empty(), word: Seq::empty() }
    } else {
        let before = scan(text, (n - 1) as nat);
        let c = text[n - 1];
        if !is_blank(c) {
            Scan { word: before.word.push(c), ..before }
        } else if before.word.len() > 0 {
            Scan { done: before.done.push(before.word), word: Seq::empty() }
        } else {
            before
        }
    }
}

/// The words of the text: its longest runs of characters that are not
/// blank.
pub open spec fn tokens(text: Text) -> Seq<Text> {
    let end = scan(text, text.len());
    if end.word.len() > 0 {
        end.done.push(end.word)
    } else {
        end.done
    }
}

/// What the text says: a command for looking into the game where it starts
/// with an exclamation mark, else a command for playing, with the words of
/// the text; nothing that can be understood where there is no word.
pub open spec fn parsed(text: Text) -> Result<CommandView, Text> {
    let is_debug = text.len() > 0 && text[0] == '!';
    let body = if is_debug {
        text.subrange(1, text.len() as int)
    } else {
        text
    };
    if tokens(body).len() == 0 {
        Err("I don't understand."@)
    } else {
        Ok(CommandView { words: tokens(body), is_debug })
    }
}

/// Does the text start with the mark of a command for looking into the
/// game?
pub open spec fn marked(text: Text) -> bool {
    text.len() > 0 && text[0] == '!'
}

/// Is what the player typed a command for looking into the game?
pub fn is_debug(input: &str) -> (r: bool)
    ensures
        r == marked(input@),
        parsed(input@) is Ok ==> r == parsed(input@)->Ok_0.is_debug,
{
    input.unicode_len() > 0 && input.get_char(0) == '!'
}

/// Whether the character separates words.
fn blank(c: char) -> (r: bool)
    ensures
        r == is_blank(c),
{
    c == ' ' || c == '\t' || c == '\n' || c == '\r'
}

/// Splits what the player typed into words.
pub fn parse(input: &str) -> (r: Result<Command, String>)
    ensures
        input_view(r) == parsed(input@),
{
    let n = input.unicode_len();
    let is_debug = n > 0 && input.get_char(0) == '!';
    let first: usize = if is_debug {
        1
    } else {
        0
    };
    let ghost body = input@.subrange(first as int, n as int);
    let mut words: Vec<String> = Vec::new();
    let mut start: usize = first;
    let mut i: usize = first;
    while i < n
        invariant
            first <= start <= i <= n,
            n == input@.len(),
            body == input@.subrange(first as int, n as int),
            words_view(words@) == scan(body, (i - first) as nat).done,
            input@.subrange(start as int, i as int) == scan(body, (i - first) as nat).word,
        decreases n - i,
    {
        let c = input.get_char(i);
        if blank(c) {
            if start < i {
                let word = input.substring_char(start, i);
                words.push(word.to_owned());
            }
            start = i + 1;
        }
        i += 1;
    }
    if start < n {
        let word = input.substring_char(start, n);
        words.push(word.to_owned());
        assert(words_view(words@) =~= tokens(body));
    }
    assert(input@.subrange(0, n as int) =~= input@);
    if words.len() == 0 {
        Err("I don't understand.".to_owned())
    } else {
        Ok(Command { words, is_debug })
    }
}

} // verus!
