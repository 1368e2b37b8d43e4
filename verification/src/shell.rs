//! The interactive shell's decisions: how the lines a user types add up to
//! statements, and which prompt to show.
//!
//! Reading lines and running statements is the caller's part. The shell
//! takes what was read and says what to do next.

use crate::text::{
    chars_of, is_whitespace, lemma_trim_end, lemma_trim_start, trim, trim_end, trim_end_len,
    trim_end_matches, trim_start, trim_start_len, CharClass,
};
use vstd::prelude::*;
use vstd::string::*;

verus! {

/// A statement as it is handed to the coordinator: without the `;` at its
/// end and without white space around it.
pub open spec fn sanitized(query: Seq<char>) -> Seq<char> {
    trim(trim_end_matches(query, ';'))
}

/// A sanitized statement is a part of the query as it was typed, and has no
/// white space at either end.
pub proof fn lemma_sanitized(query: Seq<char>)
    ensures
        exists|i: int, j: int|
            0 <= i <= j <= query.len() && sanitized(query) == #[trigger] query.subrange(i, j),
        sanitized(query).len() > 0 ==> !is_whitespace(sanitized(query).first()) && !is_whitespace(
            sanitized(query).last(),
        ),
{
    let bare = trim_end(query, CharClass::Is(';'));
    let cut = trim_end(bare, CharClass::WhiteSpace);
    let kept = trim_start(cut, CharClass::WhiteSpace);
    lemma_trim_end(query, CharClass::Is(';'));
    lemma_trim_end(bare, CharClass::WhiteSpace);
    lemma_trim_start(cut, CharClass::WhiteSpace);
    let i = cut.len() - kept.len();
    let j = cut.len() as int;
    assert(kept =~= query.subrange(i, j));
    if kept.len() > 0 {
        assert(kept.last() == cut.last());
    }
}

/// Removes every `;` at the end of `query`, then the white space at both
/// ends.
pub fn sanitize_query(query: &str) -> (statement: &str)
    ensures
        statement@ == sanitized(query@),
{
    let chars = chars_of(query);
    assert(chars@.take(chars.len() as int) =~= chars@);
    let bare = trim_end_len(&chars, chars.len(), CharClass::Is(';'));
    let end = trim_end_len(&chars, bare, CharClass::WhiteSpace);
    let start = trim_start_len(&chars, end, CharClass::WhiteSpace);
    query.substring_char(start, end)
}

/// The lines typed so far that do not make up a whole statement yet.
#[derive(Debug)]
pub struct Shell {
    pub buffer: String,
}

/// What reading a line gave.
#[derive(Debug)]
pub enum Input {
    /// A line of text.
    Line(String),
    /// The user interrupted the line.
    Interrupted,
    /// Anything else: the input is at its end or failed.
    Closed,
}

/// An `Input` as plain text values.
pub enum InputView {
    Line(Seq<char>),
    Interrupted,
    Closed,
}

impl View for Input {
    type V = InputView;

    open spec fn view(&self) -> InputView {
        match self {
            Input::Line(line) => InputView::Line(line@),
            Input::Interrupted => InputView::Interrupted,
            Input::Closed => InputView::Closed,
        }
    }
}

/// What the shell does after an input.
#[derive(Debug)]
pub enum Action {
    /// Read the next line.
    Read,
    /// Run `statement`, record `entry` in the history, then read on.
    Run { statement: String, entry: String },
    /// Leave the loop.
    Quit,
}

/// An `Action` as plain text values.
pub enum ActionView {
    Read,
    Run { statement: Seq<char>, entry: Seq<char> },
    Quit,
}

impl View for Action {
    type V = ActionView;

    open spec fn view(&self) -> ActionView {
        match self {
            Action::Read => ActionView::Read,
            Action::Run { statement, entry } => ActionView::Run {
                statement: statement@,
                entry: entry@,
            },
            Action::Quit => ActionView::Quit,
        }
    }
}

/// The prompt to show: the schema's prompt before a statement begins, the
/// continuation prompt inside one.
pub open spec fn prompt_text(buffer: Seq<char>, schema: Seq<char>) -> Seq<char> {
    if buffer.len() == 0 {
        "veloce:"@ + schema + "> "@
    } else {
        "...> "@
    }
}

/// The buffer after an input, and what to do.
///
/// An empty line changes nothing. Any other line is added to the buffer
/// after a space; when the buffer then ends in `;` it is a whole statement:
/// it is run in sanitized form, recorded as typed, and the buffer starts
/// anew. An interrupt drops the buffer. Anything else ends the loop.
pub open spec fn shell_step(buffer: Seq<char>, input: InputView) -> (Seq<char>, ActionView) {
    match input {
        InputView::Line(line) => {
            let typed = buffer + seq![' '] + line;
            if line.len() == 0 {
                (buffer, ActionView::Read)
            } else if typed.last() != ';' {
                (typed, ActionView::Read)
            } else {
                (Seq::empty(), ActionView::Run { statement: sanitized(typed), entry: typed })
            }
        },
        InputView::Interrupted => (Seq::empty(), ActionView::Read),
        InputView::Closed => (buffer, ActionView::Quit),
    }
}

impl Shell {
    /// A shell with nothing typed.
    pub fn new() -> (shell: Shell)
        ensures
            shell.buffer@ == Seq::<char>::empty(),
    {
        Shell { buffer: String::new() }
    }

    /// The prompt to show before the next line is read.
    pub fn prompt(&self, schema: &str) -> (text: String)
        ensures
            text@ == prompt_text(self.buffer@, schema@),
    {
        if self.buffer.as_str().unicode_len() == 0 {
            String::from_str("veloce:").concat(schema).concat("> ")
        } else {
            String::from_str("...> ")
        }
    }

    /// Takes what was read and says what to do next.
    pub fn feed(&mut self, input: Input) -> (action: Action)
        ensures
            (final(self).buffer@, action@) == shell_step(old(self).buffer@, input@),
    {
        match input {
            Input::Line(line) => {
                let chars = chars_of(line.as_str());
                if chars.len() == 0 {
                    return Action::Read;
                }
                proof {
                    reveal_strlit(" ");
                }
                assert(" "@ =~= seq![' ']);
                let mut typed = self.buffer.clone();
                typed.append(" ");
                typed.append(line.as_str());
                assert(typed@.last() == chars@.last());
                if chars[chars.len() - 1] != ';' {
                    self.buffer = typed;
                    return Action::Read;
                }
                let statement = String::from_str(sanitize_query(typed.as_str()));
                self.buffer = String::new();
                Action::Run { statement, entry: typed }
            },
            Input::Interrupted => {
                self.buffer = String::new();
                Action::Read
            },
            Input::Closed => Action::Quit,
        }
    }
}

} // verus!
