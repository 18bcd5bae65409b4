//! The decisions behind the interactive prompt: which prompt to show, what a
//! line of input does to the command being typed, and when a command is done.

use vstd::prelude::*;
use vstd::string::StringExecFns;
use crate::text::decimal;

verus! {

/// The commands that the prompt tells apart: those that may span several
/// lines, and all others.
#[derive(Debug, PartialEq, Eq)]
pub enum Command {
    Query(String),
    QueryPrepared(String),
    QueryExplain(String),
    Transact(String),
    Other(String),
}

impl Command {
    /// The command may need further lines.
    pub open spec fn spans_lines(self) -> bool {
        !(self is Other)
    }

    pub fn may_continue(&self) -> (r: bool)
        ensures
            r == self.spans_lines(),
    {
        match self {
            Command::Other(_) => false,
            _ => true,
        }
    }
}

/// What reading input came to.
#[derive(Debug, PartialEq, Eq)]
pub enum InputResult {
    /// A whole command.
    MetaCommand(Command),
    /// An empty line.
    Empty,
    /// More input is needed.
    More,
    /// The input has ended.
    Eof,
}

/// What the user did at the prompt.
#[derive(Debug, PartialEq, Eq)]
pub enum UserAction {
    TextInput(String),
    Interrupt,
    Quit,
}

/// What a line of input asks for next.
#[derive(Debug, PartialEq, Eq)]
pub enum LineOutcome {
    /// Reading is done with this result.
    Done(InputResult),
    /// The text is to be parsed as a new command.
    Parse(String),
    /// The command in process, with the line added to its text.
    Continue(Command),
}

/// The text typed so far, and the command that it belongs to.
#[derive(Debug, PartialEq, Eq)]
pub struct InputReader {
    pub buffer: String,
    pub in_process_cmd: Option<Command>,
}

/// The escape sequence that sets the foreground to a colour given by its
/// red, green and blue parts.
pub open spec fn rgb_foreground(r: u8, g: u8, b: u8) -> Seq<char> {
    "\x1B[38;2;"@ + decimal(r as nat) + ";"@ + decimal(g as nat) + ";"@ + decimal(b as nat) + "m"@
}

/// termion's `color::Rgb::fg_string`: the escape character, `[38;2;`, the
/// three parts of the colour in decimal with `;` between them, and `m`.
#[verifier::external_body]
fn foreground(r: u8, g: u8, b: u8) -> (s: String)
    ensures
        s@ == rgb_foreground(r, g, b),
{
    termion::color::Rgb(r, g, b).fg_string()
}

/// termion's `color::Reset::fg_str`: the escape sequence that sets the
/// foreground back, which is the escape character and `[39m`.
#[verifier::external_body]
fn foreground_reset() -> (s: &'static str)
    ensures
        s@ == "\x1B[39m"@,
{
    termion::color::Reset.fg_str()
}

/// The prompt at the start of a command.
pub open spec fn default_prompt() -> Seq<char> {
    "mentat=> "@
}

/// The prompt while a command needs further lines.
pub open spec fn more_prompt() -> Seq<char> {
    "mentat.> "@
}

/// `first`, a line break, and `second`.
pub open spec fn joined(first: Seq<char>, second: Seq<char>) -> Seq<char> {
    first + "\n"@ + second
}

impl InputReader {
    pub fn new() -> (r: InputReader)
        ensures
            r.buffer@.len() == 0,
            r.in_process_cmd.is_none(),
    {
        InputReader { buffer: String::new(), in_process_cmd: None }
    }

    /// The prompt to show, in blue: the one for further lines while a
    /// command is in process.
    pub fn prompt(&self) -> (r: String)
        ensures
            r@ == rgb_foreground(0x99, 0xaa, 0xff) + (if self.in_process_cmd.is_some() {
                more_prompt()
            } else {
                default_prompt()
            }) + "\x1B[39m"@,
    {
        let text = if self.in_process_cmd.is_some() {
            "mentat.> "
        } else {
            "mentat=> "
        };
        foreground(0x99, 0xaa, 0xff).concat(text).concat(foreground_reset())
    }

    /// The text that a line adds to the buffer, or nothing where the input
    /// has ended: an interrupt while a command is in process stands for an
    /// empty line, any other interrupt ends the input.
    pub open spec fn line_of(self, action: UserAction) -> Option<Seq<char>> {
        match action {
            UserAction::TextInput(s) => Some(s@),
            UserAction::Interrupt => if self.in_process_cmd.is_some() {
                Some(Seq::empty())
            } else {
                None
            },
            UserAction::Quit => None,
        }
    }

    /// The buffer after `line`: an interrupt has emptied it first, and a
    /// buffer that holds text gets a line break before the line.
    pub open spec fn buffer_after(self, action: UserAction, line: Seq<char>) -> Seq<char> {
        let kept = if action is Interrupt {
            Seq::<char>::empty()
        } else {
            self.buffer@
        };
        if kept.len() == 0 {
            line
        } else {
            joined(kept, line)
        }
    }

    /// Takes what the user did at the prompt.
    pub fn take_line(&mut self, action: UserAction) -> (r: LineOutcome)
        ensures
            match old(self).line_of(action) {
                None => r == LineOutcome::Done(InputResult::Eof) && *final(self) == *old(self),
                Some(line) => {
                    let text = old(self).buffer_after(action, line);
                    let kept = if action is Interrupt {
                        None
                    } else {
                        old(self).in_process_cmd
                    };
                    &&& final(self).buffer@ == text
                    &&& final(self).in_process_cmd == kept
                    &&& if text.len() == 0 {
                        r == LineOutcome::Done(InputResult::Empty)
                    } else {
                        match kept {
                            Some(Command::QueryPrepared(args)) => r matches LineOutcome::Continue(
                                Command::QueryPrepared(t),
                            ) && t@ == joined(args@, line),
                            Some(Command::Query(args)) => r matches LineOutcome::Continue(
                                Command::Query(t),
                            ) && t@ == joined(args@, line),
                            Some(Command::Transact(args)) => r matches LineOutcome::Continue(
                                Command::Transact(t),
                            ) && t@ == joined(args@, line),
                            _ => r matches LineOutcome::Parse(t) && t@ == text,
                        }
                    }
                },
            },
    {
        let line: String = match action {
            UserAction::TextInput(s) => s,
            UserAction::Interrupt => {
                if self.in_process_cmd.is_some() {
                    self.in_process_cmd = None;
                    self.buffer = String::new();
                    String::new()
                } else {
                    return LineOutcome::Done(InputResult::Eof);
                }
            },
            UserAction::Quit => {
                return LineOutcome::Done(InputResult::Eof);
            },
        };
        if !self.buffer.as_str().is_empty() {
            self.buffer.append("\n");
        }
        self.buffer.append(line.as_str());
        proof {
            assert(Seq::<char>::empty() + line@ =~= line@);
            assert(self.buffer@ =~= old(self).buffer_after(action, line@));
        }
        if self.buffer.as_str().is_empty() {
            return LineOutcome::Done(InputResult::Empty);
        }
        match &self.in_process_cmd {
            Some(Command::QueryPrepared(args)) => LineOutcome::Continue(
                Command::QueryPrepared(args.clone().concat("\n").concat(line.as_str())),
            ),
            Some(Command::Query(args)) => LineOutcome::Continue(
                Command::Query(args.clone().concat("\n").concat(line.as_str())),
            ),
            Some(Command::Transact(args)) => LineOutcome::Continue(
                Command::Transact(args.clone().concat("\n").concat(line.as_str())),
            ),
            _ => LineOutcome::Parse(self.buffer.clone()),
        }
    }

    /// Settles the command that the buffer came to. A command that may span
    /// lines and is not complete stays in process, and more input is asked
    /// for. Any other command, and a text that is no command, ends the
    /// command in process: the buffer is emptied and its text is handed out
    /// for the history.
    pub fn settle<E>(&mut self, parsed: Result<Command, E>, complete: bool) -> (r: (
        Result<InputResult, E>,
        Option<String>,
    ))
        ensures
            match parsed {
                Ok(cmd) => if cmd.spans_lines() && !complete {
                    &&& r.0 == Ok::<InputResult, E>(InputResult::More)
                    &&& r.1.is_none()
                    &&& final(self).buffer == old(self).buffer
                    &&& final(self).in_process_cmd == Some(cmd)
                } else {
                    &&& r.0 == Ok::<InputResult, E>(InputResult::MetaCommand(cmd))
                    &&& r.1 == Some(old(self).buffer)
                    &&& final(self).buffer@.len() == 0
                    &&& final(self).in_process_cmd.is_none()
                },
                Err(e) => {
                    &&& r.0 == Err::<InputResult, E>(e)
                    &&& r.1 == Some(old(self).buffer)
                    &&& final(self).buffer@.len() == 0
                    &&& final(self).in_process_cmd.is_none()
                },
            },
    {
        match parsed {
            Ok(cmd) => {
                if cmd.may_continue() && !complete {
                    self.in_process_cmd = Some(cmd);
                    (Ok(InputResult::More), None)
                } else {
                    let entry = self.buffer.clone();
                    self.buffer = String::new();
                    self.in_process_cmd = None;
                    (Ok(InputResult::MetaCommand(cmd)), Some(entry))
                }
            },
            Err(e) => {
                let entry = self.buffer.clone();
                self.buffer = String::new();
                self.in_process_cmd = None;
                (Err(e), Some(entry))
            },
        }
    }
}

} // verus!
