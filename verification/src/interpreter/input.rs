//! The line-input boundary of the `input` built-in, and raw output.
//!
//! An `Input` is either a pre-seeded queue of canned lines, consumed from
//! the back, or the process's standard input. Only the queue form has a
//! mathematical model; what standard input yields is outside any model,
//! and the evaluator's contracts promise nothing about runs that read it.

use vstd::prelude::*;

use std::io::Write;

use super::errors::{err_view, ErrV, InterpreterError};
use vstd::string::StringExecFns;

verus! {

/// Where input lines come from.
#[derive(Debug)]
pub enum InputKind {
    /// A queue of canned lines, consumed from the back.
    Cursor(Vec<String>),
    /// The process's standard input.
    Stdin,
}

/// A source of input lines.
#[derive(Debug)]
pub struct Input {
    reader: InputKind,
}

impl Input {
    /// Whether this source has a mathematical model: only a queue does.
    pub closed spec fn modeled(&self) -> bool {
        self.reader is Cursor
    }

    /// The canned lines still unread, oldest last.
    pub closed spec fn queue(&self) -> Seq<Seq<char>> {
        match self.reader {
            InputKind::Cursor(q) => q@.map_values(|s: String| s@),
            InputKind::Stdin => Seq::empty(),
        }
    }

    /// A source reading the process's standard input.
    pub fn stdin() -> (r: Input)
        ensures
            !r.modeled(),
    {
        Input { reader: InputKind::Stdin }
    }

    /// A source that will hand out the given lines, last first.
    pub fn cursored(lines: Vec<String>) -> (r: Input)
        ensures
            r.modeled(),
            r.queue() == lines@.map_values(|s: String| s@),
    {
        Input { reader: InputKind::Cursor(lines) }
    }

    /// Appends one line to the buffer: the back of the queue, which it
    /// consumes, or whatever standard input yields. Returns how many bytes
    /// the line holds. Fails exactly when the queue is exhausted, or when
    /// standard input fails.
    pub fn read_line(&mut self, buf: &mut String) -> (r: Result<usize, InterpreterError>)
        ensures
            final(self).modeled() == old(self).modeled(),
            old(self).modeled() ==> match r {
                Ok(n) => old(self).queue().len() > 0 && final(self).queue() == old(
                    self,
                ).queue().drop_last() && final(buf)@ == old(buf)@ + old(self).queue().last() && n
                    == vstd::utf8::encode_utf8(old(self).queue().last()).len() as usize,
                Err(e) => old(self).queue().len() == 0 && final(self).queue() == old(self).queue()
                    && err_view(e) == ErrV::IOError,
            },
    {
        match &mut self.reader {
            InputKind::Cursor(q) => {
                let ghost qs = q@;
                match q.pop() {
                    Some(line) => {
                        let n = line.as_str().len();
                        buf.append(line.as_str());
                        proof {
                            assert(q@.map_values(|s: String| s@) =~= qs.map_values(
                                |s: String| s@,
                            ).drop_last());
                            assert(line@ == qs.map_values(|s: String| s@).last());
                        }
                        Ok(n)
                    },
                    None => {
                        proof {
                            assert(qs.map_values(|s: String| s@).len() == 0);
                        }
                        Err(InterpreterError::IOError)
                    },
                }
            },
            InputKind::Stdin => read_stdin_line(buf),
        }
    }
}

/// Relies on std::io::Stdin::read_line: appends one line from standard
/// input to the buffer; nothing is promised of what arrives.
#[verifier::external_body]
fn read_stdin_line(buf: &mut String) -> (r: Result<usize, InterpreterError>) {
    match std::io::stdin().read_line(buf) {
        Ok(n) => Ok(n),
        Err(_) => Err(InterpreterError::IOError),
    }
}

/// Relies on std::io::Stdout's write_fmt and flush: puts the text on
/// standard output, unbuffered; nothing is observable to contracts.
#[verifier::external_body]
pub fn print_raw(s: &str) {
    let mut out = std::io::stdout();
    let _ = write!(out, "{}", s);
    let _ = out.flush();
}

/// The text with leading and trailing whitespace removed.
pub uninterp spec fn trimmed(s: Seq<char>) -> Seq<char>;

/// Relies on str::trim: removes leading and trailing whitespace; the
/// result depends on the characters alone.
#[verifier::external_body]
pub fn trim_line(s: &str) -> (r: &str)
    ensures
        r@ == trimmed(s@),
{
    s.trim()
}

} // verus!
