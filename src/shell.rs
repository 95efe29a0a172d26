//! The console of the interpreter: the text waiting to be written to the
//! output and error streams, and the reading of input lines.

use vstd::prelude::*;
use vstd::string::*;

verus! {

/// Why no input line could be taken.
#[derive(Clone, Copy, Debug, PartialEq, Eq, Structural)]
pub enum ShellError {
    /// The input source failed.
    ReadFailed,
}

/// Text waiting to be written to the output stream and to the error stream.
pub struct Shell {
    pub out: String,
    pub err: String,
}

/// The prompt written before each line is read.
pub open spec fn prompt_text() -> Seq<char> {
    "$ "@
}

/// `text` as a line of its own.
pub open spec fn line_of(text: Seq<char>) -> Seq<char> {
    text + seq!['\n']
}

/// Where a response goes: a success response that is not empty to the
/// output stream, an error to the error stream, and nothing otherwise.
pub open spec fn routed(out: Seq<char>, err: Seq<char>, response: Result<String, String>) -> (
    Seq<char>,
    Seq<char>,
) {
    match response {
        Ok(s) => if s@.len() == 0 {
            (out, err)
        } else {
            (out + line_of(s@), err)
        },
        Err(e) => (out, err + line_of(e@)),
    }
}

impl Shell {
    pub fn new() -> (r: Shell)
        ensures
            r.out@ == Seq::<char>::empty(),
            r.err@ == Seq::<char>::empty(),
    {
        Shell { out: String::new(), err: String::new() }
    }

    /// Writes the prompt that is shown before each line is read.
    pub fn prompt(&mut self)
        ensures
            final(self).out@ == old(self).out@ + prompt_text(),
            final(self).err@ == old(self).err@,
    {
        self.out.append("$ ");
    }

    /// Takes what the input source yielded after the prompt: a line (empty
    /// at the end of the input), or `None` where reading failed.
    pub fn read_stdin(&mut self, input: Option<String>) -> (r: Result<String, ShellError>)
        ensures
            final(self).out@ == old(self).out@,
            final(self).err@ == old(self).err@,
            match input {
                None => r == Err::<String, ShellError>(ShellError::ReadFailed),
                Some(line) => r is Ok && r->Ok_0@ == line@,
            },
    {
        match input {
            None => Err(ShellError::ReadFailed),
            Some(line) => Ok(line),
        }
    }

    /// Writes `text` as a line to the output stream.
    pub fn write_stdout(&mut self, text: String)
        ensures
            final(self).out@ == old(self).out@ + line_of(text@),
            final(self).err@ == old(self).err@,
    {
        proof {
            reveal_strlit("\n");
        }
        self.out.append(text.as_str());
        self.out.append("\n");
        assert(self.out@ =~= old(self).out@ + line_of(text@));
    }

    /// Writes `text` as a line to the error stream.
    pub fn write_stderr(&mut self, text: String)
        ensures
            final(self).err@ == old(self).err@ + line_of(text@),
            final(self).out@ == old(self).out@,
    {
        proof {
            reveal_strlit("\n");
        }
        self.err.append(text.as_str());
        self.err.append("\n");
        assert(self.err@ =~= old(self).err@ + line_of(text@));
    }

    /// Writes the response of one line to the stream it belongs on.
    pub fn deliver(&mut self, response: Result<String, String>)
        ensures
            (final(self).out@, final(self).err@) == routed(old(self).out@, old(self).err@, response),
    {
        match response {
            Ok(s) => {
                if s.as_str().unicode_len() > 0 {
                    self.write_stdout(s);
                }
            },
            Err(e) => self.write_stderr(e),
        }
    }

    /// Hands over the text waiting for each stream, leaving none.
    pub fn take_output(&mut self) -> (r: (String, String))
        ensures
            r.0@ == old(self).out@,
            r.1@ == old(self).err@,
            final(self).out@ == Seq::<char>::empty(),
            final(self).err@ == Seq::<char>::empty(),
    {
        let mut out = String::new();
        let mut err = String::new();
        core::mem::swap(&mut self.out, &mut out);
        core::mem::swap(&mut self.err, &mut err);
        (out, err)
    }
}

} // verus!
