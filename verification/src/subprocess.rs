//! Running a program under a time limit: what to do next, given what has been
//! read from the program so far and how long it has run.
//!
//! The caller starts the program, reads the clock and the program's two
//! streams, sleeps and waits as it is told here, and hands back what came of
//! it.

use vstd::prelude::*;

verus! {

/// The text of each of some strings.
pub open spec fn words(args: Seq<String>) -> Seq<Seq<char>> {
    Seq::new(args.len(), |i: int| args[i]@)
}

/// A program to run: its arguments, the one variable to set in its
/// environment, and how many seconds it may take.
#[derive(Debug, Clone, PartialEq, Eq)]
pub struct CommandLine {
    pub program: String,
    pub args: Vec<String>,
    pub env: Option<(String, String)>,
    pub timeout_secs: u64,
}

/// What a program wrote before it ended.
#[derive(Debug, Clone, PartialEq, Eq)]
pub struct ExecResult {
    pub stdout: Vec<u8>,
    pub stderr: Vec<u8>,
}

/// Why a run gave no result.
#[derive(Debug, Clone, PartialEq, Eq)]
pub enum ExecError {
    /// The program ran longer than it may; what it wrote until then.
    TimeoutError { stdout: Vec<u8>, stderr: Vec<u8> },
    /// Starting the program, reading from it or waiting for it failed; the
    /// system's message.
    IoError(String),
    /// The program ended without success: its exit code, where it has one, and
    /// what it wrote.
    ProcessError { status: Option<i32>, stdout: Vec<u8>, stderr: Vec<u8> },
    /// Both streams were closed and the program still had not ended.
    ProcessNotStarted,
    /// A duration did not fit the clock's range.
    DurationError,
}

/// How long to sleep, in milliseconds, after a round in which nothing was read.
pub const IDLE_SLEEP_MS: u64 = 100;

/// What to do at the start of a round.
#[derive(Debug, Clone, Copy, PartialEq, Eq)]
pub enum Poll {
    /// The time is up: kill the program.
    Kill,
    /// Read once from each stream that is marked.
    Read { stdout: bool, stderr: bool },
}

/// What to do at the end of a round.
#[derive(Debug, Clone, Copy, PartialEq, Eq)]
pub enum Next {
    /// Both streams are closed: wait for the program to end.
    Wait,
    /// Nothing was read: sleep, then start the next round.
    Sleep,
    /// Something was read: start the next round at once.
    Again,
}

/// How the program ended.
#[derive(Debug, Clone, Copy, PartialEq, Eq)]
pub struct ExitStatus {
    pub success: bool,
    pub code: Option<i32>,
}

/// What has been read from a running program.
#[derive(Debug)]
pub struct ExecState {
    pub stdout: Vec<u8>,
    pub stderr: Vec<u8>,
    pub stdout_done: bool,
    pub stderr_done: bool,
}

/// A stream after one read from it: what it held with the chunk behind it, and
/// whether it is closed, which an empty chunk says. A stream that was not
/// read stays as it was.
pub open spec fn after_read(held: Seq<u8>, done: bool, chunk: Option<Seq<u8>>) -> (Seq<u8>, bool) {
    match chunk {
        Some(bytes) => (held + bytes, done || bytes.len() == 0),
        None => (held, done),
    }
}

/// Whether a read brought anything.
pub open spec fn brought_data(chunk: Option<Seq<u8>>) -> bool {
    chunk matches Some(bytes) && bytes.len() > 0
}

/// The bytes of an optional chunk.
pub open spec fn chunk_view(chunk: Option<&[u8]>) -> Option<Seq<u8>> {
    match chunk {
        Some(bytes) => Some(bytes@),
        None => None,
    }
}

/// Appends `chunk` to `held`.
fn append(held: &mut Vec<u8>, chunk: &[u8])
    ensures
        final(held)@ == old(held)@ + chunk@,
{
    let mut i: usize = 0;
    assert(held@ =~= old(held)@ + chunk@.take(0));
    while i < chunk.len()
        invariant
            i <= chunk.len(),
            held@ == old(held)@ + chunk@.take(i as int),
        decreases chunk.len() - i,
    {
        held.push(chunk[i]);
        assert(held@ =~= old(held)@ + chunk@.take(i + 1));
        i += 1;
    }
    assert(chunk@.take(chunk.len() as int) =~= chunk@);
}

impl ExecState {
    /// Nothing read yet, both streams open.
    pub fn new() -> (state: Self)
        ensures
            state.stdout@.len() == 0,
            state.stderr@.len() == 0,
            !state.stdout_done,
            !state.stderr_done,
    {
        ExecState { stdout: Vec::new(), stderr: Vec::new(), stdout_done: false, stderr_done: false }
    }

    /// What to do at the start of a round, `elapsed_ms` milliseconds into a
    /// run that may take `limit_ms`: kill the program once the limit is
    /// reached, else read from each stream that is still open.
    pub fn poll(&self, elapsed_ms: i64, limit_ms: i64) -> (poll: Poll)
        ensures
            poll == if elapsed_ms >= limit_ms {
                Poll::Kill
            } else {
                Poll::Read { stdout: !self.stdout_done, stderr: !self.stderr_done }
            },
    {
        if elapsed_ms >= limit_ms {
            Poll::Kill
        } else {
            Poll::Read { stdout: !self.stdout_done, stderr: !self.stderr_done }
        }
    }

    /// Takes in what one read from each stream brought (nothing for a stream
    /// that was not read) and says how the round ends.
    pub fn feed(&mut self, stdout: Option<&[u8]>, stderr: Option<&[u8]>) -> (next: Next)
        ensures
            (final(self).stdout@, final(self).stdout_done) == after_read(
                old(self).stdout@,
                old(self).stdout_done,
                chunk_view(stdout),
            ),
            (final(self).stderr@, final(self).stderr_done) == after_read(
                old(self).stderr@,
                old(self).stderr_done,
                chunk_view(stderr),
            ),
            next == if final(self).stdout_done && final(self).stderr_done {
                Next::Wait
            } else if brought_data(chunk_view(stdout)) || brought_data(chunk_view(stderr)) {
                Next::Again
            } else {
                Next::Sleep
            },
    {
        let mut data_read = false;
        match stdout {
            Some(chunk) => {
                append(&mut self.stdout, chunk);
                if chunk.len() == 0 {
                    self.stdout_done = true;
                } else {
                    data_read = true;
                }
            },
            None => {},
        }
        match stderr {
            Some(chunk) => {
                append(&mut self.stderr, chunk);
                if chunk.len() == 0 {
                    self.stderr_done = true;
                } else {
                    data_read = true;
                }
            },
            None => {},
        }
        if self.stdout_done && self.stderr_done {
            Next::Wait
        } else if data_read {
            Next::Again
        } else {
            Next::Sleep
        }
    }

    /// The outcome of a run that was killed: what was read until then.
    pub fn timed_out(self) -> (error: ExecError)
        ensures
            error == (ExecError::TimeoutError { stdout: self.stdout, stderr: self.stderr }),
    {
        ExecError::TimeoutError { stdout: self.stdout, stderr: self.stderr }
    }

    /// The outcome of a run whose streams are closed, given how the wait for
    /// the program ended: with its status, or without one because it had not
    /// ended in time.
    pub fn finish(self, waited: Option<ExitStatus>) -> (r: Result<ExecResult, ExecError>)
        ensures
            r == match waited {
                None => Err::<ExecResult, ExecError>(ExecError::ProcessNotStarted),
                Some(status) => if status.success {
                    Ok(ExecResult { stdout: self.stdout, stderr: self.stderr })
                } else {
                    Err(
                        ExecError::ProcessError {
                            status: status.code,
                            stdout: self.stdout,
                            stderr: self.stderr,
                        },
                    )
                },
            },
    {
        match waited {
            None => Err(ExecError::ProcessNotStarted),
            Some(status) => {
                if status.success {
                    Ok(ExecResult { stdout: self.stdout, stderr: self.stderr })
                } else {
                    Err(
                        ExecError::ProcessError {
                            status: status.code,
                            stdout: self.stdout,
                            stderr: self.stderr,
                        },
                    )
                }
            },
        }
    }
}

} // verus!
