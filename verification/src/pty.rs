//! Pseudo-terminal session model.
//!
//! The operating-system side of a session — spawning the shell inside a
//! pseudo-terminal pair, the dedicated thread that performs blocking
//! reads, and the write sink — is owned by the host.  This module holds
//! the session's verified core: the lifecycle state machine, the
//! order-preserving queue of byte chunks that the background reader
//! delivers and the frame loop drains, and the shell fallback choice.
//! The host forwards every chunk its reader thread received through
//! [`PtySession::push_chunk`] and calls [`PtySession::poll`] once per
//! frame; the contracts guarantee that no chunk is dropped, duplicated
//! or reordered on the way.

use vstd::prelude::*;

verus! {

/// Lifecycle state of a session.  `Exited` and `Errored` are terminal:
/// once reached, no further reads or writes are attempted.
#[derive(Clone, Copy, PartialEq, Eq, Structural, Debug)]
pub enum SessionStatus {
    /// The pseudo-terminal pair is being set up; no I/O yet.
    Initializing,
    /// The child shell is running and chunks may arrive.
    Running,
    /// The child process exited with the given code.
    Exited(u32),
    /// An unrecoverable I/O error ended the session.
    Errored,
}

/// The verified core of a pseudo-terminal session: its lifecycle state
/// and the FIFO queue of byte chunks read from the child but not yet
/// consumed by the frame loop.
pub struct PtySession {
    /// Chunks delivered by the background reader, oldest first.
    pub chunks: Vec<Vec<u8>>,
    /// Current lifecycle state.
    pub status: SessionStatus,
}

/// The chunks a session still holds, as mathematical byte sequences,
/// oldest first.
pub open spec fn pending(s: PtySession) -> Seq<Seq<u8>> {
    s.chunks.deep_view()
}

/// Model of one `poll` on a queue of pending chunks: what it returns and
/// what remains pending afterwards — everything, and nothing.
pub open spec fn spec_poll(pending: Seq<Seq<u8>>) -> (Seq<Seq<u8>>, Seq<Seq<u8>>) {
    (pending, Seq::empty())
}

impl PtySession {
    /// A session that has not finished initialization: no pending chunks.
    pub fn new() -> (r: Self)
        ensures
            r.status == SessionStatus::Initializing,
            r.chunks@.len() == 0,
    {
        PtySession { chunks: Vec::new(), status: SessionStatus::Initializing }
    }

    /// Marks initialization complete; the shell is running.
    pub fn start(&mut self)
        requires
            old(self).status == SessionStatus::Initializing,
        ensures
            final(self).status == SessionStatus::Running,
            final(self).chunks@ == old(self).chunks@,
    {
        self.status = SessionStatus::Running;
    }

    /// Appends one chunk read from the child process.  Every chunk that
    /// was successfully read must be delivered here; nothing is dropped.
    pub fn push_chunk(&mut self, chunk: Vec<u8>)
        ensures
            final(self).chunks@ == old(self).chunks@.push(chunk),
            final(self).status == old(self).status,
    {
        self.chunks.push(chunk);
    }

    /// Drains the pending chunks without blocking: returns them all, in
    /// the exact order they arrived, and leaves the queue empty.
    pub fn poll(&mut self) -> (drained: Vec<Vec<u8>>)
        ensures
            drained@ == old(self).chunks@,
            drained.deep_view() == spec_poll(pending(*old(self))).0,
            pending(*final(self)) == spec_poll(pending(*old(self))).1,
            final(self).chunks@.len() == 0,
            final(self).status == old(self).status,
    {
        let mut drained: Vec<Vec<u8>> = Vec::new();
        core::mem::swap(&mut drained, &mut self.chunks);
        drained
    }

    /// Records that the child process exited with the given code; the
    /// session becomes inert.
    pub fn mark_exited(&mut self, code: u32)
        ensures
            final(self).status == SessionStatus::Exited(code),
            final(self).chunks@ == old(self).chunks@,
    {
        self.status = SessionStatus::Exited(code);
    }

    /// Records an unrecoverable I/O error; the session becomes inert.
    pub fn mark_errored(&mut self)
        ensures
            final(self).status == SessionStatus::Errored,
            final(self).chunks@ == old(self).chunks@,
    {
        self.status = SessionStatus::Errored;
    }

    /// Whether bytes may still be written to the child's input stream:
    /// only while the shell is running.
    pub fn can_transmit(&self) -> (r: bool)
        ensures
            r == (self.status == SessionStatus::Running),
    {
        match self.status {
            SessionStatus::Running => true,
            _ => false,
        }
    }
}

/// Which shell the session should launch.
#[derive(Clone, Copy, PartialEq, Eq, Structural, Debug)]
pub enum ShellChoice {
    /// The user's configured shell from the environment.
    Configured,
    /// `/bin/bash`.
    Bash,
    /// `/bin/zsh`.
    Zsh,
    /// `/bin/sh`, the last resort.
    Sh,
}

/// Picks the shell to launch: the configured shell when the environment
/// names one, otherwise the first present shell of the fallback chain
/// bash, zsh, sh.
pub fn choose_shell(configured: bool, has_bash: bool, has_zsh: bool) -> (r: ShellChoice)
    ensures
        configured ==> r == ShellChoice::Configured,
        !configured && has_bash ==> r == ShellChoice::Bash,
        !configured && !has_bash && has_zsh ==> r == ShellChoice::Zsh,
        !configured && !has_bash && !has_zsh ==> r == ShellChoice::Sh,
{
    if configured {
        ShellChoice::Configured
    } else if has_bash {
        ShellChoice::Bash
    } else if has_zsh {
        ShellChoice::Zsh
    } else {
        ShellChoice::Sh
    }
}

/// Polling is idempotent: a `poll` right after another `poll`, with no
/// chunk pushed in between, yields nothing — the first drain leaves no
/// carryover and duplicates no data.
pub proof fn lemma_poll_idempotent(p: Seq<Seq<u8>>)
    ensures
        spec_poll(spec_poll(p).1).0.len() == 0,
{
}

} // verus!
