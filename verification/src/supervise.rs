//! The supervisor's decisions: where each stream's log goes, whether a
//! command may run at all, how the run progresses from spawn to
//! termination, and which exit code the program reports.

use vstd::prelude::*;

verus! {

/// Exit code reported when the child failed or the run could not be
/// completed. Deliberately a fixed sentinel, not the child's own code.
pub const FAILURE_EXIT_CODE: i32 = -1;

/// The reasons a run is refused before anything is spawned.
#[derive(Debug)]
pub enum CommandError {
    /// The command specification names no program to run.
    InvalidCommand,
}

/// Where one stream's log should go.
#[derive(Debug)]
pub enum SinkDirective {
    /// The shared fallback: the process's own standard error stream.
    Default,
    /// A file at this path, created fresh for the run (truncating whatever
    /// an earlier run left there).
    Path(String),
}

/// Maps an optional log-path argument to the sink directive it stands for:
/// a given path is logged to that file, an omitted one to the fallback.
pub fn sink_directive(path: Option<String>) -> (d: SinkDirective)
    ensures
        d == match path {
            Option::None => SinkDirective::Default,
            Option::Some(p) => SinkDirective::Path(p),
        },
{
    match path {
        Option::None => SinkDirective::Default,
        Option::Some(p) => SinkDirective::Path(p),
    }
}

/// Accepts exactly the command specifications that name a program.
pub fn validate_command(command: &Vec<String>) -> (r: Result<(), CommandError>)
    ensures
        r is Ok <==> command@.len() > 0,
        r matches Err(e) ==> e is InvalidCommand,
{
    if command.len() == 0 {
        Err(CommandError::InvalidCommand)
    } else {
        Ok(())
    }
}

/// Final exit code for an observed child exit: zero exactly on child
/// success, the sentinel otherwise.
pub fn final_exit_code(child_success: bool) -> (code: i32)
    ensures
        code == 0 <==> child_success,
        !child_success ==> code == FAILURE_EXIT_CODE,
{
    if child_success {
        0
    } else {
        FAILURE_EXIT_CODE
    }
}

/// The supervisor's progress through one run. A run moves forward one
/// phase at a time and never retries a transition; any failure moves it
/// straight to `Terminated`.
#[derive(Clone, Copy, Debug, PartialEq, Eq, Structural)]
pub enum Phase {
    /// The command was accepted; nothing has been spawned.
    Created,
    /// The child process exists, its streams redirected through pipes.
    Spawned,
    /// All three pipe endpoints have been handed to duplication tasks.
    StreamsWired,
    /// The duplication tasks run; the supervisor waits on the child.
    Running,
    /// The child has exited and its status is recorded.
    ChildExited,
    /// The stdout and stderr tasks have finished; stdin's is abandoned.
    OutputTasksJoined,
    /// The run is over; only the exit code remains.
    Terminated,
}

/// One run of a supervised child, from validated command to final exit
/// code. The exit code it reports is zero exactly when the run went
/// through every phase and the child itself succeeded.
#[derive(Debug)]
pub struct Supervisor {
    phase: Phase,
    child_success: Option<bool>,
    failed: bool,
}

impl Supervisor {
    /// The phase the run has reached.
    pub closed spec fn phase(&self) -> Phase {
        self.phase
    }

    /// The child's recorded exit status, once it has exited.
    pub closed spec fn child_success(&self) -> Option<bool> {
        self.child_success
    }

    /// Whether a fatal failure ended the run.
    pub closed spec fn failed(&self) -> bool {
        self.failed
    }

    /// The child's status is known exactly from `ChildExited` on, and a
    /// recorded failure is final.
    pub closed spec fn wf(&self) -> bool {
        &&& (self.failed ==> self.phase == Phase::Terminated)
        &&& match self.phase {
            Phase::Created | Phase::Spawned | Phase::StreamsWired | Phase::Running => {
                self.child_success is None && !self.failed
            },
            Phase::ChildExited | Phase::OutputTasksJoined => {
                self.child_success is Some && !self.failed
            },
            Phase::Terminated => self.failed || self.child_success is Some,
        }
    }

    /// Admits exactly the commands that name a program; a run for an
    /// accepted command starts in `Created` with nothing recorded.
    pub fn new(command: &Vec<String>) -> (r: Result<Supervisor, CommandError>)
        ensures
            r is Ok <==> command@.len() > 0,
            r matches Ok(s) ==> {
                &&& s.wf()
                &&& s.phase() == Phase::Created
                &&& s.child_success() is None
                &&& !s.failed()
            },
            r matches Err(e) ==> e is InvalidCommand,
    {
        match validate_command(command) {
            Ok(u) => Ok(Supervisor { phase: Phase::Created, child_success: None, failed: false }),
            Err(e) => Err(e),
        }
    }

    /// The phase, for a caller that must check it before a transition.
    pub fn current_phase(&self) -> (p: Phase)
        ensures
            p == self.phase(),
    {
        self.phase
    }

    /// The child process was created with its three streams piped.
    pub fn note_spawned(&mut self)
        requires
            old(self).wf(),
            old(self).phase() == Phase::Created,
        ensures
            final(self).wf(),
            final(self).phase() == Phase::Spawned,
            final(self).child_success() == old(self).child_success(),
            final(self).failed() == old(self).failed(),
    {
        self.phase = Phase::Spawned;
    }

    /// Each pipe endpoint was handed to its own duplication task.
    pub fn note_streams_wired(&mut self)
        requires
            old(self).wf(),
            old(self).phase() == Phase::Spawned,
        ensures
            final(self).wf(),
            final(self).phase() == Phase::StreamsWired,
            final(self).child_success() == old(self).child_success(),
            final(self).failed() == old(self).failed(),
    {
        self.phase = Phase::StreamsWired;
    }

    /// The duplication tasks run; the supervisor now waits on the child.
    pub fn note_tasks_running(&mut self)
        requires
            old(self).wf(),
            old(self).phase() == Phase::StreamsWired,
        ensures
            final(self).wf(),
            final(self).phase() == Phase::Running,
            final(self).child_success() == old(self).child_success(),
            final(self).failed() == old(self).failed(),
    {
        self.phase = Phase::Running;
    }

    /// The child exited; its success or failure is recorded as observed.
    pub fn note_child_exit(&mut self, success: bool)
        requires
            old(self).wf(),
            old(self).phase() == Phase::Running,
        ensures
            final(self).wf(),
            final(self).phase() == Phase::ChildExited,
            final(self).child_success() == Some(success),
            final(self).failed() == old(self).failed(),
    {
        self.phase = Phase::ChildExited;
        self.child_success = Some(success);
    }

    /// The stdout and stderr tasks finished without fault.
    pub fn note_outputs_joined(&mut self)
        requires
            old(self).wf(),
            old(self).phase() == Phase::ChildExited,
        ensures
            final(self).wf(),
            final(self).phase() == Phase::OutputTasksJoined,
            final(self).child_success() == old(self).child_success(),
            final(self).failed() == old(self).failed(),
    {
        self.phase = Phase::OutputTasksJoined;
    }

    /// A fatal failure at any point of the run: the run terminates at once
    /// and the program's exit code is the non-zero sentinel.
    pub fn abort(&mut self) -> (code: i32)
        requires
            old(self).wf(),
            old(self).phase() != Phase::Terminated,
        ensures
            final(self).wf(),
            final(self).phase() == Phase::Terminated,
            final(self).failed(),
            code == FAILURE_EXIT_CODE,
            code != 0,
    {
        self.phase = Phase::Terminated;
        self.failed = true;
        FAILURE_EXIT_CODE
    }

    /// A run that went through every phase terminates with exit code zero
    /// exactly when the child itself succeeded, the sentinel otherwise.
    pub fn finish(&mut self) -> (code: i32)
        requires
            old(self).wf(),
            old(self).phase() == Phase::OutputTasksJoined,
        ensures
            final(self).wf(),
            final(self).phase() == Phase::Terminated,
            !final(self).failed(),
            final(self).child_success() == old(self).child_success(),
            code == 0 <==> old(self).child_success() == Some(true),
            code != 0 ==> code == FAILURE_EXIT_CODE,
    {
        let success = match self.child_success {
            Some(b) => b,
            None => false,
        };
        self.phase = Phase::Terminated;
        final_exit_code(success)
    }
}

} // verus!
