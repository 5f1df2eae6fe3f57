//! What the shell does with one input line: the line's kind, and the order of
//! builtin runs, spawns and the final wait for its pipeline.

use vstd::prelude::*;
use crate::builtin::{Builtin, ErrCode, builtin_of};
use crate::command::{Cmds, pipeline_of, segments_nonblank, has_blank_segment, tokenize_commands};
use crate::text::{is_blank, all_space, same_text};

verus! {

/// What an input line asks of the read loop.
#[derive(Debug)]
pub enum Line {
    /// Only whitespace: prompt again, run nothing.
    Blank,
    /// The literal `exit`: leave the loop.
    Exit,
    /// A pipeline to run.
    Run(Cmds),
    /// A pipeline with a segment that holds no command.
    BlankSegment,
}

/// Whether `s` is the literal line `exit`, with or without its line break.
pub open spec fn is_exit_line(s: Seq<char>) -> bool {
    s == seq!['e', 'x', 'i', 't', '\n'] || s == seq!['e', 'x', 'i', 't']
}

/// Reads an input line: a blank line, the exit command, or a pipeline.
pub fn classify_line(line: &str) -> (r: Line)
    ensures
        match r {
            Line::Blank => is_blank(line@),
            Line::Exit => !is_blank(line@) && is_exit_line(line@),
            Line::Run(c) => !is_blank(line@) && !is_exit_line(line@) && segments_nonblank(line@)
                && c@ == pipeline_of(line@),
            Line::BlankSegment => !is_blank(line@) && !is_exit_line(line@) && !segments_nonblank(
                line@,
            ),
        },
{
    proof {
        reveal_strlit("exit\n");
        reveal_strlit("exit");
        assert("exit\n"@ =~= seq!['e', 'x', 'i', 't', '\n']);
        assert("exit"@ =~= seq!['e', 'x', 'i', 't']);
    }
    if all_space(line) {
        Line::Blank
    } else if same_text(line, "exit\n") || same_text(line, "exit") {
        Line::Exit
    } else if has_blank_segment(line) {
        Line::BlankSegment
    } else {
        Line::Run(tokenize_commands(line))
    }
}

/// Where a spawned process reads its standard input from.
#[derive(Debug, Clone, Copy, PartialEq, Eq, Structural)]
pub enum StdinSource {
    /// The shell's own standard input.
    Inherit,
    /// The captured standard output of the process spawned just before.
    PreviousOutput,
}

/// Where a spawned process writes its standard output to.
#[derive(Debug, Clone, Copy, PartialEq, Eq, Structural)]
pub enum StdoutTarget {
    /// The shell's own standard output.
    Inherit,
    /// A new pipe, to be handed to the next process.
    Piped,
}

/// The next thing to do for a pipeline.
#[derive(Debug, Clone, Copy, PartialEq, Eq, Structural)]
pub enum Step {
    /// Run builtin `kind` on the arguments of segment `index`, in the shell.
    RunBuiltin { index: usize, kind: Builtin },
    /// Spawn segment `index` as a process with this wiring.
    Spawn { index: usize, stdin: StdinSource, stdout: StdoutTarget },
    /// Wait for the live process to exit.
    WaitLast,
    /// Nothing is left to do.
    Done,
}

/// What came of the last step.
#[derive(Debug, Clone, Copy, PartialEq, Eq, Structural)]
pub enum Event {
    /// The builtin ran and ended with this code.
    BuiltinFinished(ErrCode),
    /// The process was spawned; it is now the live process.
    Spawned,
    /// The process could not be spawned.
    SpawnFailed,
    /// The live process exited.
    Waited,
}

/// The decisions of one pipeline run: the builtin (if any) of each segment,
/// how many segments were handled, whether a spawned process is live, and the
/// code each handled segment ended with.
pub struct Executor {
    kinds: Vec<Option<Builtin>>,
    next: usize,
    live: bool,
    statuses: Vec<ErrCode>,
}

/// An executor's state as plain values.
pub struct ExecutorView {
    pub kinds: Seq<Option<Builtin>>,
    pub next: nat,
    pub live: bool,
    pub statuses: Seq<ErrCode>,
}

impl View for Executor {
    type V = ExecutorView;

    closed spec fn view(&self) -> ExecutorView {
        ExecutorView {
            kinds: self.kinds@,
            next: self.next as nat,
            live: self.live,
            statuses: self.statuses@,
        }
    }
}

/// Whether `e` is a state that a run can reach: no more segments handled than
/// there are, and one code per handled segment.
pub open spec fn executor_wf(e: ExecutorView) -> bool {
    e.next <= e.kinds.len() && e.statuses.len() == e.next
}

/// The state before anything of the pipeline has run.
pub open spec fn start_of(kinds: Seq<Option<Builtin>>) -> ExecutorView {
    ExecutorView { kinds, next: 0, live: false, statuses: Seq::empty() }
}

/// The next step in state `e`. Segments are handled left to right; a builtin
/// runs in the shell; an external segment reads from the live process if
/// there is one and writes to a pipe unless it is the last segment. Once every
/// segment is handled, the live process, if any, is waited for.
pub open spec fn step_of(e: ExecutorView) -> Step {
    if e.next < e.kinds.len() {
        match e.kinds[e.next as int] {
            Some(b) => Step::RunBuiltin { index: e.next as usize, kind: b },
            None => Step::Spawn {
                index: e.next as usize,
                stdin: if e.live {
                    StdinSource::PreviousOutput
                } else {
                    StdinSource::Inherit
                },
                stdout: if e.next + 1 == e.kinds.len() {
                    StdoutTarget::Inherit
                } else {
                    StdoutTarget::Piped
                },
            },
        }
    } else if e.live {
        Step::WaitLast
    } else {
        Step::Done
    }
}

/// Whether `ev` can be what came of step `s`.
pub open spec fn event_fits(s: Step, ev: Event) -> bool {
    match s {
        Step::RunBuiltin { .. } => ev is BuiltinFinished,
        Step::Spawn { .. } => ev is Spawned || ev is SpawnFailed,
        Step::WaitLast => ev is Waited,
        Step::Done => false,
    }
}

/// The state after event `ev` in state `e`. A builtin leaves no live process
/// behind; a spawn that worked makes the new process the live one and one
/// that failed leaves none, and ends the segment with `Error`; the wait
/// leaves none.
pub open spec fn after_event(e: ExecutorView, ev: Event) -> ExecutorView {
    match ev {
        Event::BuiltinFinished(code) => ExecutorView {
            next: e.next + 1,
            live: false,
            statuses: e.statuses.push(code),
            ..e
        },
        Event::Spawned => ExecutorView {
            next: e.next + 1,
            live: true,
            statuses: e.statuses.push(ErrCode::Success),
            ..e
        },
        Event::SpawnFailed => ExecutorView {
            next: e.next + 1,
            live: false,
            statuses: e.statuses.push(ErrCode::Error),
            ..e
        },
        Event::Waited => ExecutorView { live: false, ..e },
    }
}

/// A pipeline `producer | consumer` of two external commands: the producer is
/// spawned first, reading the shell's input and writing into a pipe; the
/// consumer is spawned next, reading that pipe and writing to the shell's
/// output; then the consumer is waited for before the run is done.
pub proof fn law_two_stage_pipeline(kinds: Seq<Option<Builtin>>)
    requires
        kinds.len() == 2,
        kinds[0] is None,
        kinds[1] is None,
    ensures
        ({
            let e0 = start_of(kinds);
            let e1 = after_event(e0, Event::Spawned);
            let e2 = after_event(e1, Event::Spawned);
            let e3 = after_event(e2, Event::Waited);
            &&& step_of(e0) == Step::Spawn {
                index: 0,
                stdin: StdinSource::Inherit,
                stdout: StdoutTarget::Piped,
            }
            &&& step_of(e1) == Step::Spawn {
                index: 1,
                stdin: StdinSource::PreviousOutput,
                stdout: StdoutTarget::Inherit,
            }
            &&& step_of(e2) == Step::WaitLast
            &&& step_of(e3) == Step::Done
        }),
{
}

/// How much of a run is left: two for each unhandled segment, one for a live
/// process not yet waited for.
pub open spec fn work_left(e: ExecutorView) -> nat {
    2 * (e.kinds.len() - e.next) as nat + if e.live {
        1nat
    } else {
        0nat
    }
}

/// Whatever comes of a step, the run keeps a well-formed state with less work
/// left; so every run reaches `Done`.
pub proof fn law_run_progress(e: ExecutorView, ev: Event)
    requires
        executor_wf(e),
        event_fits(step_of(e), ev),
    ensures
        executor_wf(after_event(e, ev)),
        work_left(after_event(e, ev)) < work_left(e),
{
}

/// A run is `Done` exactly when every segment has been handled and no
/// process is left to wait for.
pub proof fn law_done_when_finished(e: ExecutorView)
    requires
        executor_wf(e),
    ensures
        step_of(e) is Done <==> (!e.live && e.next == e.kinds.len()),
{
}

impl Executor {
    pub closed spec fn wf(&self) -> bool {
        executor_wf(self@)
    }

    /// A run of `p`, with each segment's keyword looked up among the builtins.
    pub fn new(p: &Cmds) -> (r: Executor)
        ensures
            r.wf(),
            r@ == start_of(p@.splits.map_values(|c: crate::command::CmdView| builtin_of(c.keyword))),
    {
        let mut kinds: Vec<Option<Builtin>> = Vec::new();
        let mut i: usize = 0;
        let ghost want = p@.splits.map_values(|c: crate::command::CmdView| builtin_of(c.keyword));
        while i < p.splits.len()
            invariant
                i <= p.splits.len(),
                want == p@.splits.map_values(|c: crate::command::CmdView| builtin_of(c.keyword)),
                kinds@ == want.take(i as int),
            decreases p.splits.len() - i,
        {
            let k = Builtin::from_keyword(p.splits[i].keyword.as_str());
            kinds.push(k);
            assert(kinds@ =~= want.take(i + 1));
            i = i + 1;
        }
        assert(kinds@ =~= want);
        let r = Executor { kinds, next: 0, live: false, statuses: Vec::new() };
        assert(r@.statuses =~= Seq::<ErrCode>::empty());
        r
    }

    /// The next step of the run.
    pub fn next_step(&self) -> (r: Step)
        requires
            self.wf(),
        ensures
            r == step_of(self@),
    {
        if self.next < self.kinds.len() {
            match self.kinds[self.next] {
                Some(b) => Step::RunBuiltin { index: self.next, kind: b },
                None => Step::Spawn {
                    index: self.next,
                    stdin: if self.live {
                        StdinSource::PreviousOutput
                    } else {
                        StdinSource::Inherit
                    },
                    stdout: if self.next + 1 == self.kinds.len() {
                        StdoutTarget::Inherit
                    } else {
                        StdoutTarget::Piped
                    },
                },
            }
        } else if self.live {
            Step::WaitLast
        } else {
            Step::Done
        }
    }

    /// Records what came of the step that `next_step` gave.
    pub fn on_event(&mut self, ev: Event)
        requires
            old(self).wf(),
            event_fits(step_of(old(self)@), ev),
        ensures
            final(self).wf(),
            final(self)@ == after_event(old(self)@, ev),
    {
        match ev {
            Event::BuiltinFinished(code) => {
                assert(self.next < self.kinds.len());
                self.next = self.next + 1;
                self.live = false;
                self.statuses.push(code);
            },
            Event::Spawned => {
                assert(self.next < self.kinds.len());
                self.next = self.next + 1;
                self.live = true;
                self.statuses.push(ErrCode::Success);
            },
            Event::SpawnFailed => {
                assert(self.next < self.kinds.len());
                self.next = self.next + 1;
                self.live = false;
                self.statuses.push(ErrCode::Error);
            },
            Event::Waited => {
                self.live = false;
            },
        }
    }

    /// The code each handled segment ended with, in order.
    pub fn statuses(&self) -> (r: &Vec<ErrCode>)
        ensures
            r@ == self@.statuses,
    {
        &self.statuses
    }
}

} // verus!
