use vstd::prelude::*;
use crate::command::{BuiltinKind, ResolvedCommand};
use crate::tokenize::ParseError;
use crate::words::{lemma_words_of_push, trim_range, trimmed, words_of};

verus! {

/// The pieces of `s` between `|` characters (one more than there are bars).
pub open spec fn bar_pieces(s: Seq<char>) -> Seq<Seq<char>>
    decreases s.len(),
{
    if s.len() == 0 {
        seq![Seq::empty()]
    } else {
        let p = bar_pieces(s.drop_last());
        if s.last() == '|' {
            p.push(Seq::empty())
        } else {
            p.update(p.len() - 1, p.last().push(s.last()))
        }
    }
}

/// The command texts of a pipeline line: its pieces between bars, trimmed.
pub open spec fn segments_of(s: Seq<char>) -> Seq<Seq<char>> {
    bar_pieces(s).map_values(|p: Seq<char>| trimmed(p))
}

/// At least two segments, none of them empty.
pub open spec fn is_full_pipeline(segs: Seq<Seq<char>>) -> bool {
    segs.len() >= 2 && forall|i: int| 0 <= i < segs.len() ==> (#[trigger] segs[i]).len() > 0
}

/// Splits a line at each `|` into the text of its commands, with the white
/// space around each removed. Fails with `PipelineTooShort` exactly when that
/// gives fewer than two commands or an empty one (a `|` with nothing on one
/// side).
pub fn split(line: &str) -> (r: Result<Vec<String>, ParseError>)
    ensures
        match r {
            Ok(v) => words_of(v@) == segments_of(line@) && is_full_pipeline(segments_of(line@)),
            Err(e) => e == ParseError::PipelineTooShort && !is_full_pipeline(segments_of(line@)),
        },
{
    let n = line.unicode_len();
    let mut out: Vec<String> = Vec::new();
    let ghost mut raw: Seq<Seq<char>> = Seq::empty();
    let mut start: usize = 0;
    let mut i: usize = 0;
    proof {
        assert(line@.subrange(0, 0) =~= Seq::<char>::empty());
        assert(bar_pieces(Seq::<char>::empty()) =~= raw.push(Seq::<char>::empty()));
    }
    while i < n
        invariant
            n == line@.len(),
            start <= i <= n,
            bar_pieces(line@.subrange(0, i as int)) == raw.push(line@.subrange(start as int, i as int)),
            words_of(out@) == raw.map_values(|p: Seq<char>| trimmed(p)),
        decreases n - i,
    {
        let c = line.get_char(i);
        proof {
            assert(line@.subrange(0, i + 1).drop_last() =~= line@.subrange(0, i as int));
        }
        if c == '|' {
            let seg = trim_range(line, start, i);
            proof {
                lemma_words_of_push(out@, seg);
                assert(raw.push(line@.subrange(start as int, i as int)).map_values(
                    |p: Seq<char>| trimmed(p),
                ) =~= raw.map_values(|p: Seq<char>| trimmed(p)).push(seg@));
                raw = raw.push(line@.subrange(start as int, i as int));
                assert(line@.subrange(i + 1, i + 1) =~= Seq::<char>::empty());
            }
            out.push(seg);
            start = i + 1;
        } else {
            proof {
                assert(line@.subrange(start as int, i + 1) =~= line@.subrange(start as int, i as int).push(c));
                assert(raw.push(line@.subrange(start as int, i as int)).update(
                    raw.len() as int,
                    line@.subrange(start as int, i + 1),
                ) =~= raw.push(line@.subrange(start as int, i + 1)));
            }
        }
        i += 1;
    }
    let seg = trim_range(line, start, n);
    proof {
        lemma_words_of_push(out@, seg);
        assert(raw.push(line@.subrange(start as int, n as int)).map_values(|p: Seq<char>| trimmed(p))
            =~= raw.map_values(|p: Seq<char>| trimmed(p)).push(seg@));
        assert(line@.subrange(0, n as int) =~= line@);
    }
    out.push(seg);
    if out.len() < 2 {
        return Err(ParseError::PipelineTooShort);
    }
    let mut k: usize = 0;
    while k < out.len()
        invariant
            words_of(out@) == segments_of(line@),
            k <= out.len(),
            forall|j: int| 0 <= j < k ==> (#[trigger] segments_of(line@)[j]).len() > 0,
        decreases out.len() - k,
    {
        assert(words_of(out@)[k as int] == out@[k as int]@);
        if out[k].as_str().unicode_len() == 0 {
            return Err(ParseError::PipelineTooShort);
        }
        k += 1;
    }
    Ok(out)
}

/// What the next stage of a pipeline reads from.
#[derive(Clone, Debug, PartialEq, Eq)]
pub enum Link {
    /// No stage came before: the terminal.
    Terminal,
    /// The output pipe of the process started for the previous stage.
    Stream,
    /// The text that the previous stage, a built-in, produced.
    Buffered(String),
    /// Nothing: the previous stage's output went to a file or the previous
    /// process was started without an output pipe.
    Empty,
}

/// Where a started process reads from.
#[derive(Clone, Debug, PartialEq, Eq)]
pub enum Input {
    /// The terminal, as the interpreter itself does.
    Terminal,
    /// The output pipe of the process started just before.
    PreviousOutput,
    /// This text, written into a fresh pipe that is then closed.
    Feed(String),
    /// Nothing at all.
    Empty,
}

/// Where a built-in that runs inside a pipeline writes.
#[derive(Clone, Copy, Debug, PartialEq, Eq, Structural)]
pub enum Dest {
    /// Straight to the terminal (the last stage).
    Terminal,
    /// Into a buffer that the next stage reads; hand it to `builtin_done`.
    Capture,
    /// To its stdout redirection target.
    File,
}

/// Where a pipeline stands.
#[derive(Clone, Copy, Debug, PartialEq, Eq, Structural)]
pub enum Phase {
    /// The next stage may be started.
    Ready,
    /// A built-in is running; `capture` when its output is wanted back.
    RunningBuiltin { capture: bool },
    /// A process is being started; `piped` when its output is to be piped.
    Spawning { piped: bool },
    /// No further stage runs; what was started is to be reaped.
    Finished,
}

/// Why a pipeline stopped before its last stage.
#[derive(Clone, Debug, PartialEq, Eq)]
pub enum PipelineError {
    /// `cd`, `history` or `exit`, which cannot run inside a pipeline.
    DisallowedBuiltin(BuiltinKind),
    /// The named command is neither a built-in nor found on the search path.
    NotFound(String),
    /// A stage's text could not be parsed.
    Parse(ParseError),
    /// The process of the given stage could not be started.
    SpawnFailed(usize),
    /// A redirection target of the given stage could not be opened.
    OpenFailed(usize),
}

/// What to do for a stage.
#[derive(Clone, Debug, PartialEq, Eq)]
pub enum StageAction {
    /// Run the built-in in-process, writing to `Dest`; then report with
    /// `builtin_done`.
    RunBuiltin(Dest),
    /// Start the program with this input, its output piped when
    /// `pipe_output`; then report with `spawn_done`.
    Spawn { input: Input, pipe_output: bool },
    /// Start nothing more; reap what was started.
    Abort(PipelineError),
}

/// The state of a pipeline being run, one stage after the other, left to
/// right. Every process started is recorded, so that all of them are waited
/// for, last first.
#[derive(Debug)]
pub struct Pipeline {
    pub n_stages: usize,
    /// The index of the stage that is started next (or is being started).
    pub next: usize,
    /// The indices of the stages whose process was started, in order.
    pub spawned: Vec<usize>,
    pub link: Link,
    pub phase: Phase,
    pub error: Option<PipelineError>,
}

/// The built-ins that only produce text, and so may stand in a pipeline.
pub open spec fn is_text_builtin(k: BuiltinKind) -> bool {
    k == BuiltinKind::Echo || k == BuiltinKind::Type || k == BuiltinKind::Pwd
}

/// The input that a process reads, given what the previous stage left.
pub open spec fn input_of(link: Link) -> Input {
    match link {
        Link::Terminal => Input::Terminal,
        Link::Stream => Input::PreviousOutput,
        Link::Buffered(t) => Input::Feed(t),
        Link::Empty => Input::Empty,
    }
}

/// Strictly increasing and each below `bound`.
pub open spec fn is_spawn_record(s: Seq<usize>, bound: nat) -> bool {
    &&& forall|i: int, j: int| 0 <= i < j < s.len() ==> s[i] < s[j]
    &&& forall|i: int| 0 <= i < s.len() ==> s[i] < bound
}

/// The order of reaping: the reverse of the order of spawning.
pub open spec fn reap_spec(spawned: Seq<usize>) -> Seq<usize> {
    spawned.reverse()
}

impl Pipeline {
    pub open spec fn wf(&self) -> bool {
        &&& self.next <= self.n_stages
        &&& is_spawn_record(self.spawned@, self.next as nat)
        &&& (self.next == 0 <==> self.link is Terminal)
        &&& (self.phase != Phase::Finished ==> self.next < self.n_stages)
        &&& (self.next == self.n_stages ==> self.phase == Phase::Finished)
    }

    pub open spec fn is_last(&self) -> bool {
        self.next + 1 == self.n_stages
    }

    /// What `start_stage` answers for a stage named `name` that resolved to
    /// `command`, with its stdout redirected to a file or not.
    pub open spec fn start_action(
        &self,
        name: String,
        command: ResolvedCommand,
        redirected: bool,
    ) -> StageAction {
        match command {
            ResolvedCommand::NotFound => StageAction::Abort(PipelineError::NotFound(name)),
            ResolvedCommand::Builtin(k) => {
                if is_text_builtin(k) {
                    StageAction::RunBuiltin(
                        if redirected {
                            Dest::File
                        } else if self.is_last() {
                            Dest::Terminal
                        } else {
                            Dest::Capture
                        },
                    )
                } else {
                    StageAction::Abort(PipelineError::DisallowedBuiltin(k))
                }
            },
            ResolvedCommand::External(_) => StageAction::Spawn {
                input: input_of(self.link),
                pipe_output: !self.is_last() && !redirected,
            },
        }
    }

    /// The phase after a stage was given `action`.
    pub open spec fn phase_after(action: StageAction) -> Phase {
        match action {
            StageAction::RunBuiltin(d) => Phase::RunningBuiltin { capture: d == Dest::Capture },
            StageAction::Spawn { pipe_output, .. } => Phase::Spawning { piped: pipe_output },
            StageAction::Abort(_) => Phase::Finished,
        }
    }

    /// A pipeline of `n_stages` stages, none started.
    pub fn new(n_stages: usize) -> (r: Pipeline)
        requires
            n_stages >= 1,
        ensures
            r.wf(),
            r.n_stages == n_stages,
            r.next == 0,
            r.spawned@ == Seq::<usize>::empty(),
            r.link is Terminal,
            r.phase == Phase::Ready,
            r.error is None,
    {
        Pipeline {
            n_stages,
            next: 0,
            spawned: Vec::new(),
            link: Link::Terminal,
            phase: Phase::Ready,
            error: None,
        }
    }

    /// Decides what to do for the next stage. `cd`, `history` and `exit`, and
    /// a name that resolves to nothing, stop the pipeline before anything more
    /// is started. A text built-in writes to its file, to the terminal when it
    /// is last, else into a buffer for the next stage. A program reads what the
    /// previous stage left, and its output is piped unless it is last or
    /// redirected.
    pub fn start_stage(&mut self, name: &String, command: &ResolvedCommand, redirected: bool) -> (r:
        StageAction)
        requires
            old(self).wf(),
            old(self).phase == Phase::Ready,
        ensures
            final(self).wf(),
            r == old(self).start_action(*name, *command, redirected),
            final(self).phase == Self::phase_after(r),
            final(self).error == (match r {
                StageAction::Abort(e) => Some(e),
                _ => old(self).error,
            }),
            final(self).n_stages == old(self).n_stages,
            final(self).next == old(self).next,
            final(self).spawned@ == old(self).spawned@,
            final(self).link == old(self).link,
    {
        let last = self.next + 1 == self.n_stages;
        match command {
            ResolvedCommand::NotFound => {
                self.phase = Phase::Finished;
                self.error = Some(PipelineError::NotFound(name.clone()));
                StageAction::Abort(PipelineError::NotFound(name.clone()))
            },
            ResolvedCommand::Builtin(k) => {
                let k = *k;
                if k == BuiltinKind::Echo || k == BuiltinKind::Type || k == BuiltinKind::Pwd {
                    let d = if redirected {
                        Dest::File
                    } else if last {
                        Dest::Terminal
                    } else {
                        Dest::Capture
                    };
                    self.phase = Phase::RunningBuiltin { capture: d == Dest::Capture };
                    StageAction::RunBuiltin(d)
                } else {
                    self.phase = Phase::Finished;
                    self.error = Some(PipelineError::DisallowedBuiltin(k));
                    StageAction::Abort(PipelineError::DisallowedBuiltin(k))
                }
            },
            ResolvedCommand::External(_) => {
                let input = match &self.link {
                    Link::Terminal => Input::Terminal,
                    Link::Stream => Input::PreviousOutput,
                    Link::Buffered(t) => Input::Feed(t.clone()),
                    Link::Empty => Input::Empty,
                };
                let pipe_output = !last && !redirected;
                self.phase = Phase::Spawning { piped: pipe_output };
                StageAction::Spawn { input, pipe_output }
            },
        }
    }

    /// Records that the running built-in finished with `output`: it is what
    /// the next stage reads when it was captured, else the next stage reads
    /// nothing.
    pub fn builtin_done(&mut self, output: String)
        requires
            old(self).wf(),
            old(self).phase is RunningBuiltin,
        ensures
            final(self).wf(),
            final(self).next == old(self).next + 1,
            final(self).link == (if old(self).phase == (Phase::RunningBuiltin { capture: true }) {
                Link::Buffered(output)
            } else {
                Link::Empty
            }),
            final(self).phase == (if final(self).next == final(self).n_stages {
                Phase::Finished
            } else {
                Phase::Ready
            }),
            final(self).n_stages == old(self).n_stages,
            final(self).spawned@ == old(self).spawned@,
            final(self).error == old(self).error,
    {
        self.link = match self.phase {
            Phase::RunningBuiltin { capture: true } => Link::Buffered(output),
            _ => Link::Empty,
        };
        self.next = self.next + 1;
        self.phase = if self.next == self.n_stages {
            Phase::Finished
        } else {
            Phase::Ready
        };
    }

    /// Records whether the process of the current stage was started. If it
    /// was, it joins the processes to reap and the next stage reads its
    /// output pipe (when there is one). If not, the pipeline stops.
    pub fn spawn_done(&mut self, started: bool)
        requires
            old(self).wf(),
            old(self).phase is Spawning,
        ensures
            final(self).wf(),
            final(self).n_stages == old(self).n_stages,
            started ==> {
                &&& final(self).spawned@ == old(self).spawned@.push(old(self).next)
                &&& final(self).next == old(self).next + 1
                &&& final(self).link == (if old(self).phase == (Phase::Spawning { piped: true }) {
                    Link::Stream
                } else {
                    Link::Empty
                })
                &&& final(self).phase == (if final(self).next == final(self).n_stages {
                    Phase::Finished
                } else {
                    Phase::Ready
                })
                &&& final(self).error == old(self).error
            },
            !started ==> {
                &&& final(self).spawned@ == old(self).spawned@
                &&& final(self).next == old(self).next
                &&& final(self).phase == Phase::Finished
                &&& final(self).error == Some(PipelineError::SpawnFailed(old(self).next))
            },
    {
        if started {
            self.spawned.push(self.next);
            self.link = match self.phase {
                Phase::Spawning { piped: true } => Link::Stream,
                _ => Link::Empty,
            };
            self.next = self.next + 1;
            self.phase = if self.next == self.n_stages {
                Phase::Finished
            } else {
                Phase::Ready
            };
        } else {
            self.phase = Phase::Finished;
            self.error = Some(PipelineError::SpawnFailed(self.next));
        }
    }

    /// Stops the pipeline before the next stage starts, because of `e` (its
    /// text could not be parsed, or its redirection targets not opened).
    pub fn stop(&mut self, e: PipelineError)
        requires
            old(self).wf(),
            old(self).phase == Phase::Ready,
        ensures
            final(self).wf(),
            final(self).phase == Phase::Finished,
            final(self).error == Some(e),
            final(self).n_stages == old(self).n_stages,
            final(self).next == old(self).next,
            final(self).spawned@ == old(self).spawned@,
    {
        self.phase = Phase::Finished;
        self.error = Some(e);
    }

    /// The stages whose processes are to be waited for, in the order to wait
    /// for them: the last started first.
    pub fn reap_order(&self) -> (r: Vec<usize>)
        ensures
            r@ == reap_spec(self.spawned@),
    {
        let mut out: Vec<usize> = Vec::new();
        let mut i = self.spawned.len();
        while i > 0
            invariant
                i <= self.spawned.len(),
                out@ == self.spawned@.subrange(i as int, self.spawned@.len() as int).reverse(),
            decreases i,
        {
            proof {
                assert(self.spawned@.subrange(i - 1, self.spawned@.len() as int).reverse() =~= out@.push(
                    self.spawned@[i - 1],
                ));
            }
            out.push(self.spawned[i - 1]);
            i -= 1;
        }
        proof {
            assert(self.spawned@.subrange(0, self.spawned@.len() as int) =~= self.spawned@);
        }
        out
    }
}

/// Every process that a pipeline started is waited for exactly once, and in
/// the reverse of the order in which they were started, so that no process is
/// left unreaped and each consumer is reaped before its producer.
pub proof fn lemma_every_spawn_reaped_once(p: Pipeline)
    requires
        p.wf(),
    ensures
        forall|s: usize| p.spawned@.contains(s) <==> reap_spec(p.spawned@).contains(s),
        reap_spec(p.spawned@).no_duplicates(),
        reap_spec(p.spawned@).len() == p.spawned@.len(),
        forall|i: int, j: int|
            0 <= i < j < reap_spec(p.spawned@).len() ==> reap_spec(p.spawned@)[i] > reap_spec(
                p.spawned@,
            )[j],
{
    let s = p.spawned@;
    let r = reap_spec(s);
    assert forall|x: usize| s.contains(x) <==> r.contains(x) by {
        if s.contains(x) {
            let i = choose|i: int| 0 <= i < s.len() && s[i] == x;
            assert(r[s.len() - 1 - i] == x);
        }
        if r.contains(x) {
            let i = choose|i: int| 0 <= i < r.len() && r[i] == x;
            assert(s[s.len() - 1 - i] == x);
        }
    }
    assert forall|i: int, j: int| 0 <= i < j < r.len() implies r[i] > r[j] by {
        assert(s[s.len() - 1 - j] < s[s.len() - 1 - i]);
    }
}

/// A stage that is `cd`, `history` or `exit` stops the pipeline: nothing is
/// started for it, the pipeline accepts no later stage, and the processes of
/// earlier stages (all of them, and only them) are still reaped, last first.
pub proof fn lemma_disallowed_builtin_stops(
    p: Pipeline,
    name: String,
    k: BuiltinKind,
    redirected: bool,
)
    requires
        p.wf(),
        p.phase == Phase::Ready,
        !is_text_builtin(k),
    ensures
        p.start_action(name, ResolvedCommand::Builtin(k), redirected) == StageAction::Abort(
            PipelineError::DisallowedBuiltin(k),
        ),
        Pipeline::phase_after(p.start_action(name, ResolvedCommand::Builtin(k), redirected))
            == Phase::Finished,
        forall|i: int| 0 <= i < p.spawned@.len() ==> p.spawned@[i] < p.next,
        reap_spec(p.spawned@).len() == p.spawned@.len(),
        forall|i: int|
            0 <= i < p.spawned@.len() ==> reap_spec(p.spawned@)[i] == p.spawned@[p.spawned@.len()
                - 1 - i],
{
}

} // verus!
