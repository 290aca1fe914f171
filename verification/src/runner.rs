//! The step runner: executes one job's ordered, named command steps to
//! completion or first failure.
//!
//! The runner itself never retries — retry policy belongs to the backend
//! store that delivered the job. Command strings are tokenized by
//! shell-word rules; the run then advances one step at a time, strictly in
//! declared order, and aborts the remaining steps as soon as one step fails
//! to spawn or exits nonzero.

use vstd::prelude::*;

verus! {

/// The words a command string splits into under shell-word rules.
pub uninterp spec fn shell_words_of(s: Seq<char>) -> Seq<Seq<char>>;

/// Whether a command string tokenizes at all under shell-word rules — it
/// holds no erroneous construct such as an unclosed quotation. A function
/// of the characters alone.
pub uninterp spec fn shell_splits(s: Seq<char>) -> bool;

/// Relies on `shlex::split`: the splitting is a function of the command
/// string alone; it returns `Some` exactly on the strings it can
/// tokenize, and `None` on erroneous input such as an unclosed quotation.
#[verifier::external_body]
fn shell_split(cmd: &str) -> (r: Option<Vec<String>>)
    ensures
        (r is Some) <==> shell_splits(cmd@),
        r matches Some(ws) ==> ws.deep_view() == shell_words_of(cmd@),
{
    shlex::split(cmd)
}

/// Why a command string was rejected before anything ran.
#[derive(Debug)]
pub enum CommandError {
    /// The command string does not tokenize under shell-word rules.
    Tokenize { command: String },
    /// The command string holds no words.
    Empty { command: String },
}

/// Tokenize one command string into its argument vector. Succeeds exactly
/// on the strings that tokenize into at least one word.
pub fn tokenize_command(cmd: &String) -> (r: Result<Vec<String>, CommandError>)
    ensures
        (r is Ok) <==> (shell_splits(cmd@) && shell_words_of(cmd@).len() > 0),
        r matches Ok(argv) ==> argv.deep_view() == shell_words_of(cmd@) && argv@.len() > 0,
        !shell_splits(cmd@) ==> (r matches Err(CommandError::Tokenize { command }) && command@
            == cmd@),
        shell_splits(cmd@) && shell_words_of(cmd@).len() == 0 ==> (r matches Err(
            CommandError::Empty { command },
        ) && command@ == cmd@),
{
    match shell_split(cmd.as_str()) {
        None => Err(CommandError::Tokenize { command: cmd.clone() }),
        Some(argv) => {
            if argv.len() == 0 {
                proof {
                    assert(argv.deep_view().len() == argv@.len());
                }
                Err(CommandError::Empty { command: cmd.clone() })
            } else {
                proof {
                    assert(argv.deep_view().len() == argv@.len());
                }
                Ok(argv)
            }
        },
    }
}

/// Split one command string into the program to spawn and its arguments.
/// Succeeds exactly on the strings that tokenize into at least one word;
/// the program is the first word and the arguments are the rest, in order.
pub fn prepare_command(cmd: &String) -> (r: Result<(String, Vec<String>), CommandError>)
    ensures
        (r is Ok) <==> (shell_splits(cmd@) && shell_words_of(cmd@).len() > 0),
        r matches Ok((prog, args)) ==> {
            &&& shell_words_of(cmd@).len() > 0
            &&& prog@ == shell_words_of(cmd@)[0]
            &&& args.deep_view() == shell_words_of(cmd@).drop_first()
        },
        !shell_splits(cmd@) ==> (r matches Err(CommandError::Tokenize { command }) && command@
            == cmd@),
        shell_splits(cmd@) && shell_words_of(cmd@).len() == 0 ==> (r matches Err(
            CommandError::Empty { command },
        ) && command@ == cmd@),
{
    let mut argv = match tokenize_command(cmd) {
        Ok(argv) => argv,
        Err(e) => {
            return Err(e);
        },
    };
    let ghost dv = argv.deep_view();
    let prog = argv.remove(0);
    proof {
        assert(prog@ == dv[0]);
        assert(argv.deep_view() =~= dv.drop_first());
    }
    Ok((prog, argv))
}

/// How one attempted step ended.
#[derive(Clone, Copy, Debug, PartialEq, Eq, Structural)]
pub enum StepEvent {
    /// The step's process exited with this code.
    Exited(i64),
    /// The step's process could not be spawned or its output not read.
    SpawnFailed,
}

/// Why a run stopped early.
#[derive(Clone, Copy, Debug, PartialEq, Eq, Structural)]
pub enum StepFailure {
    NonZeroExit(i64),
    Spawn,
}

/// Where one job's run stands.
#[derive(Clone, Copy, Debug, PartialEq, Eq, Structural)]
pub enum RunStatus {
    /// Earlier steps completed successfully; the next step is offered.
    Running,
    /// Every step completed successfully.
    Succeeded,
    /// Step `at` failed; no later step is ever offered.
    Failed { at: usize, failure: StepFailure },
}

pub open spec fn event_succeeded(ev: StepEvent) -> bool {
    ev == StepEvent::Exited(0)
}

pub open spec fn failure_of(ev: StepEvent) -> StepFailure {
    match ev {
        StepEvent::Exited(code) => StepFailure::NonZeroExit(code),
        StepEvent::SpawnFailed => StepFailure::Spawn,
    }
}

/// Drives one job's ordered steps, host mode. The caller spawns the offered
/// step's process and records how it ended; the runner decides what, if
/// anything, runs next.
pub struct StepRunner {
    /// The ordered `(step name, command string)` sequence.
    pub steps: Vec<(String, String)>,
    /// How many leading steps have completed successfully.
    pub pos: usize,
    pub status: RunStatus,
    /// Every event recorded so far, in order.
    pub history: Ghost<Seq<StepEvent>>,
}

impl StepRunner {
    pub open spec fn wf(self) -> bool {
        &&& self.pos <= self.steps@.len()
        &&& match self.status {
            RunStatus::Running => self.pos < self.steps@.len() && self.history@ == Seq::new(
                self.pos as nat,
                |i: int| StepEvent::Exited(0),
            ),
            RunStatus::Succeeded => self.pos == self.steps@.len() && self.history@ == Seq::new(
                self.pos as nat,
                |i: int| StepEvent::Exited(0),
            ),
            RunStatus::Failed { at, failure } => {
                &&& at == self.pos
                &&& self.pos < self.steps@.len()
                &&& self.history@.len() == self.pos + 1
                &&& self.history@ == Seq::new(
                    self.pos as nat,
                    |i: int| StepEvent::Exited(0),
                ).push(self.history@.last())
                &&& failure == failure_of(self.history@.last())
                &&& !event_succeeded(self.history@.last())
            },
        }
    }

    /// Begin a run over the given steps. A run with no steps has already
    /// succeeded.
    pub fn new(steps: Vec<(String, String)>) -> (r: Self)
        ensures
            r.wf(),
            r.steps == steps,
            r.pos == 0,
            r.status == if steps@.len() == 0 {
                RunStatus::Succeeded
            } else {
                RunStatus::Running
            },
            r.history@.len() == 0,
    {
        let status = if steps.len() == 0 {
            RunStatus::Succeeded
        } else {
            RunStatus::Running
        };
        let r = StepRunner { steps, pos: 0, status, history: Ghost(Seq::empty()) };
        proof {
            assert(r.history@ =~= Seq::new(0nat, |i: int| StepEvent::Exited(0)));
        }
        r
    }

    /// The index of the step the run offers, if any.
    pub open spec fn offered_step(self) -> Option<int> {
        if self.status is Running {
            Some(self.pos as int)
        } else {
            None
        }
    }

    /// The step the run offers now: the first step not yet completed, and
    /// only while no step has failed.
    pub fn current_step(&self) -> (r: Option<&(String, String)>)
        requires
            self.wf(),
        ensures
            match r {
                Some(s) => self.status is Running && *s == self.steps@[self.pos as int],
                None => !(self.status is Running),
            },
    {
        match self.status {
            RunStatus::Running => Some(&self.steps[self.pos]),
            _ => None,
        }
    }

    /// Record how the offered step ended. On success the run advances to
    /// the next step (or succeeds after the last); on failure the run stops
    /// for good.
    pub fn record(&mut self, ev: StepEvent)
        requires
            old(self).wf(),
            old(self).status is Running,
        ensures
            final(self).wf(),
            final(self).steps == old(self).steps,
            final(self).history@ == old(self).history@.push(ev),
            if event_succeeded(ev) {
                &&& final(self).pos == old(self).pos + 1
                &&& final(self).status == if final(self).pos == final(self).steps@.len() {
                    RunStatus::Succeeded
                } else {
                    RunStatus::Running
                }
            } else {
                &&& final(self).pos == old(self).pos
                &&& final(self).status == (RunStatus::Failed {
                    at: old(self).pos,
                    failure: failure_of(ev),
                })
            },
    {
        let ghost h0 = self.history@;
        proof {
            self.history@ = h0.push(ev);
        }
        let success = match ev {
            StepEvent::Exited(code) => code == 0,
            StepEvent::SpawnFailed => false,
        };
        if success {
            let n = self.steps.len();
            self.pos = self.pos + 1;
            if self.pos == n {
                self.status = RunStatus::Succeeded;
            } else {
                self.status = RunStatus::Running;
            }
            proof {
                assert(self.history@ =~= Seq::new(
                    self.pos as nat,
                    |i: int| StepEvent::Exited(0),
                ));
            }
        } else {
            let failure = match ev {
                StepEvent::Exited(code) => StepFailure::NonZeroExit(code),
                StepEvent::SpawnFailed => StepFailure::Spawn,
            };
            self.status = RunStatus::Failed { at: self.pos, failure };
            proof {
                assert(self.history@ =~= Seq::new(
                    self.pos as nat,
                    |i: int| StepEvent::Exited(0),
                ).push(ev));
            }
        }
    }
}

/// Run a whole step sequence against a recorded feed of step outcomes:
/// each offered step consumes the feed's next event, until the run settles
/// or the feed runs dry. For every steps list and every feed, the recorded
/// history is exactly the consumed prefix of the feed, one event per
/// executed step in declared order; with the run's well-formedness this
/// pins the outcome — a full feed of zero exits succeeds, and the feed's
/// first failure stops the run with no later step executed.
pub fn run_sequence(steps: Vec<(String, String)>, outcomes: &Vec<StepEvent>) -> (r: StepRunner)
    ensures
        r.wf(),
        r.steps == steps,
        r.history@ == outcomes@.subrange(0, r.history@.len() as int),
        r.status is Running ==> r.history@.len() == outcomes@.len(),
{
    let ghost steps0 = steps;
    let mut run = StepRunner::new(steps);
    let n = outcomes.len();
    let mut i: usize = 0;
    let mut halted = false;
    proof {
        assert(run.history@ =~= outcomes@.subrange(0, 0));
    }
    while i < n && !halted
        invariant
            run.wf(),
            run.steps == steps0,
            i <= n,
            n == outcomes@.len(),
            i == run.history@.len(),
            run.history@ == outcomes@.subrange(0, i as int),
            halted ==> !(run.status is Running),
        decreases n - i, !halted as int,
    {
        let running = match run.status {
            RunStatus::Running => true,
            _ => false,
        };
        if running {
            run.record(outcomes[i]);
            proof {
                assert(run.history@ =~= outcomes@.subrange(0, i + 1));
            }
            i = i + 1;
        } else {
            halted = true;
        }
    }
    run
}

/// Step sequencing law. Whenever a well-formed run offers a step, every
/// earlier step has already completed — successfully, one recorded zero
/// exit per step, in declared order — so the offered step observes all of
/// their effects. And once any step has failed, no step is offered again:
/// a step after the failed one never executes.
pub proof fn lemma_step_sequencing(r: StepRunner)
    requires
        r.wf(),
    ensures
        r.offered_step() matches Some(i) ==> {
            &&& i == r.history@.len()
            &&& forall|j: int| 0 <= j < i ==> event_succeeded(#[trigger] r.history@[j])
        },
        r.status matches RunStatus::Failed { at, failure } ==> r.offered_step() is None,
{
}

} // verus!
