//! The container executor: runs one job's step sequence inside one
//! ephemeral container with guaranteed teardown.
//!
//! The run is a state machine: pull the image, create and start one
//! container, exec each step in order inside it, and remove the container
//! on every exit path — after the last step, after the first failing step,
//! or after a start failure. The caller performs each offered action
//! against the container runtime and reports how it ended; the machine
//! decides what happens next and accounts for the container's existence.

use vstd::prelude::*;

verus! {

/// What the caller is asked to do against the container runtime.
#[derive(Debug)]
pub enum ContainerAction<'a> {
    /// Pull this image (idempotent if already present).
    PullImage(&'a String),
    /// Create one container from this image, interactive/tty mode.
    CreateContainer(&'a String),
    /// Start the created container.
    StartContainer,
    /// Exec this argument vector inside the running container, drain its
    /// combined output, then query its exit code.
    ExecStep(&'a Vec<String>),
    /// Force-remove the container.
    RemoveContainer,
}

/// How the last offered action ended.
#[derive(Clone, Copy, Debug, PartialEq, Eq, Structural)]
pub enum ContainerEvent {
    /// The action completed.
    Completed,
    /// The action itself failed (pull, create, start, exec setup, remove).
    Errored,
    /// The exec'd step finished with this exit code.
    Exited(i64),
}

/// How a finished run ended.
#[derive(Clone, Copy, Debug, PartialEq, Eq, Structural)]
pub enum RunOutcome {
    /// Every step exited zero.
    Success,
    /// The image could not be pulled; no container was ever created.
    PullFailed,
    /// The container could not be created; none exists.
    CreateFailed,
    /// The container could not be started.
    StartFailed,
    /// Step `step` exited with nonzero `code`.
    StepFailed { step: usize, code: i64 },
    /// Step `step` could not be exec'd or its output not drained.
    ExecFailed { step: usize },
}

/// Where the run stands.
#[derive(Clone, Copy, Debug, PartialEq, Eq, Structural)]
pub enum Phase {
    Pulling,
    Creating,
    Starting,
    Execing { step: usize },
    /// Teardown: the container is being force-removed; the run will finish
    /// with the carried outcome.
    Removing { outcome: RunOutcome },
    Done { outcome: RunOutcome },
}

/// The kinds of action a run performs, for the run's ghost accounting.
pub enum ActionKind {
    Pull,
    Create,
    Start,
    Exec { step: usize },
    Remove,
}

/// The action one phase performs.
pub open spec fn action_of(p: Phase) -> ActionKind {
    match p {
        Phase::Pulling => ActionKind::Pull,
        Phase::Creating => ActionKind::Create,
        Phase::Starting => ActionKind::Start,
        Phase::Execing { step } => ActionKind::Exec { step },
        Phase::Removing { outcome } => ActionKind::Remove,
        Phase::Done { outcome } => ActionKind::Remove,
    }
}

/// How many removals a performed-action history holds.
pub open spec fn removals_in(h: Seq<ActionKind>) -> nat {
    h.filter(|a: ActionKind| a is Remove).len()
}

/// The step an exec action ran (zero for any other action).
pub open spec fn step_of(a: ActionKind) -> usize {
    match a {
        ActionKind::Exec { step } => step,
        _ => 0,
    }
}

/// The step indices of the exec actions a history holds, in order.
pub open spec fn exec_steps_in(h: Seq<ActionKind>) -> Seq<usize> {
    h.filter(|a: ActionKind| a is Exec).map_values(|a: ActionKind| step_of(a))
}

/// How many steps a run that settled with this outcome had exec'd.
pub open spec fn execs_of_outcome(o: RunOutcome, nsteps: int) -> int {
    match o {
        RunOutcome::Success => nsteps,
        RunOutcome::PullFailed => 0,
        RunOutcome::CreateFailed => 0,
        RunOutcome::StartFailed => 0,
        RunOutcome::StepFailed { step, code } => step + 1,
        RunOutcome::ExecFailed { step } => step + 1,
    }
}

/// One container-mode execution of a job's step sequence.
pub struct ContainerRun {
    /// The image the container is created from.
    pub image: String,
    /// The tokenized argument vector of each step, in declared order.
    pub argvs: Vec<Vec<String>>,
    pub phase: Phase,
    /// A container for this run exists (was created and not yet removed).
    pub created: bool,
    /// This run's container removal has been performed.
    pub removed: bool,
    /// Every action performed so far, in order.
    pub history: Ghost<Seq<ActionKind>>,
}

impl ContainerRun {
    /// How many step execs this run has performed so far.
    pub open spec fn execs_done(self) -> int {
        match self.phase {
            Phase::Pulling => 0,
            Phase::Creating => 0,
            Phase::Starting => 0,
            Phase::Execing { step } => step as int,
            Phase::Removing { outcome } => execs_of_outcome(outcome, self.argvs@.len() as int),
            Phase::Done { outcome } => execs_of_outcome(outcome, self.argvs@.len() as int),
        }
    }

    pub open spec fn wf(self) -> bool {
        &&& (self.removed ==> self.created)
        &&& match self.phase {
            Phase::Pulling => !self.created && !self.removed,
            Phase::Creating => !self.created && !self.removed,
            Phase::Starting => self.created && !self.removed,
            Phase::Execing { step } => self.created && !self.removed && step
                < self.argvs@.len(),
            Phase::Removing { outcome } => self.created && !self.removed && !(outcome
                is PullFailed) && !(outcome is CreateFailed),
            Phase::Done { outcome } => (self.created ==> self.removed) && ((outcome
                is PullFailed || outcome is CreateFailed) ==> !self.created),
        }
        &&& removals_in(self.history@) == if self.removed {
            1nat
        } else {
            0nat
        }
        &&& exec_steps_in(self.history@) == Seq::new(
            self.execs_done() as nat,
            |i: int| i as usize,
        )
    }

    /// Begin a container run of the given image over pre-tokenized steps.
    pub fn new(image: String, argvs: Vec<Vec<String>>) -> (r: Self)
        ensures
            r.wf(),
            r.image == image,
            r.argvs == argvs,
            r.phase == Phase::Pulling,
            !r.created && !r.removed,
            r.history@.len() == 0,
    {
        let r = ContainerRun {
            image,
            argvs,
            phase: Phase::Pulling,
            created: false,
            removed: false,
            history: Ghost(Seq::empty()),
        };
        proof {
            reveal_filter_empty::<ActionKind>();
            assert(exec_steps_in(r.history@) =~= Seq::new(0nat, |i: int| i as usize));
        }
        r
    }

    /// The action the run asks for now; `None` once the run is done.
    pub fn current_action(&self) -> (r: Option<ContainerAction<'_>>)
        requires
            self.wf(),
        ensures
            match self.phase {
                Phase::Pulling => r matches Some(a) && (a matches ContainerAction::PullImage(im)
                    && *im == self.image),
                Phase::Creating => r matches Some(a) && (a matches
                    ContainerAction::CreateContainer(im) && *im == self.image),
                Phase::Starting => r == Some(ContainerAction::StartContainer),
                Phase::Execing { step } => r matches Some(a) && (a matches
                    ContainerAction::ExecStep(v) && *v == self.argvs@[step as int]),
                Phase::Removing { outcome } => r == Some(ContainerAction::RemoveContainer),
                Phase::Done { outcome } => r is None,
            },
    {
        match self.phase {
            Phase::Pulling => Some(ContainerAction::PullImage(&self.image)),
            Phase::Creating => Some(ContainerAction::CreateContainer(&self.image)),
            Phase::Starting => Some(ContainerAction::StartContainer),
            Phase::Execing { step } => Some(ContainerAction::ExecStep(&self.argvs[step])),
            Phase::Removing { outcome: _ } => Some(ContainerAction::RemoveContainer),
            Phase::Done { outcome: _ } => None,
        }
    }

    /// The spec-level transition `observe` takes: from the old run and the
    /// event, the new phase and whether the container now exists.
    pub open spec fn next_phase(self, ev: ContainerEvent) -> Phase {
        match self.phase {
            Phase::Pulling => if ev is Completed {
                Phase::Creating
            } else {
                Phase::Done { outcome: RunOutcome::PullFailed }
            },
            Phase::Creating => if ev is Completed {
                Phase::Starting
            } else {
                Phase::Done { outcome: RunOutcome::CreateFailed }
            },
            Phase::Starting => if ev is Completed {
                if self.argvs@.len() == 0 {
                    Phase::Removing { outcome: RunOutcome::Success }
                } else {
                    Phase::Execing { step: 0 }
                }
            } else {
                Phase::Removing { outcome: RunOutcome::StartFailed }
            },
            Phase::Execing { step } => match ev {
                ContainerEvent::Exited(code) => if code == 0 {
                    if step + 1 == self.argvs@.len() {
                        Phase::Removing { outcome: RunOutcome::Success }
                    } else {
                        Phase::Execing { step: (step + 1) as usize }
                    }
                } else {
                    Phase::Removing { outcome: RunOutcome::StepFailed { step, code } }
                },
                _ => Phase::Removing { outcome: RunOutcome::ExecFailed { step } },
            },
            Phase::Removing { outcome } => Phase::Done { outcome },
            Phase::Done { outcome } => Phase::Done { outcome },
        }
    }

    /// Which events the current phase's action can report: only an exec
    /// reports an exit code, and every other action either completes or
    /// errors.
    pub open spec fn event_fits(self, ev: ContainerEvent) -> bool {
        match self.phase {
            Phase::Execing { step } => ev is Exited || ev is Errored,
            _ => ev is Completed || ev is Errored,
        }
    }

    /// Record how the offered action ended, and move the run on. Teardown
    /// is unconditional: every path out of a created container passes
    /// through the removal action exactly once, whether the steps
    /// succeeded, one failed, or the start itself failed.
    pub fn observe(&mut self, ev: ContainerEvent)
        requires
            old(self).wf(),
            !(old(self).phase is Done),
            old(self).event_fits(ev),
        ensures
            final(self).wf(),
            final(self).image == old(self).image,
            final(self).argvs == old(self).argvs,
            final(self).phase == old(self).next_phase(ev),
            final(self).created == (old(self).created || (old(self).phase is Creating && ev
                is Completed)),
            final(self).removed == (old(self).removed || old(self).phase is Removing),
            final(self).history@ == old(self).history@.push(action_of(old(self).phase)),
    {
        let ghost h0 = self.history@;
        match self.phase {
            Phase::Pulling => {
                proof {
                    self.history@ = h0.push(ActionKind::Pull);
                    lemma_filter_push(h0, ActionKind::Pull);
                    lemma_exec_steps_push(h0, ActionKind::Pull);
                }
                if let ContainerEvent::Completed = ev {
                    self.phase = Phase::Creating;
                } else {
                    self.phase = Phase::Done { outcome: RunOutcome::PullFailed };
                }
            },
            Phase::Creating => {
                proof {
                    self.history@ = h0.push(ActionKind::Create);
                    lemma_filter_push(h0, ActionKind::Create);
                    lemma_exec_steps_push(h0, ActionKind::Create);
                }
                if let ContainerEvent::Completed = ev {
                    self.created = true;
                    self.phase = Phase::Starting;
                } else {
                    self.phase = Phase::Done { outcome: RunOutcome::CreateFailed };
                }
            },
            Phase::Starting => {
                proof {
                    self.history@ = h0.push(ActionKind::Start);
                    lemma_filter_push(h0, ActionKind::Start);
                    lemma_exec_steps_push(h0, ActionKind::Start);
                }
                if let ContainerEvent::Completed = ev {
                    if self.argvs.len() == 0 {
                        self.phase = Phase::Removing { outcome: RunOutcome::Success };
                    } else {
                        self.phase = Phase::Execing { step: 0 };
                    }
                } else {
                    self.phase = Phase::Removing { outcome: RunOutcome::StartFailed };
                }
            },
            Phase::Execing { step } => {
                proof {
                    self.history@ = h0.push(ActionKind::Exec { step });
                    lemma_filter_push(h0, ActionKind::Exec { step });
                    lemma_exec_steps_push(h0, ActionKind::Exec { step });
                    assert(Seq::new((step + 1) as nat, |i: int| i as usize) =~= Seq::new(
                        step as nat,
                        |i: int| i as usize,
                    ).push(step));
                }
                match ev {
                    ContainerEvent::Exited(code) => {
                        if code == 0 {
                            let n = self.argvs.len();
                            if step + 1 == n {
                                self.phase = Phase::Removing { outcome: RunOutcome::Success };
                            } else {
                                self.phase = Phase::Execing { step: step + 1 };
                            }
                        } else {
                            self.phase = Phase::Removing {
                                outcome: RunOutcome::StepFailed { step, code },
                            };
                        }
                    },
                    _ => {
                        self.phase = Phase::Removing { outcome: RunOutcome::ExecFailed { step } };
                    },
                }
            },
            Phase::Removing { outcome } => {
                proof {
                    self.history@ = h0.push(ActionKind::Remove);
                    lemma_filter_push(h0, ActionKind::Remove);
                    lemma_exec_steps_push(h0, ActionKind::Remove);
                }
                self.removed = true;
                self.phase = Phase::Done { outcome };
            },
            Phase::Done { outcome: _ } => {
                proof {
                    assert(false);
                }
            },
        }
    }

    /// Whether the run can take this event now: the executable form of
    /// [`Self::event_fits`].
    pub fn accepts(&self, ev: &ContainerEvent) -> (r: bool)
        ensures
            r == self.event_fits(*ev),
    {
        match self.phase {
            Phase::Execing { step: _ } => match ev {
                ContainerEvent::Exited(_) => true,
                ContainerEvent::Errored => true,
                _ => false,
            },
            _ => match ev {
                ContainerEvent::Completed => true,
                ContainerEvent::Errored => true,
                _ => false,
            },
        }
    }

    /// How the run ended, once it is done.
    pub fn outcome(&self) -> (r: Option<RunOutcome>)
        ensures
            match self.phase {
                Phase::Done { outcome } => r == Some(outcome),
                _ => r is None,
            },
    {
        match self.phase {
            Phase::Done { outcome } => Some(outcome),
            _ => None,
        }
    }
}

proof fn reveal_filter_empty<A>()
    ensures
        forall|p: spec_fn(A) -> bool| (#[trigger] Seq::<A>::empty().filter(p)) =~= Seq::<
            A,
        >::empty(),
{
    assert forall|p: spec_fn(A) -> bool| (#[trigger] Seq::<A>::empty().filter(p)) =~= Seq::<
        A,
    >::empty() by {
        reveal(Seq::filter);
    }
}

proof fn lemma_exec_steps_push(h: Seq<ActionKind>, a: ActionKind)
    ensures
        exec_steps_in(h.push(a)) =~= (if a is Exec {
            exec_steps_in(h).push(step_of(a))
        } else {
            exec_steps_in(h)
        }),
{
    reveal(Seq::filter);
    assert(h.push(a).drop_last() =~= h);
}

proof fn lemma_filter_push(h: Seq<ActionKind>, a: ActionKind)
    ensures
        forall|p: spec_fn(ActionKind) -> bool| #[trigger]
            h.push(a).filter(p) == if p(a) {
                h.filter(p).push(a)
            } else {
                h.filter(p)
            },
{
    assert forall|p: spec_fn(ActionKind) -> bool| #[trigger]
        h.push(a).filter(p) == if p(a) {
            h.filter(p).push(a)
        } else {
            h.filter(p)
        } by {
        reveal(Seq::filter);
        assert(h.push(a).drop_last() =~= h);
    }
}

/// Drive one whole container run against a recorded feed of action
/// outcomes: each offered action consumes the feed's next event, until the
/// run is done, the feed runs dry, or an event of a kind the phase cannot
/// report arrives. For every image, every step list and every feed, the
/// run consumes exactly a prefix of the feed, stops early only when done
/// or desynchronized from the feed — and whenever it finishes, its
/// container was removed exactly once if one was ever created, and never
/// otherwise.
pub fn run_to_completion(
    image: String,
    argvs: Vec<Vec<String>>,
    events: &Vec<ContainerEvent>,
) -> (m: ContainerRun)
    ensures
        m.wf(),
        m.image == image,
        m.argvs == argvs,
        m.history@.len() <= events@.len(),
        m.phase is Done ==> m.removed == m.created && removals_in(m.history@) == (if m.created {
            1nat
        } else {
            0nat
        }),
        !(m.phase is Done) && m.history@.len() < events@.len() ==> !m.event_fits(
            events@[m.history@.len() as int],
        ),
{
    let ghost image0 = image;
    let ghost argvs0 = argvs;
    let mut run = ContainerRun::new(image, argvs);
    let n = events.len();
    let mut i: usize = 0;
    let mut stopped = false;
    while i < n && !stopped
        invariant
            run.wf(),
            run.image == image0,
            run.argvs == argvs0,
            i <= n,
            n == events@.len(),
            i == run.history@.len(),
            stopped ==> run.phase is Done || (i < n && !run.event_fits(events@[i as int])),
        decreases n - i, !stopped as int,
    {
        let done = match run.phase {
            Phase::Done { outcome: _ } => true,
            _ => false,
        };
        if done || !run.accepts(&events[i]) {
            stopped = true;
        } else {
            run.observe(events[i]);
            i = i + 1;
        }
    }
    run
}

/// Container cleanup law. A finished run has performed the removal action
/// exactly once whenever a container was created — whether every step
/// succeeded, some step failed, or the container never started — and never
/// when the image pull or the container creation failed, so that no
/// container of the run remains and none is removed twice, on any exit
/// path.
pub proof fn lemma_container_removed_exactly_once(m: ContainerRun)
    requires
        m.wf(),
        m.phase is Done,
    ensures
        m.removed == m.created,
        m.created ==> removals_in(m.history@) == 1,
        !m.created ==> removals_in(m.history@) == 0,
{
}

/// Container step-sequencing law. The exec actions a well-formed run has
/// performed are exactly steps 0 up to its progress, one each, in declared
/// order — a step's exec session was created only after every earlier
/// step's exited zero — and a run that settled on a failing step never
/// exec'd any step after it.
pub proof fn lemma_container_exec_order(m: ContainerRun)
    requires
        m.wf(),
    ensures
        exec_steps_in(m.history@) == Seq::new(m.execs_done() as nat, |i: int| i as usize),
        m.phase matches Phase::Done { outcome } ==> (outcome matches RunOutcome::StepFailed {
            step,
            code,
        } ==> exec_steps_in(m.history@).len() == step + 1),
{
}

} // verus!
