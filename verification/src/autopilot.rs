use vstd::prelude::*;

verus! {

/// Where a scripted run stands: how many steps the script has, which step is current, whether
/// its actions have run, and whether the run is over.
#[derive(Debug, Clone, Copy, PartialEq, Eq, Structural)]
pub struct AutopilotState {
    pub step_count: usize,
    pub index: usize,
    pub acted: bool,
    pub done: bool,
}

/// What the driver does at the start of an update.
#[derive(Debug, Clone, Copy, PartialEq, Eq, Structural)]
pub enum Begin {
    /// The run is over: nothing to do.
    Idle,
    /// The run outlived its deadline during this step: fail the run.
    RunDeadlineExceeded { step: usize },
    /// Run the actions of this step and restart the step clock.
    Act { step: usize },
    /// Advance the step clock and observe the step's wait and expectation.
    Observe { step: usize },
}

/// What the driver observed of the current step's wait, when the step has one.
#[derive(Debug, Clone, Copy, PartialEq, Eq, Structural)]
pub struct WaitObservation {
    pub satisfied: bool,
    pub deadline_exceeded: bool,
}

/// What the driver observed of the current step.
#[derive(Debug, Clone, Copy, PartialEq, Eq, Structural)]
pub struct Observation {
    pub wait: Option<WaitObservation>,
    pub expectation_holds: bool,
}

/// What an observation leads to.
#[derive(Debug, Clone, Copy, PartialEq, Eq, Structural)]
pub enum Outcome {
    /// The step still waits.
    Waiting,
    /// The step's wait outlived its deadline: fail the run.
    WaitDeadlineExceeded { step: usize },
    /// The step's expectation failed: fail the run.
    ExpectationFailed { step: usize },
    /// The step passed; the next one starts with its actions.
    Advanced { next: usize },
    /// The last step passed: the run succeeded.
    Completed,
}

impl AutopilotState {
    /// The driver's invariant: a non-empty script, the current step inside it unless the run is
    /// over, and a run that went past the last step over.
    pub open spec fn wf(self) -> bool {
        &&& self.step_count > 0
        &&& self.index <= self.step_count
        &&& self.index == self.step_count ==> self.done
    }

    /// A fresh run at the first step of a non-empty script.
    pub fn new(step_count: usize) -> (state: AutopilotState)
        requires
            step_count > 0,
        ensures
            state.wf(),
            state == (AutopilotState { step_count, index: 0, acted: false, done: false }),
    {
        AutopilotState { step_count, index: 0, acted: false, done: false }
    }

    /// The start of an update: nothing once the run is over; otherwise the run fails when it
    /// outlived its deadline, the step runs its actions when it has not yet, and is observed
    /// when it has.
    pub open spec fn begin_spec(self, run_deadline_exceeded: bool) -> (AutopilotState, Begin) {
        if self.done {
            (self, Begin::Idle)
        } else if run_deadline_exceeded {
            (AutopilotState { done: true, ..self }, Begin::RunDeadlineExceeded { step: self.index })
        } else if !self.acted {
            (AutopilotState { acted: true, ..self }, Begin::Act { step: self.index })
        } else {
            (self, Begin::Observe { step: self.index })
        }
    }

    /// The observation of a step whose actions ran: a wait that is not satisfied keeps the step
    /// waiting until its deadline fails the run; then a failed expectation fails the run;
    /// otherwise the next step starts, or the run completes after the last step.
    pub open spec fn observe_spec(self, obs: Observation) -> (AutopilotState, Outcome) {
        if obs.wait matches Some(w) && !w.satisfied {
            if obs.wait->0.deadline_exceeded {
                (AutopilotState { done: true, ..self }, Outcome::WaitDeadlineExceeded { step: self.index })
            } else {
                (self, Outcome::Waiting)
            }
        } else if !obs.expectation_holds {
            (AutopilotState { done: true, ..self }, Outcome::ExpectationFailed { step: self.index })
        } else if self.index + 1 == self.step_count {
            (AutopilotState { index: (self.index + 1) as usize, done: true, ..self }, Outcome::Completed)
        } else {
            (
                AutopilotState { index: (self.index + 1) as usize, acted: false, ..self },
                Outcome::Advanced { next: (self.index + 1) as usize },
            )
        }
    }

    /// Starts an update of the run.
    pub fn begin(&mut self, run_deadline_exceeded: bool) -> (begin: Begin)
        requires
            old(self).wf(),
        ensures
            final(self).wf(),
            (*final(self), begin) == old(self).begin_spec(run_deadline_exceeded),
    {
        if self.done {
            return Begin::Idle;
        }
        if run_deadline_exceeded {
            self.done = true;
            return Begin::RunDeadlineExceeded { step: self.index };
        }
        if !self.acted {
            self.acted = true;
            return Begin::Act { step: self.index };
        }
        Begin::Observe { step: self.index }
    }

    /// Takes the observation of the current step, after `begin` asked for it.
    pub fn observe(&mut self, obs: Observation) -> (outcome: Outcome)
        requires
            old(self).wf(),
            !old(self).done,
            old(self).acted,
        ensures
            final(self).wf(),
            (*final(self), outcome) == old(self).observe_spec(obs),
    {
        if let Some(w) = obs.wait {
            if !w.satisfied {
                if w.deadline_exceeded {
                    self.done = true;
                    return Outcome::WaitDeadlineExceeded { step: self.index };
                }
                return Outcome::Waiting;
            }
        }
        if !obs.expectation_holds {
            self.done = true;
            return Outcome::ExpectationFailed { step: self.index };
        }
        self.index = self.index + 1;
        if self.index == self.step_count {
            self.done = true;
            Outcome::Completed
        } else {
            self.acted = false;
            Outcome::Advanced { next: self.index }
        }
    }
}

/// The driver never goes back: across a `begin` and an `observe` the step index grows by at
/// most one, a finished run stays finished and unchanged, and the run completes exactly when
/// its last step passes.
pub proof fn lemma_driver_monotone(s: AutopilotState, flag: bool, obs: Observation)
    requires
        s.wf(),
    ensures
        ({
            let (b, _) = s.begin_spec(flag);
            &&& b.index == s.index
            &&& s.done ==> b == s
            &&& b.wf()
        }),
        !s.done && s.acted ==> ({
            let (o, out) = s.observe_spec(obs);
            &&& s.index <= o.index <= s.index + 1
            &&& o.wf()
            &&& (out == Outcome::Completed <==> (o.index == s.step_count && o.done && !(
            out is WaitDeadlineExceeded) && !(out is ExpectationFailed)))
            &&& (out is Advanced ==> !o.acted && !o.done)
        }),
{
}

/// What one update of the driver receives: whether the run outlived its deadline, and what an
/// observation of the current step would see.
#[derive(Debug, Clone, Copy, PartialEq, Eq, Structural)]
pub struct Update {
    pub run_deadline_exceeded: bool,
    pub observation: Observation,
}

/// What the driver does that is visible from outside.
#[derive(Debug, Clone, Copy, PartialEq, Eq, Structural)]
pub enum Action {
    /// The actions of this step ran.
    Act(usize),
    /// This step's wait and expectation held.
    Passed(usize),
    /// The game was asked to exit, successfully or with an error.
    Exit(bool),
}

/// Whether an observation lets a step pass: its wait, if any, is satisfied and its expectation
/// holds.
pub open spec fn passes(obs: Observation) -> bool {
    (obs.wait matches Some(w) ==> w.satisfied) && obs.expectation_holds
}

/// One update of the driver: `begin`, then `observe` when `begin` asks for an observation; the
/// new state and what became visible.
pub open spec fn update_spec(s: AutopilotState, u: Update) -> (AutopilotState, Seq<Action>) {
    let (b, start) = s.begin_spec(u.run_deadline_exceeded);
    match start {
        Begin::Idle => (b, Seq::empty()),
        Begin::RunDeadlineExceeded { .. } => (b, seq![Action::Exit(false)]),
        Begin::Act { step } => (b, seq![Action::Act(step)]),
        Begin::Observe { step } => {
            let (o, outcome) = b.observe_spec(u.observation);
            match outcome {
                Outcome::Waiting => (o, Seq::empty()),
                Outcome::WaitDeadlineExceeded { .. } => (o, seq![Action::Exit(false)]),
                Outcome::ExpectationFailed { .. } => (o, seq![Action::Exit(false)]),
                Outcome::Advanced { .. } => (o, seq![Action::Passed(step)]),
                Outcome::Completed => (o, seq![Action::Passed(step), Action::Exit(true)]),
            }
        },
    }
}

/// A sequence of updates from a state: the final state and everything that became visible.
pub open spec fn run_spec(s: AutopilotState, us: Seq<Update>) -> (AutopilotState, Seq<Action>)
    decreases us.len(),
{
    if us.len() == 0 {
        (s, Seq::empty())
    } else {
        let (mid, log) = run_spec(s, us.drop_last());
        let (last, more) = update_spec(mid, us.last());
        (last, log + more)
    }
}

/// Steps `0..k`, each acting and then passing, in order.
pub open spec fn passed_steps(k: nat) -> Seq<Action>
    decreases k,
{
    if k == 0 {
        Seq::empty()
    } else {
        passed_steps((k - 1) as nat) + seq![Action::Act((k - 1) as usize), Action::Passed((k - 1) as usize)]
    }
}

/// What a run has shown in state `s`: every passed step acted then passed, in order; the current
/// step acted if its actions ran; and one exit once the run is over, successful exactly when every
/// step passed.
pub open spec fn run_log(s: AutopilotState) -> Seq<Action> {
    passed_steps(s.index as nat) + (if s.acted && s.index < s.step_count {
        seq![Action::Act(s.index)]
    } else {
        Seq::empty()
    }) + (if s.done {
        seq![Action::Exit(s.index == s.step_count)]
    } else {
        Seq::empty()
    })
}

proof fn lemma_update_extends_log(s: AutopilotState, u: Update)
    requires
        s.wf(),
    ensures
        update_spec(s, u).0.wf(),
        update_spec(s, u).0.step_count == s.step_count,
        run_log(s) + update_spec(s, u).1 == run_log(update_spec(s, u).0),
{
    let (b, start) = s.begin_spec(u.run_deadline_exceeded);
    let (n, more) = update_spec(s, u);
    if s.done {
        assert(run_log(s) + more =~= run_log(n));
    } else {
        match start {
            Begin::Idle => {},
            Begin::RunDeadlineExceeded { .. } => {
                assert(run_log(s) + more =~= run_log(n));
            },
            Begin::Act { .. } => {
                assert(run_log(s) + more =~= run_log(n));
            },
            Begin::Observe { step } => {
                let (o, outcome) = b.observe_spec(u.observation);
                match outcome {
                    Outcome::Advanced { .. } => {
                        assert(passed_steps((s.index + 1) as nat) == passed_steps(s.index as nat) + seq![
                            Action::Act(s.index),
                            Action::Passed(s.index),
                        ]);
                        assert(run_log(s) + more =~= run_log(n));
                    },
                    Outcome::Completed => {
                        assert(passed_steps((s.index + 1) as nat) == passed_steps(s.index as nat) + seq![
                            Action::Act(s.index),
                            Action::Passed(s.index),
                        ]);
                        assert(run_log(s) + more =~= run_log(n));
                    },
                    _ => {
                        assert(run_log(s) + more =~= run_log(n));
                    },
                }
            },
        }
    }
}

/// A whole scripted run of `step_count` steps, whatever its updates bring: the steps act once
/// each and in order, step `i + 1` acts only after step `i` acted and passed (its wait, if any,
/// satisfied and its expectation held), the run exits at most once, at the end of what it shows,
/// and the exit is successful exactly when every step passed; once the run is over, further
/// updates change nothing.
pub proof fn lemma_whole_run(step_count: usize, updates: Seq<Update>)
    requires
        step_count > 0,
    ensures
        ({
            let start = AutopilotState { step_count, index: 0, acted: false, done: false };
            let (last, log) = run_spec(start, updates);
            &&& last.wf()
            &&& last.step_count == step_count
            &&& log == run_log(last)
            &&& (last.done ==> forall|u: Update| #[trigger] update_spec(last, u) == (last, Seq::<Action>::empty()))
        }),
        forall|s: AutopilotState, u: Update|
            s.wf() && !s.done && s.acted ==> (#[trigger] update_spec(s, u).1.contains(Action::Passed(s.index))
                <==> !u.run_deadline_exceeded && passes(u.observation)),
    decreases updates.len(),
{
    let start = AutopilotState { step_count, index: 0, acted: false, done: false };
    if updates.len() == 0 {
        assert(run_log(start) =~= Seq::<Action>::empty());
    } else {
        lemma_whole_run(step_count, updates.drop_last());
        let (mid, log) = run_spec(start, updates.drop_last());
        lemma_update_extends_log(mid, updates.last());
    }
    assert forall|s: AutopilotState, u: Update|
        s.wf() && !s.done && s.acted implies (#[trigger] update_spec(s, u).1.contains(Action::Passed(s.index))
            <==> !u.run_deadline_exceeded && passes(u.observation)) by {
        let more = update_spec(s, u).1;
        if !u.run_deadline_exceeded && passes(u.observation) {
            assert(more[0] == Action::Passed(s.index));
        } else if more.contains(Action::Passed(s.index)) {
            let k = choose|k: int| 0 <= k < more.len() && more[k] == Action::Passed(s.index);
            assert(more[k] == Action::Passed(s.index));
        }
    }
}

/// A step's expectation is judged only once its wait is over: while the wait is unsatisfied
/// the observation changes nothing and the step keeps waiting until the wait's deadline passes,
/// when the run fails for that deadline, whatever the expectation says.
pub proof fn lemma_wait_comes_before_expectation(s: AutopilotState, obs: Observation)
    requires
        obs.wait matches Some(w) && !w.satisfied,
    ensures
        !obs.wait->0.deadline_exceeded ==> s.observe_spec(obs) == (s, Outcome::Waiting),
        obs.wait->0.deadline_exceeded ==> s.observe_spec(obs) == (
            AutopilotState { done: true, ..s },
            Outcome::WaitDeadlineExceeded { step: s.index },
        ),
        s.observe_spec(obs) == s.observe_spec(Observation { expectation_holds: !obs.expectation_holds, ..obs }),
{
}

} // verus!
