//! Decision core of the trajectory generator.
//!
//! One sample of the Buddhabrot is accepted or rejected by iterating
//! `z <- z * z + c` from zero and watching for three things: the norm
//! passing the escape threshold, the iterate exactly matching a saved
//! checkpoint (a repeating cycle that can never escape), and the
//! iteration cap running out. The numeric work on the iterates happens
//! outside the library; this module holds the verified decision machine
//! that, fed one observation per step (`did the norm pass 4?`, `does the
//! iterate equal the checkpoint?`), decides escape, rejection, and the
//! doubling schedule on which the checkpoint is refreshed.

use vstd::prelude::*;

verus! {

/// What one step of the escape scan decides.
#[derive(Clone, Copy, Debug, PartialEq, Eq, Structural)]
pub enum StepVerdict {
    /// The norm passed the threshold at this step index, at or past the
    /// minimum step: the trajectory is accepted.
    Escaped(u32),
    /// The norm passed the threshold before the minimum step: the sample
    /// is discarded without iterating further.
    TooEarly,
    /// The iterate exactly equals the saved checkpoint: the orbit repeats
    /// and can never escape, so the sample is discarded.
    Cycle,
    /// Keep iterating. When `snapshot` holds, the caller must save the
    /// current iterate as the new checkpoint before the next step.
    Proceed { snapshot: bool },
}

/// Outcome of a whole scan.
#[derive(Clone, Copy, Debug, PartialEq, Eq, Structural)]
pub enum ScanOutcome {
    /// Accepted: the norm first passed the threshold at this step index,
    /// which is at least the minimum-step threshold.
    Escaped(u32),
    /// Discarded: escape came too early, a cycle was found, the cap ran
    /// out, or the caller stopped feeding observations.
    Rejected,
}

/// The observations one step of the scan runs on: whether the fresh
/// iterate has norm squared above 4, and whether it exactly equals the
/// saved checkpoint.
#[derive(Clone, Copy, Debug, PartialEq, Eq, Structural)]
pub struct StepEvent {
    pub escaped: bool,
    pub equals_checkpoint: bool,
}

/// The mathematical state of a scan: step index, the counters of the
/// doubling checkpoint schedule, the two configured thresholds, and
/// whether a verdict has been reached.
pub ghost struct ScanState {
    pub i: int,
    pub steps: int,
    pub steplimit: int,
    pub iterations: int,
    pub miniters: int,
    pub done: bool,
}

impl ScanState {
    /// The scan still wants another observation.
    pub open spec fn active(self) -> bool {
        !self.done && self.i < self.iterations
    }

    /// The verdict one step yields from this state and observation `ev`.
    pub open spec fn step_verdict(self, ev: StepEvent) -> StepVerdict {
        if ev.escaped {
            if self.i >= self.miniters {
                StepVerdict::Escaped(self.i as u32)
            } else {
                StepVerdict::TooEarly
            }
        } else if ev.equals_checkpoint {
            StepVerdict::Cycle
        } else {
            StepVerdict::Proceed { snapshot: self.steps == self.steplimit }
        }
    }

    /// The state after a step whose verdict is `Proceed`: the step index
    /// advances, and on the doubling schedule the checkpoint counter
    /// resets while its limit doubles.
    pub open spec fn step_next(self, ev: StepEvent) -> ScanState {
        let snapshot = self.steps == self.steplimit;
        ScanState {
            i: self.i + 1,
            steps: if snapshot {
                1
            } else {
                self.steps + 1
            },
            steplimit: if snapshot {
                2 * self.steplimit
            } else {
                self.steplimit
            },
            iterations: self.iterations,
            miniters: self.miniters,
            done: false,
        }
    }

    /// The outcome of feeding the scan the observations of `events`, one
    /// per step, until it decides or the observations run out.
    pub open spec fn scan_from(self, events: Seq<StepEvent>) -> ScanOutcome
        decreases events.len(),
    {
        if !self.active() || events.len() == 0 {
            ScanOutcome::Rejected
        } else {
            match self.step_verdict(events[0]) {
                StepVerdict::Escaped(i) => ScanOutcome::Escaped(i),
                StepVerdict::TooEarly => ScanOutcome::Rejected,
                StepVerdict::Cycle => ScanOutcome::Rejected,
                StepVerdict::Proceed { .. } => self.step_next(events[0]).scan_from(
                    events.drop_first(),
                ),
            }
        }
    }

    /// A scan at step 0, checkpoint distance 2, nothing decided yet.
    pub open spec fn init(iterations: int, miniters: int) -> ScanState {
        ScanState { i: 0, steps: 0, steplimit: 2, iterations, miniters, done: false }
    }
}

/// The outcome a whole scan with cap `iterations` and minimum step
/// `miniters` yields from the observation list `events`.
pub open spec fn spec_scan(events: Seq<StepEvent>, iterations: u32, miniters: u32) -> ScanOutcome {
    ScanState::init(iterations as int, miniters as int).scan_from(events)
}

/// The integer state of the escape scan.
pub struct EscapeScan {
    i: u32,
    steps: u64,
    steplimit: u64,
    iterations: u32,
    miniters: u32,
    done: bool,
}

impl View for EscapeScan {
    type V = ScanState;

    closed spec fn view(&self) -> ScanState {
        ScanState {
            i: self.i as int,
            steps: self.steps as int,
            steplimit: self.steplimit as int,
            iterations: self.iterations as int,
            miniters: self.miniters as int,
            done: self.done,
        }
    }
}

impl EscapeScan {
    /// The counters stay small enough that the doubling schedule can
    /// never overflow: at step `i` the checkpoint distance is at most
    /// `2 * i + 2`.
    pub open spec fn wf(self) -> bool {
        &&& 0 <= self@.i <= self@.iterations <= u32::MAX
        &&& 0 <= self@.miniters <= u32::MAX
        &&& 0 <= self@.steps <= self@.i + 1
        &&& 2 <= self@.steplimit <= 2 * self@.i + 2
    }

    /// A scan at step 0, checkpoint distance 2, nothing decided yet.
    pub fn new(iterations: u32, miniters: u32) -> (scan: EscapeScan)
        ensures
            scan.wf(),
            scan@ == ScanState::init(iterations as int, miniters as int),
    {
        EscapeScan { i: 0, steps: 0, steplimit: 2, iterations, miniters, done: false }
    }

    /// Whether the scan wants another observation.
    pub fn active(&self) -> (r: bool)
        ensures
            r == self@.active(),
    {
        !self.done && self.i < self.iterations
    }

    /// Consume the observation of one fresh iterate and decide: accept
    /// the trajectory, discard the sample, or keep going — refreshing the
    /// checkpoint on the doubling schedule.
    pub fn step(&mut self, ev: StepEvent) -> (v: StepVerdict)
        requires
            old(self).wf(),
            old(self)@.active(),
        ensures
            final(self).wf(),
            v == old(self)@.step_verdict(ev),
            match v {
                StepVerdict::Proceed { .. } => final(self)@ == old(self)@.step_next(ev),
                _ => {
                    &&& final(self)@.done
                    &&& final(self)@.i == old(self)@.i
                    &&& final(self)@.iterations == old(self)@.iterations
                    &&& final(self)@.miniters == old(self)@.miniters
                },
            },
    {
        if ev.escaped {
            self.done = true;
            if self.i >= self.miniters {
                StepVerdict::Escaped(self.i)
            } else {
                StepVerdict::TooEarly
            }
        } else if ev.equals_checkpoint {
            self.done = true;
            StepVerdict::Cycle
        } else {
            let snapshot = self.steps == self.steplimit;
            if snapshot {
                self.steps = 1;
                self.steplimit = 2 * self.steplimit;
            } else {
                self.steps = self.steps + 1;
            }
            self.i = self.i + 1;
            StepVerdict::Proceed { snapshot }
        }
    }
}

/// Run a whole scan over a precomputed observation list.
pub fn run_scan(events: &Vec<StepEvent>, iterations: u32, miniters: u32) -> (r: ScanOutcome)
    ensures
        r == spec_scan(events@, iterations, miniters),
{
    let mut scan = EscapeScan::new(iterations, miniters);
    let mut k: usize = 0;
    proof {
        assert(events@.skip(0) =~= events@);
    }
    while k < events.len() && scan.active()
        invariant
            k <= events@.len(),
            scan.wf(),
            spec_scan(events@, iterations, miniters) == scan@.scan_from(events@.skip(k as int)),
        decreases events@.len() - k,
    {
        let v = scan.step(events[k]);
        proof {
            assert(events@.skip(k as int)[0] == events@[k as int]);
            assert(events@.skip(k as int).drop_first() =~= events@.skip(k as int + 1));
        }
        match v {
            StepVerdict::Escaped(i) => {
                return ScanOutcome::Escaped(i);
            },
            StepVerdict::TooEarly => {
                return ScanOutcome::Rejected;
            },
            StepVerdict::Cycle => {
                return ScanOutcome::Rejected;
            },
            StepVerdict::Proceed { .. } => {},
        }
        k = k + 1;
    }
    proof {
        assert(!scan@.active() || events@.skip(k as int).len() == 0);
    }
    ScanOutcome::Rejected
}

/// A seed whose very first iterate already passes the escape threshold
/// can never survive the scan: with a minimum step of 0 it is accepted at
/// step 0, and with a cap of 0 it is rejected outright — nothing in
/// between can happen.
pub proof fn lemma_first_step_escape(events: Seq<StepEvent>, iterations: u32)
    requires
        events.len() > 0,
        events[0].escaped,
    ensures
        iterations > 0 ==> spec_scan(events, iterations, 0) == ScanOutcome::Escaped(0u32),
        iterations == 0 ==> spec_scan(events, iterations, 0) == ScanOutcome::Rejected,
{
}

} // verus!
