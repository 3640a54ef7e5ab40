use vstd::prelude::*;

use crate::text::{parse_u64, u64_numeral};

verus! {

broadcast use vstd::seq_lib::group_seq_properties;

/// Updates skipped before a capture starts, unless configured otherwise.
pub const DEFAULT_WARMUP_UPDATES: u32 = 120;

/// Updates measured by a capture, unless configured otherwise.
pub const DEFAULT_CAPTURE_UPDATES: u32 = 600;

/// Updates that the aggregate over several runs aims for.
pub const TIMING_TARGET_UPDATES: usize = 600;

/// The most runs that are aggregated.
pub const MAX_TIMING_RUNS: usize = 32;

/// The phase of a timing capture.
#[derive(Debug, Clone, Copy, PartialEq, Eq, Structural)]
pub enum CapturePhase {
    Waiting,
    Warmup,
    Capture,
    Complete,
}

/// A timing capture: its phase, its window, how many warm-up updates passed, how many frame
/// and update-work samples it recorded, and whether it was written.
#[derive(Debug, Clone, Copy, PartialEq, Eq, Structural)]
pub struct TimingCapture {
    pub phase: CapturePhase,
    pub warmup_updates: u32,
    pub warmed: u32,
    pub capture_updates: u32,
    pub frames: u32,
    pub work_samples: u32,
    pub written: bool,
}

/// What the game reads of the capture.
#[derive(Debug, Clone, Copy, PartialEq, Eq, Structural)]
pub struct TimingStatus {
    pub complete: bool,
    pub captured_updates: u32,
}

/// What the end of an update asks of the host: record this update's frame time, record its
/// update work, and write the capture (with whether it is complete).
#[derive(Debug, Clone, Copy, PartialEq, Eq, Structural)]
pub struct FinishActions {
    pub record_frame: bool,
    pub record_work: bool,
    pub write: Option<bool>,
}

/// The phase that a capture enters when it starts.
pub open spec fn start_phase(warmup_updates: u32) -> CapturePhase {
    if warmup_updates == 0 {
        CapturePhase::Capture
    } else {
        CapturePhase::Warmup
    }
}

impl TimingCapture {
    /// The capture's invariant, and its agreement with the status the game reads.
    pub open spec fn wf(self, status: TimingStatus) -> bool {
        &&& self.capture_updates > 0
        &&& self.phase == CapturePhase::Waiting ==> self.warmed == 0
        &&& self.phase == CapturePhase::Warmup ==> self.warmed < self.warmup_updates
        &&& self.work_samples <= self.frames
        &&& (if self.phase == CapturePhase::Complete {
            self.frames == self.capture_updates
        } else {
            self.frames < self.capture_updates
        })
        &&& status.captured_updates == self.frames
        &&& status.complete == (self.phase == CapturePhase::Complete)
    }

    /// A capture that waits for the first update, with the given window.
    pub fn new(warmup_updates: u32, capture_updates: u32) -> (capture: (TimingCapture, TimingStatus))
        requires
            capture_updates > 0,
        ensures
            capture.0.wf(capture.1),
            capture.0 == (TimingCapture {
                phase: CapturePhase::Waiting,
                warmup_updates,
                warmed: 0,
                capture_updates,
                frames: 0,
                work_samples: 0,
                written: false,
            }),
    {
        (
            TimingCapture {
                phase: CapturePhase::Waiting,
                warmup_updates,
                warmed: 0,
                capture_updates,
                frames: 0,
                work_samples: 0,
                written: false,
            },
            TimingStatus { complete: false, captured_updates: 0 },
        )
    }

    /// A request for a new capture restarts it: warm-up (or capture when there is none), no
    /// samples, not written, an incomplete status. Without a request nothing changes.
    pub fn begin_requested_capture(&mut self, status: &mut TimingStatus, requested: bool)
        requires
            old(self).wf(*old(status)),
        ensures
            final(self).wf(*final(status)),
            !requested ==> *final(self) == *old(self) && *final(status) == *old(status),
            requested ==> *final(self) == (TimingCapture {
                phase: start_phase(old(self).warmup_updates),
                warmed: 0,
                frames: 0,
                work_samples: 0,
                written: false,
                ..*old(self)
            }),
    {
        if !requested {
            return ;
        }
        self.phase = if self.warmup_updates == 0 {
            CapturePhase::Capture
        } else {
            CapturePhase::Warmup
        };
        self.warmed = 0;
        self.frames = 0;
        self.work_samples = 0;
        self.written = false;
        status.complete = false;
        status.captured_updates = 0;
    }

    /// The start of an update: a waiting capture starts.
    pub fn begin_update(&mut self, status: &TimingStatus)
        requires
            old(self).wf(*status),
        ensures
            final(self).wf(*status),
            *final(self) == (if old(self).phase == CapturePhase::Waiting {
                TimingCapture { phase: start_phase(old(self).warmup_updates), ..*old(self) }
            } else {
                *old(self)
            }),
    {
        if self.phase == CapturePhase::Waiting {
            self.phase = if self.warmup_updates == 0 {
                CapturePhase::Capture
            } else {
                CapturePhase::Warmup
            };
        }
    }

    /// The end of an update: a warm-up update counts towards the warm-up; a captured update
    /// records its frame time (and its update work when it was measured) and completes and
    /// writes the capture at the window's size; an exit writes a capture not yet written.
    pub fn finish_update(&mut self, status: &mut TimingStatus, work_measured: bool, exit_requested: bool) -> (actions: FinishActions)
        requires
            old(self).wf(*old(status)),
        ensures
            final(self).wf(*final(status)),
            ({
                let o = *old(self);
                let captured = o.phase == CapturePhase::Capture;
                let completes = captured && o.frames + 1 >= o.capture_updates;
                let mid = if o.phase == CapturePhase::Warmup {
                    TimingCapture {
                        warmed: (o.warmed + 1) as u32,
                        phase: if o.warmed + 1 >= o.warmup_updates {
                            CapturePhase::Capture
                        } else {
                            CapturePhase::Warmup
                        },
                        ..o
                    }
                } else if captured {
                    TimingCapture {
                        frames: (o.frames + 1) as u32,
                        work_samples: (o.work_samples + if work_measured { 1int } else { 0 }) as u32,
                        phase: if completes { CapturePhase::Complete } else { CapturePhase::Capture },
                        written: if completes { true } else { o.written },
                        ..o
                    }
                } else {
                    o
                };
                let exit_write = exit_requested && !mid.written;
                &&& actions.record_frame == captured
                &&& actions.record_work == (captured && work_measured)
                &&& actions.write == (if completes {
                    Some(true)
                } else if exit_write {
                    Some(mid.phase == CapturePhase::Complete)
                } else {
                    None
                })
                &&& *final(self) == (if exit_write {
                    TimingCapture { written: true, ..mid }
                } else {
                    mid
                })
            }),
    {
        let mut actions = FinishActions { record_frame: false, record_work: false, write: None };
        match self.phase {
            CapturePhase::Waiting => {},
            CapturePhase::Warmup => {
                self.warmed = self.warmed + 1;
                if self.warmed >= self.warmup_updates {
                    self.phase = CapturePhase::Capture;
                }
            },
            CapturePhase::Capture => {
                actions.record_frame = true;
                self.frames = self.frames + 1;
                if work_measured {
                    actions.record_work = true;
                    self.work_samples = self.work_samples + 1;
                }
                status.captured_updates = self.frames;
                if status.captured_updates >= self.capture_updates {
                    self.phase = CapturePhase::Complete;
                    status.complete = true;
                    actions.write = Some(true);
                    self.written = true;
                }
            },
            CapturePhase::Complete => {},
        }
        if exit_requested && !self.written {
            let complete = self.phase == CapturePhase::Complete;
            actions.write = Some(complete);
            self.written = true;
        }
        actions
    }
}

/// A capture is complete exactly when it recorded its whole window, and the status the game
/// reads agrees with the capture.
pub proof fn lemma_complete_means_full_window(c: TimingCapture, status: TimingStatus)
    requires
        c.wf(status),
    ensures
        status.complete <==> c.frames == c.capture_updates,
        status.captured_updates <= c.capture_updates,
        c.work_samples <= status.captured_updates,
{
}

/// A run's samples without its first one, which startup distorts.
pub open spec fn without_first<T>(s: Seq<T>) -> Seq<T> {
    if s.len() == 0 {
        s
    } else {
        s.drop_first()
    }
}

/// The samples of several runs joined in run order, each without its first sample.
pub open spec fn joined<T>(runs: Seq<Seq<T>>) -> Seq<T>
    decreases runs.len(),
{
    if runs.len() == 0 {
        Seq::empty()
    } else {
        joined(runs.drop_last()) + without_first(runs.last())
    }
}

pub open spec fn views<T>(runs: Seq<Vec<T>>) -> Seq<Seq<T>> {
    runs.map_values(|v: Vec<T>| v@)
}

pub open spec fn min_nat(a: nat, b: nat) -> nat {
    if a <= b {
        a
    } else {
        b
    }
}

/// Joins the samples of several runs, each without its first sample, and keeps at most
/// `target` of them.
pub fn join_runs<T: Copy>(runs: &Vec<Vec<T>>, target: usize) -> (samples: Vec<T>)
    ensures
        samples@ == joined(views(runs@)).take(min_nat(target as nat, joined(views(runs@)).len()) as int),
{
    let mut samples: Vec<T> = Vec::new();
    let mut k: usize = 0;
    while k < runs.len()
        invariant
            k <= runs@.len(),
            samples@ == joined(views(runs@.take(k as int))),
        decreases runs@.len() - k,
    {
        let run = &runs[k];
        let ghost before = samples@;
        proof {
            assert(views(runs@.take(k + 1)).drop_last() =~= views(runs@.take(k as int)));
            assert(views(runs@.take(k + 1)).last() == run@);
        }
        if run.len() > 0 {
            let mut i: usize = 1;
            while i < run.len()
                invariant
                    1 <= i <= run@.len(),
                    samples@ == before + run@.subrange(1, i as int),
                decreases run@.len() - i,
            {
                samples.push(run[i]);
                i = i + 1;
                assert(samples@ =~= before + run@.subrange(1, i as int));
            }
            assert(run@.subrange(1, i as int) =~= run@.drop_first());
        } else {
            assert(samples@ =~= before + without_first(run@));
        }
        k = k + 1;
    }
    assert(runs@.take(k as int) =~= runs@);
    let ghost all = samples@;
    if samples.len() > target {
        samples.truncate(target);
    }
    assert(samples@ =~= all.take(min_nat(target as nat, all.len()) as int));
    samples
}

/// The samples of several runs joined for one report.
pub struct AggregatedTiming<T> {
    pub frame_ms: Vec<T>,
    pub update_work_ms: Vec<T>,
    pub complete: bool,
    pub source_runs: usize,
}

/// Aggregates the frame times and update work of several runs: each run loses its first
/// sample, the rest are joined in run order and cut at `target`; the aggregate is complete
/// when it reached `target` frame times.
pub fn aggregate_timing<T: Copy>(frame_runs: &Vec<Vec<T>>, work_runs: &Vec<Vec<T>>, target: usize) -> (aggregate: AggregatedTiming<T>)
    ensures
        aggregate.frame_ms@ == joined(views(frame_runs@)).take(
            min_nat(target as nat, joined(views(frame_runs@)).len()) as int,
        ),
        aggregate.update_work_ms@ == joined(views(work_runs@)).take(
            min_nat(target as nat, joined(views(work_runs@)).len()) as int,
        ),
        aggregate.complete == (aggregate.frame_ms@.len() == target),
        aggregate.source_runs == frame_runs@.len(),
{
    let frame_ms = join_runs(frame_runs, target);
    let update_work_ms = join_runs(work_runs, target);
    let complete = frame_ms.len() == target;
    AggregatedTiming { frame_ms, update_work_ms, complete, source_runs: frame_runs.len() }
}

/// Whether collecting timing runs stops after a run with `frames` frame times: when the run
/// had no usable sample beyond its first, or when the aggregate is complete.
pub fn collection_done(frames: usize, aggregate_complete: bool) -> (done: bool)
    ensures
        done == (frames <= 1 || aggregate_complete),
{
    let usable = if frames > 0 {
        frames - 1
    } else {
        0
    };
    usable == 0 || aggregate_complete
}

/// The number of warm-up updates from the value of its environment variable: the number it
/// holds when that is a `u32` numeral, the plugin's own setting otherwise.
pub fn warmup_from_env(raw: Option<&str>, configured: u32) -> (warmup: u32)
    ensures
        warmup == (match raw {
            Some(r) => match u64_numeral(r@) {
                Some(v) => if v <= u32::MAX { v as u32 } else { configured },
                None => configured,
            },
            None => configured,
        }),
{
    match raw {
        Some(r) => match parse_u64(r) {
            Some(v) => if v <= u32::MAX as u64 {
                v as u32
            } else {
                configured
            },
            None => configured,
        },
        None => configured,
    }
}

/// The boolean that the JSON text holds under `key` at its top level, if the text is a JSON
/// object with a boolean there.
pub uninterp spec fn json_bool_field(text: Seq<char>, key: Seq<char>) -> Option<bool>;

/// Reads a boolean field of a JSON object.
///
/// Trusted: parses the text with `serde_json::from_str` into a `serde_json::Value` and reads
/// `value[key].as_bool()`; text that does not parse gives `None`. Nothing is stated of the
/// result beyond its name: it is a function of the text and the key.
#[verifier::external_body]
pub(crate) fn read_bool_field(text: &str, key: &str) -> (value: Option<bool>)
    ensures
        value == json_bool_field(text@, key@),
{
    match serde_json::from_str::<serde_json::Value>(text) {
        Ok(json) => json[key].as_bool(),
        Err(_) => None,
    }
}

/// Whether a timing record says that its capture completed: its `complete` field when that is a
/// boolean, and not complete otherwise (a missing or unreadable record).
pub open spec fn timing_complete_spec(timing: Seq<char>) -> bool {
    json_bool_field(timing, "complete"@) == Some(true)
}

/// Reads whether a timing record's capture completed.
pub fn timing_complete(timing: &str) -> (complete: bool)
    ensures
        complete == timing_complete_spec(timing@),
{
    match read_bool_field(timing, "complete") {
        Some(b) => b,
        None => false,
    }
}

/// Whether short runs are repeated to fill the timing window: only when the first run left a
/// readable timing record that is not complete.
pub fn start_collection(initial_readable: bool, initial_complete: bool) -> (collect: bool)
    ensures
        collect == (initial_readable && !initial_complete),
{
    initial_readable && !initial_complete
}

/// How one repeated run ended.
#[derive(Debug, Clone, Copy, PartialEq, Eq, Structural)]
pub enum RerunOutcome {
    /// The run could not be launched, failed, or left no readable timing record.
    Failed,
    /// The run left a timing record with this many frame times, and the aggregate of all
    /// records so far is complete or not.
    Report { frames: usize, aggregate_complete: bool },
}

/// What follows a repeated run.
#[derive(Debug, Clone, Copy, PartialEq, Eq, Structural)]
pub enum CollectionStep {
    /// Launch the next run.
    Rerun,
    /// Stop and write the aggregate of the records collected so far.
    WriteAggregate,
}

/// The decision after repeated run number `run` (the first run is number 0): stop when the run
/// failed, when it gave no usable sample or completed the aggregate, or when it was the last of
/// the `MAX_TIMING_RUNS` runs; otherwise run again.
pub fn after_rerun(run: usize, outcome: RerunOutcome) -> (step: CollectionStep)
    requires
        1 <= run < MAX_TIMING_RUNS,
    ensures
        (step == CollectionStep::Rerun) == (match outcome {
            RerunOutcome::Failed => false,
            RerunOutcome::Report { frames, aggregate_complete } => !(frames <= 1 || aggregate_complete)
                && run + 1 < MAX_TIMING_RUNS,
        }),
        run + 1 == MAX_TIMING_RUNS ==> step == CollectionStep::WriteAggregate,
{
    match outcome {
        RerunOutcome::Failed => CollectionStep::WriteAggregate,
        RerunOutcome::Report { frames, aggregate_complete } => {
            if collection_done(frames, aggregate_complete) || run + 1 >= MAX_TIMING_RUNS {
                CollectionStep::WriteAggregate
            } else {
                CollectionStep::Rerun
            }
        },
    }
}

} // verus!
