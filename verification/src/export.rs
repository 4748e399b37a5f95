//! Planning of the batch export: the retry policy of a conversion job, the
//! bookkeeping of a batch of jobs, and the names of the files of a frame.
//!
//! Nothing here runs a process or touches a file. The caller performs each
//! action and reports what happened.

use vstd::prelude::*;
use crate::number::{decimal, push_decimal};
use crate::text::{push_all, string_of};

verus! {

/// How long a conversion may take, and how often it is tried.
///
/// Attempt `k`, counted from 1, may take `k` times the base timeout.
#[derive(Clone, Copy, Debug, PartialEq, Eq, Structural)]
pub struct RetryPolicy {
    /// Seconds granted to the first attempt, and added for each further one.
    pub base_timeout: u32,
    /// The number of attempts after which a job is abandoned.
    pub max_attempts: u32,
}

/// Where a conversion job stands.
#[derive(Clone, Copy, Debug, PartialEq, Eq, Structural)]
pub enum JobState {
    /// The attempt with this number, counted from 1, is running.
    Attempting(u32),
    /// The raster file was written.
    Succeeded,
    /// Every attempt timed out.
    Abandoned,
}

/// What became of an attempt.
#[derive(Clone, Copy, Debug, PartialEq, Eq, Structural)]
pub enum Event {
    /// The converter ended within its timeout.
    Completed,
    /// The converter was still running when the timeout passed.
    TimedOut,
}

/// What the caller does next for a job.
#[derive(Clone, Copy, Debug, PartialEq, Eq, Structural)]
pub enum Action {
    /// Start the converter and wait this many seconds.
    Run(u64),
    /// Stop the converter, report the failure of the frame, then start the
    /// converter again and wait this many seconds.
    Retry(u64),
    /// Delete the temporary vector file and count the frame as done.
    Finish,
    /// Stop the converter and log that the frame was given up.
    Abandon,
    /// The job has ended before; nothing is left to do.
    Nothing,
}

impl RetryPolicy {
    /// Three attempts, of 30, 60 and 90 seconds.
    pub fn standard() -> (p: RetryPolicy)
        ensures
            p == (RetryPolicy { base_timeout: 30, max_attempts: 3 }),
    {
        RetryPolicy { base_timeout: 30, max_attempts: 3 }
    }

    /// The seconds granted to an attempt.
    pub open spec fn timeout_of(self, attempt: u32) -> u64 {
        (self.base_timeout as u64 * attempt as u64) as u64
    }

    /// The seconds granted to an attempt.
    pub fn timeout(&self, attempt: u32) -> (t: u64)
        ensures
            t == self.timeout_of(attempt),
            t == self.base_timeout * attempt,
    {
        assert(self.base_timeout as u64 * attempt as u64 <= 0xffff_ffff * 0xffff_ffff)
            by (nonlinear_arith)
            requires
                self.base_timeout <= 0xffff_ffff,
                attempt <= 0xffff_ffff,
        ;
        self.base_timeout as u64 * attempt as u64
    }

    /// The state and the action with which a job begins.
    pub open spec fn begin(self) -> (JobState, Action) {
        if self.max_attempts >= 1 {
            (JobState::Attempting(1), Action::Run(self.timeout_of(1)))
        } else {
            (JobState::Abandoned, Action::Abandon)
        }
    }

    /// The state of a job after an event, and what the caller does next.
    ///
    /// A completed attempt ends the job with success. An attempt that timed
    /// out is followed by the next one, with a longer timeout, until the last
    /// attempt has timed out: then the job is abandoned. A job that has ended
    /// stays as it is.
    pub open spec fn next(self, state: JobState, event: Event) -> (JobState, Action) {
        match state {
            JobState::Attempting(k) => match event {
                Event::Completed => (JobState::Succeeded, Action::Finish),
                Event::TimedOut => if k < self.max_attempts {
                    (
                        JobState::Attempting((k + 1) as u32),
                        Action::Retry(self.timeout_of((k + 1) as u32)),
                    )
                } else {
                    (JobState::Abandoned, Action::Abandon)
                },
            },
            JobState::Succeeded => (JobState::Succeeded, Action::Nothing),
            JobState::Abandoned => (JobState::Abandoned, Action::Nothing),
        }
    }

    /// The state of a job after a run of timeouts.
    pub open spec fn after_timeouts(self, n: nat) -> JobState
        decreases n,
    {
        if n == 0 {
            self.begin().0
        } else {
            self.next(self.after_timeouts((n - 1) as nat), Event::TimedOut).0
        }
    }

    /// Begins a job.
    pub fn start(&self) -> (r: (JobState, Action))
        ensures
            r == self.begin(),
    {
        if self.max_attempts >= 1 {
            (JobState::Attempting(1), Action::Run(self.timeout(1)))
        } else {
            (JobState::Abandoned, Action::Abandon)
        }
    }

    /// Takes a job from one state to the next.
    pub fn step(&self, state: JobState, event: Event) -> (r: (JobState, Action))
        ensures
            r == self.next(state, event),
    {
        match state {
            JobState::Attempting(k) => match event {
                Event::Completed => (JobState::Succeeded, Action::Finish),
                Event::TimedOut => {
                    if k < self.max_attempts {
                        (JobState::Attempting(k + 1), Action::Retry(self.timeout(k + 1)))
                    } else {
                        (JobState::Abandoned, Action::Abandon)
                    }
                },
            },
            JobState::Succeeded => (JobState::Succeeded, Action::Nothing),
            JobState::Abandoned => (JobState::Abandoned, Action::Nothing),
        }
    }
}

/// The attempts of the standard policy may take 30, 60 and 90 seconds.
pub proof fn lemma_standard_timeouts()
    ensures
        (RetryPolicy { base_timeout: 30, max_attempts: 3 }).timeout_of(1) == 30,
        (RetryPolicy { base_timeout: 30, max_attempts: 3 }).timeout_of(2) == 60,
        (RetryPolicy { base_timeout: 30, max_attempts: 3 }).timeout_of(3) == 90,
{
    assert(30u64 * 1u64 == 30 && 30u64 * 2u64 == 60 && 30u64 * 3u64 == 90) by (nonlinear_arith);
}

/// A converter that never ends in time is tried exactly as often as the
/// policy allows: while fewer attempts have timed out the job is at its next
/// attempt, and from then on it is abandoned.
pub proof fn lemma_always_timing_out(policy: RetryPolicy, n: nat)
    ensures
        n < policy.max_attempts ==> policy.after_timeouts(n) == JobState::Attempting(
            (n + 1) as u32,
        ),
        n >= policy.max_attempts ==> policy.after_timeouts(n) == JobState::Abandoned,
    decreases n,
{
    if n > 0 {
        lemma_always_timing_out(policy, (n - 1) as nat);
    }
}

/// How many of the jobs are in the given final state.
pub open spec fn count(jobs: Seq<JobState>, state: JobState) -> nat
    decreases jobs.len(),
{
    if jobs.len() == 0 {
        0
    } else {
        count(jobs.drop_last(), state) + if jobs.last() == state {
            1nat
        } else {
            0nat
        }
    }
}

/// The conversion jobs of a batch, one for each frame, under one policy.
///
/// Jobs are independent: an event for one job changes no other job.
pub struct Batch {
    policy: RetryPolicy,
    jobs: Vec<JobState>,
}

/// The model of [`Batch`].
pub struct BatchView {
    pub policy: RetryPolicy,
    pub jobs: Seq<JobState>,
}

impl View for Batch {
    type V = BatchView;

    closed spec fn view(&self) -> BatchView {
        BatchView { policy: self.policy, jobs: self.jobs@ }
    }
}

impl BatchView {
    /// Every job has ended.
    pub open spec fn settled(self) -> bool {
        forall|i: int| 0 <= i < self.jobs.len() ==> !(#[trigger] self.jobs[i] is Attempting)
    }
}

impl Batch {
    /// A batch of `frames` jobs, each at its beginning. The caller performs
    /// the first action of the policy for each of them.
    pub fn new(policy: RetryPolicy, frames: usize) -> (b: Batch)
        ensures
            b@.policy == policy,
            b@.jobs == Seq::new(frames as nat, |i: int| policy.begin().0),
    {
        let first = policy.start().0;
        let mut jobs: Vec<JobState> = Vec::new();
        let mut i: usize = 0;
        while i < frames
            invariant
                i <= frames,
                first == policy.begin().0,
                jobs@ == Seq::new(i as nat, |k: int| policy.begin().0),
            decreases frames - i,
        {
            jobs.push(first);
            assert(jobs@ =~= Seq::new((i + 1) as nat, |k: int| policy.begin().0));
            i += 1;
        }
        Batch { policy, jobs }
    }

    /// The number of jobs.
    pub fn len(&self) -> (n: usize)
        ensures
            n == self@.jobs.len(),
    {
        self.jobs.len()
    }

    /// The state of a job.
    pub fn state(&self, job: usize) -> (s: Option<JobState>)
        ensures
            s == if job < self@.jobs.len() {
                Some(self@.jobs[job as int])
            } else {
                None::<JobState>
            },
    {
        if job < self.jobs.len() {
            Some(self.jobs[job])
        } else {
            None
        }
    }

    /// Reports an event of a job and says what to do next. A job that does
    /// not exist has nothing to do.
    pub fn handle(&mut self, job: usize, event: Event) -> (action: Action)
        ensures
            final(self)@.policy == old(self)@.policy,
            job < old(self)@.jobs.len() ==> {
                &&& action == old(self)@.policy.next(old(self)@.jobs[job as int], event).1
                &&& final(self)@.jobs == old(self)@.jobs.update(
                    job as int,
                    old(self)@.policy.next(old(self)@.jobs[job as int], event).0,
                )
            },
            job >= old(self)@.jobs.len() ==> action == Action::Nothing && final(self)@.jobs == old(
                self,
            )@.jobs,
    {
        if job >= self.jobs.len() {
            return Action::Nothing;
        }
        let (state, action) = self.policy.step(self.jobs[job], event);
        self.jobs.set(job, state);
        action
    }

    fn tally(&self, state: JobState) -> (n: usize)
        ensures
            n == count(self@.jobs, state),
    {
        let mut n: usize = 0;
        let mut i: usize = 0;
        assert(self.jobs@.take(0) =~= Seq::<JobState>::empty());
        while i < self.jobs.len()
            invariant
                i <= self.jobs.len(),
                n == count(self.jobs@.take(i as int), state),
                n <= i,
            decreases self.jobs.len() - i,
        {
            assert(self.jobs@.take(i + 1).drop_last() =~= self.jobs@.take(i as int));
            if self.jobs[i] == state {
                n += 1;
            }
            i += 1;
        }
        assert(self.jobs@.take(self.jobs.len() as int) =~= self.jobs@);
        n
    }

    /// How many frames were converted.
    pub fn completed(&self) -> (n: usize)
        ensures
            n == count(self@.jobs, JobState::Succeeded),
    {
        self.tally(JobState::Succeeded)
    }

    /// How many frames were given up.
    pub fn abandoned(&self) -> (n: usize)
        ensures
            n == count(self@.jobs, JobState::Abandoned),
    {
        self.tally(JobState::Abandoned)
    }

    /// Whether every job has ended, so that the video can be assembled.
    pub fn settled(&self) -> (b: bool)
        ensures
            b == self@.settled(),
    {
        let mut i: usize = 0;
        while i < self.jobs.len()
            invariant
                i <= self.jobs.len(),
                forall|k: int| 0 <= k < i ==> !(#[trigger] self.jobs@[k] is Attempting),
            decreases self.jobs.len() - i,
        {
            match self.jobs[i] {
                JobState::Attempting(_) => {
                    return false;
                },
                _ => {},
            }
            i += 1;
        }
        true
    }
}

/// `n` in decimal with zeros in front up to a width of five.
pub open spec fn padded(n: nat) -> Seq<char> {
    let digits = decimal(n);
    if digits.len() >= 5 {
        digits
    } else {
        Seq::new((5 - digits.len()) as nat, |i: int| '0') + digits
    }
}

/// The directory of the frames, with the separator.
pub open spec fn frames_dir() -> Seq<char> {
    seq!['f', 'r', 'a', 'm', 'e', 's', '/']
}

/// The raster file of the frame with the given number: `frames/NNNNN.png`.
pub open spec fn raster_path(number: nat) -> Seq<char> {
    frames_dir() + padded(number) + seq!['.', 'p', 'n', 'g']
}

/// The vector file of the frame with the given number when all frames are
/// saved as vector documents: `frames/NNNNN.svg`.
pub open spec fn vector_path(number: nat) -> Seq<char> {
    frames_dir() + padded(number) + seq!['.', 's', 'v', 'g']
}

/// The temporary vector file from which the frame with the given number is
/// converted: `frames/_tmp_frame_N_.svg`.
pub open spec fn temp_path(number: nat) -> Seq<char> {
    frames_dir() + seq!['_', 't', 'm', 'p', '_', 'f', 'r', 'a', 'm', 'e', '_'] + decimal(number)
        + seq!['_', '.', 's', 'v', 'g']
}

fn push_padded(out: &mut Vec<char>, number: u64)
    ensures
        final(out)@ == old(out)@ + padded(number as nat),
{
    let mut digits: Vec<char> = Vec::new();
    push_decimal(&mut digits, number);
    assert(digits@ =~= decimal(number as nat));
    let mut zeros: Vec<char> = Vec::new();
    let mut i: usize = digits.len();
    while i < 5
        invariant
            zeros@ == Seq::new((i - digits.len()) as nat, |k: int| '0'),
            digits.len() <= i,
            digits.len() >= 5 ==> zeros@.len() == 0,
            digits.len() < 5 ==> i <= 5,
        decreases 5 - i,
    {
        zeros.push('0');
        assert(zeros@ =~= Seq::new((i + 1 - digits.len()) as nat, |k: int| '0'));
        i += 1;
    }
    push_all(out, zeros.as_slice());
    push_all(out, digits.as_slice());
    assert(zeros@ + digits@ =~= padded(number as nat));
    assert(old(out)@ + zeros@ + digits@ =~= old(out)@ + (zeros@ + digits@));
}

/// The raster file of a frame, numbered from 1.
pub fn raster_name(number: u64) -> (s: String)
    ensures
        s@ == raster_path(number as nat),
{
    let mut out: Vec<char> = Vec::new();
    let dir = ['f', 'r', 'a', 'm', 'e', 's', '/'];
    let ext = ['.', 'p', 'n', 'g'];
    push_all(&mut out, &dir);
    push_padded(&mut out, number);
    push_all(&mut out, &ext);
    assert(out@ =~= raster_path(number as nat));
    string_of(out.as_slice())
}

/// The vector file of a frame, numbered from 1.
pub fn vector_name(number: u64) -> (s: String)
    ensures
        s@ == vector_path(number as nat),
{
    let mut out: Vec<char> = Vec::new();
    let dir = ['f', 'r', 'a', 'm', 'e', 's', '/'];
    let ext = ['.', 's', 'v', 'g'];
    push_all(&mut out, &dir);
    push_padded(&mut out, number);
    push_all(&mut out, &ext);
    assert(out@ =~= vector_path(number as nat));
    string_of(out.as_slice())
}

/// The temporary vector file of a frame, numbered from 1.
pub fn temp_name(number: u64) -> (s: String)
    ensures
        s@ == temp_path(number as nat),
{
    let mut out: Vec<char> = Vec::new();
    let dir = ['f', 'r', 'a', 'm', 'e', 's', '/'];
    let stem = ['_', 't', 'm', 'p', '_', 'f', 'r', 'a', 'm', 'e', '_'];
    let ext = ['_', '.', 's', 'v', 'g'];
    push_all(&mut out, &dir);
    push_all(&mut out, &stem);
    push_decimal(&mut out, number);
    push_all(&mut out, &ext);
    assert(out@ =~= temp_path(number as nat));
    string_of(out.as_slice())
}

} // verus!
