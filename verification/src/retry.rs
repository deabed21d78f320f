//! Bounded retry of a fallible operation, with the pause to take between attempts.

use vstd::prelude::*;

verus! {

/// The number of attempts that a unit of work gets unless told otherwise.
pub const DEFAULT_MAX_ATTEMPTS: u32 = 3;

/// The step, in milliseconds, by which the delay between download attempts grows.
pub const DOWNLOAD_BACKOFF_STEP_MILLIS: u64 = 500;

/// The seconds counted down before a retry that the operator was asked about.
pub const OPERATOR_COUNTDOWN_SECS: u64 = 10;

/// What one attempt at a request came to, as the transport saw it.
#[derive(Clone, Copy, Debug, PartialEq, Eq, Structural)]
pub enum AttemptReport {
    /// No response came: the request failed in the transport.
    NoResponse,
    /// A response came with this status; its body was read to the end, or not.
    Response { status: u16, body_read: bool },
    /// The external download manager was started, or not, and ended well, or not.
    ExternalExit { started: bool, success: bool },
    /// The local file or its directory could not be made or written.
    LocalFileFailed,
}

/// Whether `status` is one of the HTTP statuses that mean success: 200 to 299.
pub open spec fn is_success_status(status: u16) -> bool {
    200 <= status < 300
}

/// Whether the attempt that `report` describes did its work.
pub open spec fn succeeded(report: AttemptReport) -> bool {
    match report {
        AttemptReport::NoResponse => false,
        AttemptReport::Response { status, body_read } => is_success_status(status) && body_read,
        AttemptReport::ExternalExit { started, success } => started && success,
        AttemptReport::LocalFileFailed => false,
    }
}

/// Whether the attempt that `report` describes failed in a way that no
/// later attempt mends: the fault lies with the local file. Every other
/// failure, of the transport, the status or the body, may pass.
pub open spec fn is_beyond_retry(report: AttemptReport) -> bool {
    report is LocalFileFailed
}

/// Whether the attempt that `report` describes did its work.
pub fn attempt_succeeded(report: AttemptReport) -> (ok: bool)
    ensures
        ok == succeeded(report),
{
    match report {
        AttemptReport::NoResponse => false,
        AttemptReport::Response { status, body_read } => 200 <= status && status < 300 && body_read,
        AttemptReport::ExternalExit { started, success } => started && success,
        AttemptReport::LocalFileFailed => false,
    }
}

/// The way to hold off between a failed attempt and the next one.
#[derive(Clone, Copy, Debug, PartialEq, Eq, Structural)]
pub enum Backoff {
    /// The same delay after every failure.
    Fixed { millis: u64 },
    /// A delay that grows by `step_millis` with every failure.
    Linear { step_millis: u64 },
    /// After every failure, wait until the operator confirms, then count down.
    Interactive { countdown_secs: u64 },
    /// After the first failure, wait until the operator confirms; after that
    /// one and each later one, count down.
    InteractiveOnce { countdown_secs: u64 },
}

/// What to do between two attempts.
#[derive(Clone, Copy, Debug, PartialEq, Eq, Structural)]
pub enum Pause {
    /// Let this many milliseconds pass.
    Sleep { millis: u64 },
    /// Block until the operator confirms, then count down this many seconds.
    AwaitOperator { countdown_secs: u64 },
    /// Count down this many seconds.
    Countdown { secs: u64 },
}

/// The pause that `backoff` asks for after the failure of attempt number
/// `failed_attempt`, counted from 1. A delay that would not fit is the
/// longest that does.
pub open spec fn pause_after(backoff: Backoff, failed_attempt: u32) -> Pause {
    match backoff {
        Backoff::Fixed { millis } => Pause::Sleep { millis },
        Backoff::Linear { step_millis } => Pause::Sleep {
            millis: if step_millis * failed_attempt <= u64::MAX {
                (step_millis * failed_attempt) as u64
            } else {
                u64::MAX
            },
        },
        Backoff::Interactive { countdown_secs } => Pause::AwaitOperator { countdown_secs },
        Backoff::InteractiveOnce { countdown_secs } => if failed_attempt <= 1 {
            Pause::AwaitOperator { countdown_secs }
        } else {
            Pause::Countdown { secs: countdown_secs }
        },
    }
}

/// The pause to take after the failure of attempt number `failed_attempt`.
pub fn backoff_pause(backoff: Backoff, failed_attempt: u32) -> (pause: Pause)
    ensures
        pause == pause_after(backoff, failed_attempt),
{
    match backoff {
        Backoff::Fixed { millis } => Pause::Sleep { millis },
        Backoff::Linear { step_millis } => {
            let millis = match step_millis.checked_mul(failed_attempt as u64) {
                Some(product) => product,
                None => u64::MAX,
            };
            Pause::Sleep { millis }
        },
        Backoff::Interactive { countdown_secs } => Pause::AwaitOperator { countdown_secs },
        Backoff::InteractiveOnce { countdown_secs } => if failed_attempt <= 1 {
            Pause::AwaitOperator { countdown_secs }
        } else {
            Pause::Countdown { secs: countdown_secs }
        },
    }
}

/// How often to try, and how to hold off in between.
#[derive(Clone, Copy, Debug, PartialEq, Eq, Structural)]
pub struct RetryPolicy {
    pub max_attempts: u32,
    pub backoff: Backoff,
}

/// Where a retried unit of work stands.
#[derive(Clone, Copy, Debug, PartialEq, Eq, Structural)]
pub enum RetryStatus {
    /// The next attempt may begin.
    Ready,
    /// An attempt has begun and its outcome is awaited.
    InFlight,
    /// An attempt succeeded: the work is done.
    Succeeded,
    /// The attempts are used up: the work has failed for good.
    Exhausted,
    /// An attempt failed in a way that no later one mends: the work has
    /// failed for good, with attempts left.
    Abandoned,
}

/// What follows the end of an attempt.
#[derive(Clone, Copy, Debug, PartialEq, Eq, Structural)]
pub enum Verdict {
    /// The work is done.
    Done,
    /// Take this pause, then begin the next attempt.
    RetryAfter { pause: Pause },
    /// The work has failed for good, with its last attempt or with a
    /// failure that no later attempt mends: report the failure of this unit
    /// of work.
    GiveUp,
    /// No attempt was in flight: nothing changed.
    NotInFlight,
}

/// The state of a retried unit of work, as contracts see it.
pub struct RetryState {
    pub policy: RetryPolicy,
    pub attempts: u32,
    pub status: RetryStatus,
}

impl RetryState {
    /// The state before the first attempt.
    pub open spec fn fresh(policy: RetryPolicy) -> RetryState {
        RetryState {
            policy,
            attempts: 0,
            status: if policy.max_attempts == 0 {
                RetryStatus::Exhausted
            } else {
                RetryStatus::Ready
            },
        }
    }

    /// No more attempts were made than the policy allows, and the status
    /// agrees with their number.
    pub open spec fn wf(self) -> bool {
        &&& self.attempts <= self.policy.max_attempts
        &&& self.status == RetryStatus::Ready ==> self.attempts < self.policy.max_attempts
        &&& self.status == RetryStatus::InFlight ==> self.attempts >= 1
        &&& self.status == RetryStatus::Succeeded ==> self.attempts >= 1
        &&& self.status == RetryStatus::Exhausted ==> self.attempts == self.policy.max_attempts
        &&& self.status == RetryStatus::Abandoned ==> self.attempts >= 1
    }

    /// Whether an attempt may begin.
    pub open spec fn may_begin(self) -> bool {
        self.status == RetryStatus::Ready
    }

    /// The state once the next attempt has begun.
    pub open spec fn begun(self) -> RetryState {
        if self.may_begin() {
            RetryState { attempts: (self.attempts + 1) as u32, status: RetryStatus::InFlight, ..self }
        } else {
            self
        }
    }

    /// The state once the attempt in flight has ended.
    pub open spec fn ended(self, success: bool) -> RetryState {
        if self.status != RetryStatus::InFlight {
            self
        } else if success {
            RetryState { status: RetryStatus::Succeeded, ..self }
        } else if self.attempts >= self.policy.max_attempts {
            RetryState { status: RetryStatus::Exhausted, ..self }
        } else {
            RetryState { status: RetryStatus::Ready, ..self }
        }
    }

    /// What the end of the attempt in flight leads to.
    pub open spec fn verdict(self, success: bool) -> Verdict {
        if self.status != RetryStatus::InFlight {
            Verdict::NotInFlight
        } else if success {
            Verdict::Done
        } else if self.attempts >= self.policy.max_attempts {
            Verdict::GiveUp
        } else {
            Verdict::RetryAfter { pause: pause_after(self.policy.backoff, self.attempts) }
        }
    }

    /// The state once the attempt in flight has ended as `report` says.
    pub open spec fn ended_with(self, report: AttemptReport) -> RetryState {
        if self.status == RetryStatus::InFlight && is_beyond_retry(report) {
            RetryState { status: RetryStatus::Abandoned, ..self }
        } else {
            self.ended(succeeded(report))
        }
    }

    /// What the end of the attempt in flight leads to, where it ended as
    /// `report` says.
    pub open spec fn verdict_with(self, report: AttemptReport) -> Verdict {
        if self.status == RetryStatus::InFlight && is_beyond_retry(report) {
            Verdict::GiveUp
        } else {
            self.verdict(succeeded(report))
        }
    }

    /// The state after as many attempts as the policy and `outcomes` allow:
    /// attempt after attempt begins and ends with the next of `outcomes`,
    /// until the work is done, has failed for good, or `outcomes` is used up.
    pub open spec fn run(self, outcomes: Seq<bool>) -> RetryState
        decreases outcomes.len(),
    {
        if outcomes.len() == 0 || !self.may_begin() {
            self
        } else {
            self.begun().ended(outcomes[0]).run(outcomes.skip(1))
        }
    }
}

/// One unit of work that is tried until it succeeds or its attempts are used up.
pub struct Retry {
    policy: RetryPolicy,
    attempts: u32,
    status: RetryStatus,
}

impl View for Retry {
    type V = RetryState;

    closed spec fn view(&self) -> RetryState {
        RetryState { policy: self.policy, attempts: self.attempts, status: self.status }
    }
}

impl Retry {
    #[verifier::type_invariant]
    spec fn well_formed(self) -> bool {
        self@.wf()
    }

    /// The policy of downloads: three attempts, with a delay that grows by half a second.
    pub fn download_policy() -> (policy: RetryPolicy)
        ensures
            policy == (RetryPolicy {
                max_attempts: DEFAULT_MAX_ATTEMPTS,
                backoff: Backoff::Linear { step_millis: DOWNLOAD_BACKOFF_STEP_MILLIS },
            }),
    {
        RetryPolicy {
            max_attempts: DEFAULT_MAX_ATTEMPTS,
            backoff: Backoff::Linear { step_millis: DOWNLOAD_BACKOFF_STEP_MILLIS },
        }
    }

    /// The policy of an attended run: three attempts, and the operator is
    /// asked before every retry.
    pub fn attended_policy() -> (policy: RetryPolicy)
        ensures
            policy == (RetryPolicy {
                max_attempts: DEFAULT_MAX_ATTEMPTS,
                backoff: Backoff::Interactive { countdown_secs: OPERATOR_COUNTDOWN_SECS },
            }),
    {
        RetryPolicy {
            max_attempts: DEFAULT_MAX_ATTEMPTS,
            backoff: Backoff::Interactive { countdown_secs: OPERATOR_COUNTDOWN_SECS },
        }
    }

    /// A unit of work of which no attempt was made yet. With a policy of no
    /// attempts it has failed for good from the start.
    pub fn new(policy: RetryPolicy) -> (retry: Self)
        ensures
            retry@ == RetryState::fresh(policy),
            retry@.wf(),
    {
        let status = if policy.max_attempts == 0 {
            RetryStatus::Exhausted
        } else {
            RetryStatus::Ready
        };
        Retry { policy, attempts: 0, status }
    }

    /// Begins the next attempt and returns its number, counted from 1; or
    /// returns `None` and changes nothing, where no attempt may begin: one is
    /// in flight, the work is done, or the attempts are used up.
    pub fn begin_attempt(&mut self) -> (attempt: Option<u32>)
        ensures
            old(self)@.wf(),
            final(self)@ == old(self)@.begun(),
            final(self)@.wf(),
            attempt == if old(self)@.may_begin() {
                Some(final(self)@.attempts)
            } else {
                None::<u32>
            },
    {
        proof {
            use_type_invariant(&*self);
        }
        if self.status == RetryStatus::Ready {
            let number = self.attempts + 1;
            *self = Retry { policy: self.policy, attempts: number, status: RetryStatus::InFlight };
            Some(number)
        } else {
            None
        }
    }

    /// Ends the attempt in flight with its outcome and says what follows.
    pub fn end_attempt(&mut self, success: bool) -> (verdict: Verdict)
        ensures
            old(self)@.wf(),
            final(self)@ == old(self)@.ended(success),
            final(self)@.wf(),
            verdict == old(self)@.verdict(success),
    {
        proof {
            use_type_invariant(&*self);
        }
        if self.status != RetryStatus::InFlight {
            Verdict::NotInFlight
        } else if success {
            self.status = RetryStatus::Succeeded;
            Verdict::Done
        } else if self.attempts >= self.policy.max_attempts {
            self.status = RetryStatus::Exhausted;
            Verdict::GiveUp
        } else {
            self.status = RetryStatus::Ready;
            Verdict::RetryAfter { pause: backoff_pause(self.policy.backoff, self.attempts) }
        }
    }

    /// Ends the attempt in flight with what was reported of it. A failure
    /// of the local file ends the work at once; any other failure is tried
    /// again while the policy allows.
    pub fn end_attempt_with(&mut self, report: AttemptReport) -> (verdict: Verdict)
        ensures
            old(self)@.wf(),
            final(self)@ == old(self)@.ended_with(report),
            final(self)@.wf(),
            verdict == old(self)@.verdict_with(report),
    {
        proof {
            use_type_invariant(&*self);
        }
        match (self.status, report) {
            (RetryStatus::InFlight, AttemptReport::LocalFileFailed) => {
                self.status = RetryStatus::Abandoned;
                Verdict::GiveUp
            },
            _ => self.end_attempt(attempt_succeeded(report)),
        }
    }

    /// The number of attempts begun so far.
    pub fn attempts_made(&self) -> (attempts: u32)
        ensures
            attempts == self@.attempts,
            self@.wf(),
    {
        proof {
            use_type_invariant(self);
        }
        self.attempts
    }

    /// Where the work stands.
    pub fn status(&self) -> (status: RetryStatus)
        ensures
            status == self@.status,
    {
        self.status
    }
}

/// Whether attempt number `attempt` of `op` can end in a failure.
pub open spec fn can_fail<T, E, Op: Fn(u32) -> Result<T, E>>(op: Op, attempt: u32) -> bool {
    exists|error: E| op.ensures((attempt,), Err::<T, E>(error))
}

/// Whether every attempt of `op` before number `attempt` can end in a failure.
pub open spec fn can_fail_before<T, E, Op: Fn(u32) -> Result<T, E>>(op: Op, attempt: u32) -> bool {
    forall|earlier: u32| 1 <= earlier < attempt ==> #[trigger] can_fail::<T, E, Op>(op, earlier)
}

/// Tries `op` until it succeeds or the attempts of `policy` are used up, and
/// holds off with `hold` between two attempts. `op` is handed the number of
/// the attempt, counted from 1, and the attempts are made in that order,
/// each once.
///
/// The result is what the last attempt gave. A success is the first one:
/// every attempt before it was made and failed. A failure is that of the
/// attempt that used up the policy: every attempt was made and failed. The
/// result is `None` where the policy allows no attempt; then `op` is not
/// invoked.
pub fn with_retry<T, E, Op, Hold>(policy: RetryPolicy, op: Op, hold: Hold) -> (result: Option<
    Result<T, E>,
>) where Op: Fn(u32) -> Result<T, E>, Hold: Fn(Pause)
    requires
        forall|attempt: u32| 1 <= attempt <= policy.max_attempts ==> op.requires((attempt,)),
        forall|pause: Pause| hold.requires((pause,)),
    ensures
        result is None <==> policy.max_attempts == 0,
        result matches Some(Ok(value)) ==> exists|attempt: u32|
            1 <= attempt <= policy.max_attempts && #[trigger] op.ensures((attempt,), Ok(value))
                && can_fail_before::<T, E, Op>(op, attempt),
        result matches Some(Err(error)) ==> op.ensures((policy.max_attempts,), Err(error))
            && can_fail_before::<T, E, Op>(op, policy.max_attempts),
{
    let mut retry = Retry::new(policy);
    loop
        invariant
            retry@.wf(),
            retry@.policy == policy,
            retry@.status == RetryStatus::Ready || (retry@.status == RetryStatus::Exhausted
                && policy.max_attempts == 0),
            can_fail_before::<T, E, Op>(op, (retry@.attempts + 1) as u32),
            forall|attempt: u32| 1 <= attempt <= policy.max_attempts ==> op.requires((attempt,)),
            forall|pause: Pause| hold.requires((pause,)),
        decreases policy.max_attempts - retry@.attempts,
    {
        let attempt = match retry.begin_attempt() {
            Some(number) => number,
            None => {
                return None;
            },
        };
        let outcome = op(attempt);
        match retry.end_attempt(outcome.is_ok()) {
            Verdict::RetryAfter { pause } => {
                proof {
                    assert(op.ensures((attempt,), Err::<T, E>(outcome->Err_0)));
                    assert(can_fail::<T, E, Op>(op, attempt));
                }
                hold(pause);
            },
            _ => {
                proof {
                    if outcome is Ok {
                        assert(op.ensures((attempt,), Ok::<T, E>(outcome->Ok_0)));
                    }
                }
                return Some(outcome);
            },
        }
    }
}

/// Whether every outcome in `outcomes` is a failure.
pub open spec fn all_failed(outcomes: Seq<bool>) -> bool {
    forall|i: int| 0 <= i < outcomes.len() ==> !outcomes[i]
}

/// However the attempts end, no more of them are made than the policy allows.
pub proof fn lemma_never_more_than_max_attempts(state: RetryState, outcomes: Seq<bool>)
    requires
        state.wf(),
    ensures
        state.run(outcomes).wf(),
        state.run(outcomes).attempts <= state.policy.max_attempts,
        state.run(outcomes).policy == state.policy,
        state.run(outcomes).attempts >= state.attempts,
    decreases outcomes.len(),
{
    if outcomes.len() > 0 && state.may_begin() {
        lemma_never_more_than_max_attempts(state.begun().ended(outcomes[0]), outcomes.skip(1));
    }
}

/// An operation that fails every time is tried exactly as often as the
/// policy allows, and then given up: not once less, not once more.
pub proof fn lemma_gives_up_after_max_attempts(policy: RetryPolicy, outcomes: Seq<bool>)
    requires
        all_failed(outcomes),
        outcomes.len() >= policy.max_attempts,
    ensures
        RetryState::fresh(policy).run(outcomes).attempts == policy.max_attempts,
        RetryState::fresh(policy).run(outcomes).status == RetryStatus::Exhausted,
{
    lemma_failing_run(RetryState::fresh(policy), outcomes);
}

/// The work is done with the first attempt that succeeds, and no attempt is
/// made after it.
pub proof fn lemma_stops_at_first_success(policy: RetryPolicy, outcomes: Seq<bool>, first: int)
    requires
        0 <= first < outcomes.len(),
        first < policy.max_attempts,
        outcomes[first],
        all_failed(outcomes.take(first)),
    ensures
        RetryState::fresh(policy).run(outcomes).attempts == first + 1,
        RetryState::fresh(policy).run(outcomes).status == RetryStatus::Succeeded,
{
    lemma_succeeding_run(RetryState::fresh(policy), outcomes, first);
}

proof fn lemma_failing_run(state: RetryState, outcomes: Seq<bool>)
    requires
        state.wf(),
        state.status == RetryStatus::Ready || state.status == RetryStatus::Exhausted,
        all_failed(outcomes),
        outcomes.len() >= state.policy.max_attempts - state.attempts,
    ensures
        state.run(outcomes).attempts == state.policy.max_attempts,
        state.run(outcomes).status == RetryStatus::Exhausted,
    decreases outcomes.len(),
{
    if outcomes.len() > 0 && state.may_begin() {
        let next = state.begun().ended(outcomes[0]);
        assert(!outcomes[0]);
        let rest = outcomes.skip(1);
        assert forall|i: int| 0 <= i < rest.len() implies !#[trigger] rest[i] by {
            assert(rest[i] == outcomes[i + 1]);
        }
        lemma_failing_run(next, outcomes.skip(1));
    }
}

proof fn lemma_succeeding_run(state: RetryState, outcomes: Seq<bool>, first: int)
    requires
        state.wf(),
        state.status == RetryStatus::Ready,
        0 <= first < outcomes.len(),
        state.attempts + first < state.policy.max_attempts,
        outcomes[first],
        all_failed(outcomes.take(first)),
    ensures
        state.run(outcomes).attempts == state.attempts + first + 1,
        state.run(outcomes).status == RetryStatus::Succeeded,
    decreases outcomes.len(),
{
    let next = state.begun().ended(outcomes[0]);
    if first == 0 {
        assert(next.run(outcomes.skip(1)) == next);
    } else {
        assert(outcomes.take(first)[0] == outcomes[0]);
        assert(outcomes.skip(1)[first - 1] == outcomes[first]);
        let rest = outcomes.skip(1).take(first - 1);
        assert forall|i: int| 0 <= i < rest.len() implies !#[trigger] rest[i] by {
            assert(rest[i] == outcomes.take(first)[i + 1]);
        }
        lemma_succeeding_run(next, outcomes.skip(1), first - 1);
    }
}

} // verus!
