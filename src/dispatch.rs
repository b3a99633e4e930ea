use vstd::prelude::*;

verus! {

/// Total retry budget of a now-playing notice, in milliseconds.
pub const NOW_PLAYING_BUDGET_MS: u64 = 10_000;

/// Total retry budget of a scrobble, in milliseconds.
pub const SCROBBLE_BUDGET_MS: u64 = 30_000;

/// Wait before the first retry, in milliseconds.
pub const BASE_DELAY_MS: u64 = 500;

/// Each further retry waits this many times longer than the one before.
pub const BACKOFF_MULTIPLIER: u64 = 2;

/// The two kinds of notification sent to the services.
#[derive(Debug, Clone, Copy, PartialEq, Eq, Structural)]
pub enum EventKind {
    NowPlaying,
    Scrobble,
}

/// An exponential backoff: retries stop once the next wait would end past `max_elapsed_ms`.
#[derive(Debug, Clone, Copy, PartialEq, Eq, Structural)]
pub struct RetryPolicy {
    pub max_elapsed_ms: u64,
    pub base_delay_ms: u64,
    pub multiplier: u64,
}

/// The policy for each kind of event: a lost scrobble is lost for good, so it
/// gets the longer budget.
pub open spec fn policy_for(kind: EventKind) -> RetryPolicy {
    RetryPolicy {
        max_elapsed_ms: match kind {
            EventKind::NowPlaying => NOW_PLAYING_BUDGET_MS,
            EventKind::Scrobble => SCROBBLE_BUDGET_MS,
        },
        base_delay_ms: BASE_DELAY_MS,
        multiplier: BACKOFF_MULTIPLIER,
    }
}

/// `a * b`, or the largest `u64` where the product does not fit.
pub open spec fn saturating_product(a: u64, b: u64) -> u64 {
    if a * b > u64::MAX {
        u64::MAX
    } else {
        (a * b) as u64
    }
}

/// The wait before retry number `attempt` (counted from 0).
pub open spec fn delay_spec(p: RetryPolicy, attempt: nat) -> u64
    decreases attempt,
{
    if attempt == 0 {
        p.base_delay_ms
    } else {
        saturating_product(delay_spec(p, (attempt - 1) as nat), p.multiplier)
    }
}

impl RetryPolicy {
    /// The policy for a kind of event.
    pub fn for_event(kind: EventKind) -> (r: RetryPolicy)
        ensures
            r == policy_for(kind),
    {
        let max_elapsed_ms = match kind {
            EventKind::NowPlaying => NOW_PLAYING_BUDGET_MS,
            EventKind::Scrobble => SCROBBLE_BUDGET_MS,
        };
        RetryPolicy { max_elapsed_ms, base_delay_ms: BASE_DELAY_MS, multiplier: BACKOFF_MULTIPLIER }
    }

    /// The wait before retry number `attempt`.
    pub fn delay_for(&self, attempt: u32) -> (r: u64)
        ensures
            r == delay_spec(*self, attempt as nat),
    {
        let mut delay = self.base_delay_ms;
        let mut i: u32 = 0;
        while i < attempt
            invariant
                i <= attempt,
                delay == delay_spec(*self, i as nat),
            decreases attempt - i,
        {
            delay = delay.checked_mul(self.multiplier).unwrap_or(u64::MAX);
            i = i + 1;
        }
        delay
    }
}

/// Where the delivery of one event to one service stands.
#[derive(Debug)]
pub enum Outcome {
    Pending,
    Delivered,
    /// Given up, with the last error the service reported.
    Failed(String),
}

pub ghost enum OutcomeView {
    Pending,
    Delivered,
    Failed(Seq<char>),
}

impl View for Outcome {
    type V = OutcomeView;

    open spec fn view(&self) -> OutcomeView {
        match self {
            Outcome::Pending => OutcomeView::Pending,
            Outcome::Delivered => OutcomeView::Delivered,
            Outcome::Failed(e) => OutcomeView::Failed(e@),
        }
    }
}

/// What the caller does next for one service.
#[derive(Debug, Clone, Copy, PartialEq, Eq, Structural)]
pub enum Step {
    /// Wait this many milliseconds, then call the service again.
    RetryAfter(u64),
    /// Nothing more to send to this service.
    Done,
}

/// The delivery of one event to one service.
pub struct Delivery {
    /// Failed calls so far.
    pub failures: u32,
    pub outcome: Outcome,
}

pub ghost struct DeliveryView {
    pub failures: u32,
    pub outcome: OutcomeView,
}

impl View for Delivery {
    type V = DeliveryView;

    open spec fn view(&self) -> DeliveryView {
        DeliveryView { failures: self.failures, outcome: self.outcome@ }
    }
}

/// What one call's result does to a delivery, `elapsed_ms` after the first call.
pub open spec fn delivery_step(
    p: RetryPolicy,
    d: DeliveryView,
    result: Result<(), Seq<char>>,
    elapsed_ms: u64,
) -> (DeliveryView, Step) {
    match result {
        Ok(()) => (DeliveryView { outcome: OutcomeView::Delivered, ..d }, Step::Done),
        Err(e) => {
            let delay = delay_spec(p, d.failures as nat);
            if d.failures < u32::MAX && elapsed_ms + delay <= p.max_elapsed_ms {
                (
                    DeliveryView { failures: (d.failures + 1) as u32, outcome: OutcomeView::Pending },
                    Step::RetryAfter(delay),
                )
            } else {
                (DeliveryView { failures: d.failures, outcome: OutcomeView::Failed(e) }, Step::Done)
            }
        },
    }
}

pub open spec fn result_view(r: Result<(), String>) -> Result<(), Seq<char>> {
    match r {
        Ok(()) => Ok(()),
        Err(e) => Err(e@),
    }
}

/// Mathematical model of a [`Dispatcher`].
pub ghost struct DispatcherView {
    pub policy: RetryPolicy,
    pub deliveries: Seq<DeliveryView>,
}

/// Fans one event out to every configured service. Each service has a delivery
/// of its own, retried under the event's policy; no service's result touches
/// another's.
pub struct Dispatcher {
    policy: RetryPolicy,
    deliveries: Vec<Delivery>,
}

impl View for Dispatcher {
    type V = DispatcherView;

    closed spec fn view(&self) -> DispatcherView {
        DispatcherView {
            policy: self.policy,
            deliveries: self.deliveries@.map_values(|d: Delivery| d@),
        }
    }
}

impl Dispatcher {
    /// A dispatch of an event of `kind` to `service_count` services, none tried yet.
    pub fn new(kind: EventKind, service_count: usize) -> (r: Self)
        ensures
            r@.policy == policy_for(kind),
            r@.deliveries.len() == service_count,
            forall|k: int|
                0 <= k < service_count ==> #[trigger] r@.deliveries[k] == (DeliveryView {
                    failures: 0,
                    outcome: OutcomeView::Pending,
                }),
    {
        let mut deliveries: Vec<Delivery> = Vec::new();
        let mut i: usize = 0;
        while i < service_count
            invariant
                i <= service_count,
                deliveries@.len() == i,
                forall|k: int|
                    0 <= k < i ==> #[trigger] deliveries@[k]@ == (DeliveryView {
                        failures: 0,
                        outcome: OutcomeView::Pending,
                    }),
            decreases service_count - i,
        {
            deliveries.push(Delivery { failures: 0, outcome: Outcome::Pending });
            i = i + 1;
        }
        Dispatcher { policy: RetryPolicy::for_event(kind), deliveries }
    }

    /// Number of services.
    pub fn service_count(&self) -> (r: usize)
        ensures
            r == self@.deliveries.len(),
    {
        self.deliveries.len()
    }

    /// Whether service `k` still waits for a call.
    pub fn is_pending(&self, k: usize) -> (r: bool)
        requires
            k < self@.deliveries.len(),
        ensures
            r == (self@.deliveries[k as int].outcome == OutcomeView::Pending),
    {
        match self.deliveries[k].outcome {
            Outcome::Pending => true,
            _ => false,
        }
    }

    /// Records the result of a call to service `k`, made `elapsed_ms` after its
    /// first call, and says what to do next for that service.
    pub fn record(&mut self, k: usize, result: Result<(), String>, elapsed_ms: u64) -> (r: Step)
        requires
            k < old(self)@.deliveries.len(),
            old(self)@.deliveries[k as int].outcome == OutcomeView::Pending,
        ensures
            ({
                let (d, step) = delivery_step(
                    old(self)@.policy,
                    old(self)@.deliveries[k as int],
                    result_view(result),
                    elapsed_ms,
                );
                &&& r == step
                &&& final(self)@.policy == old(self)@.policy
                &&& final(self)@.deliveries == old(self)@.deliveries.update(k as int, d)
            }),
    {
        let failures = self.deliveries[k].failures;
        let (next, step) = match result {
            Ok(()) => (Delivery { failures, outcome: Outcome::Delivered }, Step::Done),
            Err(e) => {
                let delay = self.policy.delay_for(failures);
                if failures < u32::MAX && elapsed_ms <= self.policy.max_elapsed_ms && delay
                    <= self.policy.max_elapsed_ms - elapsed_ms {
                    (
                        Delivery { failures: failures + 1, outcome: Outcome::Pending },
                        Step::RetryAfter(delay),
                    )
                } else {
                    (Delivery { failures, outcome: Outcome::Failed(e) }, Step::Done)
                }
            },
        };
        self.deliveries.set(k, next);
        proof {
            assert(self@.deliveries =~= old(self)@.deliveries.update(k as int, next@));
        }
        step
    }

    /// Whether every service has been served or given up on.
    pub fn is_complete(&self) -> (r: bool)
        ensures
            r == (forall|k: int|
                0 <= k < self@.deliveries.len() ==> #[trigger] self@.deliveries[k].outcome
                    != OutcomeView::Pending),
    {
        let mut i: usize = 0;
        while i < self.deliveries.len()
            invariant
                i <= self@.deliveries.len(),
                forall|k: int| 0 <= k < i ==> #[trigger] self@.deliveries[k].outcome != OutcomeView::Pending,
            decreases self@.deliveries.len() - i,
        {
            if self.is_pending(i) {
                return false;
            }
            i = i + 1;
        }
        true
    }

    /// One result per service, in service order: `Ok` where the event was
    /// delivered, the last error where it was given up.
    pub fn report(&self) -> (r: Vec<(usize, Result<(), String>)>)
        requires
            forall|k: int|
                0 <= k < self@.deliveries.len() ==> #[trigger] self@.deliveries[k].outcome
                    != OutcomeView::Pending,
        ensures
            r@.len() == self@.deliveries.len(),
            forall|k: int|
                0 <= k < r@.len() ==> #[trigger] r@[k].0 == k && match self@.deliveries[k].outcome {
                    OutcomeView::Delivered => result_view(r@[k].1) == Ok::<(), Seq<char>>(()),
                    OutcomeView::Failed(e) => result_view(r@[k].1) == Err::<(), Seq<char>>(e),
                    OutcomeView::Pending => false,
                },
    {
        let mut out: Vec<(usize, Result<(), String>)> = Vec::new();
        let mut i: usize = 0;
        while i < self.deliveries.len()
            invariant
                i <= self@.deliveries.len(),
                out@.len() == i,
                forall|k: int|
                    0 <= k < self@.deliveries.len() ==> #[trigger] self@.deliveries[k].outcome
                        != OutcomeView::Pending,
                forall|k: int|
                    0 <= k < i ==> #[trigger] out@[k].0 == k && match self@.deliveries[k].outcome {
                        OutcomeView::Delivered => result_view(out@[k].1) == Ok::<(), Seq<char>>(()),
                        OutcomeView::Failed(e) => result_view(out@[k].1) == Err::<(), Seq<char>>(e),
                        OutcomeView::Pending => false,
                    },
            decreases self@.deliveries.len() - i,
        {
            assert(self@.deliveries[i as int] == self.deliveries@[i as int]@);
            let entry = match &self.deliveries[i].outcome {
                Outcome::Delivered => (i, Ok(())),
                Outcome::Failed(e) => (i, Err(e.clone())),
                Outcome::Pending => (i, Ok(())),
            };
            out.push(entry);
            i = i + 1;
        }
        out
    }
}

/// Retries stay inside the budget: a wait is only granted when it ends no
/// later than the budget allows, and once the next backoff alone exceeds the
/// budget, a failure is final.
pub proof fn lemma_retry_within_budget(
    p: RetryPolicy,
    d: DeliveryView,
    result: Result<(), Seq<char>>,
    elapsed_ms: u64,
)
    ensures
        ({
            let (next, step) = delivery_step(p, d, result, elapsed_ms);
            &&& step matches Step::RetryAfter(ms) ==> elapsed_ms + ms <= p.max_elapsed_ms
            &&& delay_spec(p, d.failures as nat) > p.max_elapsed_ms ==> step == Step::Done
            &&& step == Step::Done ==> next.outcome != OutcomeView::Pending
        }),
{
}

/// The deliveries after a run of calls, each naming its service, its result,
/// and the time since that service's first call.
pub open spec fn run_deliveries(
    p: RetryPolicy,
    ds: Seq<DeliveryView>,
    calls: Seq<(int, Result<(), Seq<char>>, u64)>,
) -> Seq<DeliveryView>
    decreases calls.len(),
{
    if calls.len() == 0 {
        ds
    } else {
        let (k, res, t) = calls[0];
        let next = if 0 <= k < ds.len() && ds[k].outcome == OutcomeView::Pending {
            ds.update(k, delivery_step(p, ds[k], res, t).0)
        } else {
            ds
        };
        run_deliveries(p, next, calls.drop_first())
    }
}

/// Failures stay with their service: whatever the order of the calls, a
/// service whose every call fails is never delivered, and a service whose
/// every call succeeds never fails. So with one service that always fails and
/// one that always succeeds, a finished dispatch reports one failure and one success.
pub proof fn lemma_dispatch_isolation(
    p: RetryPolicy,
    ds: Seq<DeliveryView>,
    calls: Seq<(int, Result<(), Seq<char>>, u64)>,
    failing: int,
    succeeding: int,
)
    requires
        0 <= failing < ds.len(),
        0 <= succeeding < ds.len(),
        ds[failing].outcome == OutcomeView::Pending,
        ds[succeeding].outcome == OutcomeView::Pending,
        forall|j: int| 0 <= j < calls.len() && (#[trigger] calls[j]).0 == failing ==> calls[j].1 is Err,
        forall|j: int| 0 <= j < calls.len() && (#[trigger] calls[j]).0 == succeeding ==> calls[j].1 is Ok,
    ensures
        run_deliveries(p, ds, calls).len() == ds.len(),
        run_deliveries(p, ds, calls)[failing].outcome != OutcomeView::Delivered,
        !(run_deliveries(p, ds, calls)[succeeding].outcome is Failed),
    decreases calls.len(),
{
    if calls.len() > 0 {
        let (k, res, t) = calls[0];
        let next = if 0 <= k < ds.len() && ds[k].outcome == OutcomeView::Pending {
            ds.update(k, delivery_step(p, ds[k], res, t).0)
        } else {
            ds
        };
        let rest = calls.drop_first();
        assert forall|j: int| 0 <= j < rest.len() && (#[trigger] rest[j]).0 == failing implies rest[j].1 is Err by {
            assert(rest[j] == calls[j + 1]);
        }
        assert forall|j: int| 0 <= j < rest.len() && (#[trigger] rest[j]).0 == succeeding implies rest[j].1 is Ok by {
            assert(rest[j] == calls[j + 1]);
        }
        assert(calls[0].0 == failing ==> calls[0].1 is Err);
        assert(calls[0].0 == succeeding ==> calls[0].1 is Ok);
        if next[failing].outcome == OutcomeView::Pending && next[succeeding].outcome == OutcomeView::Pending {
            lemma_dispatch_isolation(p, next, rest, failing, succeeding);
        } else {
            lemma_outcome_settled(p, next, rest, failing, succeeding);
        }
    }
}

/// Once a delivery is no longer pending, later calls leave it as it is.
proof fn lemma_outcome_settled(
    p: RetryPolicy,
    ds: Seq<DeliveryView>,
    calls: Seq<(int, Result<(), Seq<char>>, u64)>,
    failing: int,
    succeeding: int,
)
    requires
        0 <= failing < ds.len(),
        0 <= succeeding < ds.len(),
        ds[failing].outcome != OutcomeView::Delivered,
        !(ds[succeeding].outcome is Failed),
        forall|j: int| 0 <= j < calls.len() && (#[trigger] calls[j]).0 == failing ==> calls[j].1 is Err,
        forall|j: int| 0 <= j < calls.len() && (#[trigger] calls[j]).0 == succeeding ==> calls[j].1 is Ok,
    ensures
        run_deliveries(p, ds, calls).len() == ds.len(),
        run_deliveries(p, ds, calls)[failing].outcome != OutcomeView::Delivered,
        !(run_deliveries(p, ds, calls)[succeeding].outcome is Failed),
    decreases calls.len(),
{
    if calls.len() > 0 {
        let (k, res, t) = calls[0];
        let next = if 0 <= k < ds.len() && ds[k].outcome == OutcomeView::Pending {
            ds.update(k, delivery_step(p, ds[k], res, t).0)
        } else {
            ds
        };
        let rest = calls.drop_first();
        assert forall|j: int| 0 <= j < rest.len() && (#[trigger] rest[j]).0 == failing implies rest[j].1 is Err by {
            assert(rest[j] == calls[j + 1]);
        }
        assert forall|j: int| 0 <= j < rest.len() && (#[trigger] rest[j]).0 == succeeding implies rest[j].1 is Ok by {
            assert(rest[j] == calls[j + 1]);
        }
        assert(calls[0].0 == failing ==> calls[0].1 is Err);
        assert(calls[0].0 == succeeding ==> calls[0].1 is Ok);
        lemma_outcome_settled(p, next, rest, failing, succeeding);
    }
}

} // verus!
