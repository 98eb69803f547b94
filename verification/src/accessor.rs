//! The shared pool accessor: one pool for the whole process, set up on first
//! use. The accessor decides; whoever drives it does the connecting and reports
//! back how it went.

use vstd::prelude::*;
use crate::pool::PoolError;

verus! {

/// The state of the shared pool. `H` is the handle that callers share.
///
/// Callers see two states, initialized or not: while one of them is setting the
/// pool up, the others are told to wait and no handle is given out.
pub enum Accessor<H> {
    /// No pool yet, and nobody is setting one up.
    Uninitialized,
    /// One caller is setting the pool up.
    Initializing,
    /// The pool is there. This state is never left.
    Initialized(H),
}

/// What a caller who asks for the pool is told to do.
#[derive(Clone, Copy, Debug, PartialEq, Eq, Structural)]
pub enum Decision {
    /// Set the pool up, then report the outcome with `complete`.
    Initialize,
    /// Another caller is setting the pool up: ask again later.
    Wait,
    /// The pool is there: take the handle.
    Share,
}

/// Why a reported outcome did not install a pool.
#[derive(Clone, Copy, Debug, PartialEq, Eq, Structural)]
pub enum AccessError {
    /// Nobody had been told to set the pool up.
    NotInitializing,
    /// Setting the pool up failed; the next caller will be told to try again.
    Failed(PoolError),
}

/// What can happen to an accessor.
pub enum Event<H> {
    /// A caller asks for the pool.
    Request,
    /// A caller reports how setting the pool up went.
    Completed(Result<H, PoolError>),
}

impl<H> Accessor<H> {
    /// What a caller who asks in this state is told.
    pub open spec fn decision(self) -> Decision {
        match self {
            Accessor::Uninitialized => Decision::Initialize,
            Accessor::Initializing => Decision::Wait,
            Accessor::Initialized(_) => Decision::Share,
        }
    }

    /// The state after a caller has asked.
    pub open spec fn after_request(self) -> Self {
        match self {
            Accessor::Uninitialized => Accessor::Initializing,
            _ => self,
        }
    }

    /// The state after an outcome has been reported.
    pub open spec fn after_completion(self, outcome: Result<H, PoolError>) -> Self {
        match (self, outcome) {
            (Accessor::Initializing, Ok(handle)) => Accessor::Initialized(handle),
            (Accessor::Initializing, Err(_)) => Accessor::Uninitialized,
            _ => self,
        }
    }

    /// What reporting `outcome` in this state returns.
    pub open spec fn completion_result(self, outcome: Result<H, PoolError>) -> Result<
        (),
        AccessError,
    > {
        match (self, outcome) {
            (Accessor::Initializing, Ok(_)) => Ok(()),
            (Accessor::Initializing, Err(e)) => Err(AccessError::Failed(e)),
            _ => Err(AccessError::NotInitializing),
        }
    }

    /// The state after one event.
    pub open spec fn step(self, event: Event<H>) -> Self {
        match event {
            Event::Request => self.after_request(),
            Event::Completed(outcome) => self.after_completion(outcome),
        }
    }

    /// Whether `event`, arriving in this state, sends a caller off to set a pool up.
    pub open spec fn starts(self, event: Event<H>) -> bool {
        event is Request && self.decision() == Decision::Initialize
    }

    /// Whether `event`, arriving in this state, installs a pool.
    pub open spec fn installs(self, event: Event<H>) -> bool {
        event matches Event::Completed(outcome) && self.completion_result(outcome) is Ok
    }

    /// Whether `event`, arriving in this state, reports a failed attempt.
    pub open spec fn fails(self, event: Event<H>) -> bool {
        event matches Event::Completed(outcome) && self.completion_result(outcome)
            matches Err(AccessError::Failed(_))
    }

    /// The state after a run of events, first to last.
    pub open spec fn after(self, events: Seq<Event<H>>) -> Self
        decreases events.len(),
    {
        if events.len() == 0 {
            self
        } else {
            self.step(events[0]).after(events.drop_first())
        }
    }

    /// How many callers a run of events sends off to set a pool up.
    pub open spec fn started(self, events: Seq<Event<H>>) -> nat
        decreases events.len(),
    {
        if events.len() == 0 {
            0
        } else {
            (if self.starts(events[0]) { 1nat } else { 0nat })
                + self.step(events[0]).started(events.drop_first())
        }
    }

    /// How many pools a run of events installs.
    pub open spec fn installed(self, events: Seq<Event<H>>) -> nat
        decreases events.len(),
    {
        if events.len() == 0 {
            0
        } else {
            (if self.installs(events[0]) { 1nat } else { 0nat })
                + self.step(events[0]).installed(events.drop_first())
        }
    }

    /// How many failed attempts a run of events reports.
    pub open spec fn failed(self, events: Seq<Event<H>>) -> nat
        decreases events.len(),
    {
        if events.len() == 0 {
            0
        } else {
            (if self.fails(events[0]) { 1nat } else { 0nat })
                + self.step(events[0]).failed(events.drop_first())
        }
    }

    /// An accessor with no pool.
    pub fn new() -> (out: Self)
        ensures
            out == Accessor::<H>::Uninitialized,
    {
        Accessor::Uninitialized
    }

    /// Whether the pool is there.
    pub fn is_initialized(&self) -> (out: bool)
        ensures
            out == (*self is Initialized),
    {
        match self {
            Accessor::Initialized(_) => true,
            _ => false,
        }
    }

    /// A caller asks for the pool. The first to ask is told to set it up, those who
    /// ask meanwhile to wait, and everyone after that to take the handle.
    pub fn request(&mut self) -> (out: Decision)
        ensures
            out == old(self).decision(),
            *final(self) == old(self).after_request(),
    {
        let told = match &*self {
            Accessor::Uninitialized => Decision::Initialize,
            Accessor::Initializing => Decision::Wait,
            Accessor::Initialized(_) => Decision::Share,
        };
        if told == Decision::Initialize {
            *self = Accessor::Initializing;
        }
        told
    }

    /// The caller who was told to set the pool up reports how it went. A handle is
    /// installed only then, and only once; a failure leaves the accessor as it was
    /// before that caller asked.
    pub fn complete(&mut self, outcome: Result<H, PoolError>) -> (out: Result<(), AccessError>)
        ensures
            out == old(self).completion_result(outcome),
            *final(self) == old(self).after_completion(outcome),
    {
        let pending = match &*self {
            Accessor::Initializing => true,
            _ => false,
        };
        if !pending {
            return Err(AccessError::NotInitializing);
        }
        match outcome {
            Ok(handle) => {
                *self = Accessor::Initialized(handle);
                Ok(())
            },
            Err(e) => {
                *self = Accessor::Uninitialized;
                Err(AccessError::Failed(e))
            },
        }
    }

    /// The shared handle, once the pool is there.
    pub fn handle(&self) -> (out: Option<&H>)
        ensures
            match *self {
                Accessor::Initialized(h) => out == Some(&h),
                _ => out is None,
            },
    {
        match self {
            Accessor::Initialized(h) => Some(h),
            _ => None,
        }
    }
}

/// A run of `n` requests and nothing else.
pub open spec fn requests<H>(n: nat) -> Seq<Event<H>> {
    Seq::new(n, |i: int| Event::<H>::Request)
}

/// A run of events followed by another is the first run, then the second from
/// the state the first one left.
pub proof fn lemma_runs_compose<H>(s: Accessor<H>, first: Seq<Event<H>>, second: Seq<Event<H>>)
    ensures
        s.after(first + second) == s.after(first).after(second),
        s.started(first + second) == s.started(first) + s.after(first).started(second),
        s.installed(first + second) == s.installed(first) + s.after(first).installed(second),
    decreases first.len(),
{
    if first.len() == 0 {
        assert(first + second =~= second);
    } else {
        assert((first + second).drop_first() =~= first.drop_first() + second);
        assert((first + second)[0] == first[0]);
        lemma_runs_compose(s.step(first[0]), first.drop_first(), second);
    }
}

/// Once the pool is there it stays, the same one: whatever happens next, the
/// state does not change, nobody is sent off to set a pool up, and no other
/// pool is installed.
pub proof fn law_initialized_is_final<H>(s: Accessor<H>, events: Seq<Event<H>>)
    requires
        s is Initialized,
    ensures
        s.after(events) == s,
        s.started(events) == 0,
        s.installed(events) == 0,
    decreases events.len(),
{
    if events.len() > 0 {
        law_initialized_is_final(s.step(events[0]), events.drop_first());
    }
}

/// Whatever the events and their order, at most one pool is ever installed, and
/// a run that ends with the pool in place, from a state without one, installed
/// exactly one.
pub proof fn law_at_most_one_pool<H>(s: Accessor<H>, events: Seq<Event<H>>)
    ensures
        s.installed(events) <= 1,
        s is Initialized ==> s.installed(events) == 0,
        !(s is Initialized) && s.after(events) is Initialized ==> s.installed(events) == 1,
        !(s is Initialized) && !(s.after(events) is Initialized) ==> s.installed(events) == 0,
    decreases events.len(),
{
    if events.len() > 0 {
        let next = s.step(events[0]);
        law_at_most_one_pool(next, events.drop_first());
        if s.installs(events[0]) {
            law_initialized_is_final(next, events.drop_first());
        }
    }
}

/// Whatever the events and their order, one caller at a time sets the pool up:
/// a caller is sent off only when nobody is at it, so those sent off are at most
/// one more than the attempts that failed, and a pool is installed only by a
/// caller who was sent off.
pub proof fn law_one_initializer_at_a_time<H>(s: Accessor<H>, events: Seq<Event<H>>)
    ensures
        s is Uninitialized ==> s.started(events) <= s.failed(events) + 1,
        s is Uninitialized ==> s.installed(events) + s.failed(events) <= s.started(events),
        s is Initializing ==> s.started(events) <= s.failed(events),
        s is Initializing ==> s.installed(events) + s.failed(events) <= s.started(events) + 1,
        s is Initialized ==> s.started(events) == 0 && s.failed(events) == 0 && s.installed(
            events,
        ) == 0,
    decreases events.len(),
{
    if events.len() > 0 {
        law_one_initializer_at_a_time(s.step(events[0]), events.drop_first());
    }
}

/// While one caller sets the pool up, any number of others may ask: each is
/// told to wait, none is sent off to set up a second pool.
pub proof fn law_requests_wait_while_initializing<H>(n: nat)
    ensures
        Accessor::<H>::Initializing.after(requests(n)) == Accessor::<H>::Initializing,
        Accessor::<H>::Initializing.started(requests(n)) == 0,
        Accessor::<H>::Initializing.installed(requests(n)) == 0,
        Accessor::<H>::Initializing.decision() == Decision::Wait,
    decreases n,
{
    if n > 0 {
        assert(requests::<H>(n).drop_first() =~= requests::<H>((n - 1) as nat));
        law_requests_wait_while_initializing::<H>((n - 1) as nat);
    }
}

/// Single initialization: when `n` callers ask before the pool is there, exactly
/// one of them is sent off to set it up, and none sees a handle meanwhile. Once
/// that one reports `handle`, exactly one pool has been installed, and however
/// many ask afterwards, the state holds that same handle and each is told to
/// take it.
pub proof fn law_single_initialization<H>(n: nat, handle: H, later: nat)
    requires
        n >= 1,
    ensures
        Accessor::<H>::Uninitialized.after(requests(n)) == Accessor::<H>::Initializing,
        Accessor::<H>::Uninitialized.started(requests(n)) == 1,
        ({
            let events = requests::<H>(n).push(Event::Completed(Ok(handle))) + requests(later);
            &&& Accessor::<H>::Uninitialized.after(events) == Accessor::Initialized(handle)
            &&& Accessor::<H>::Uninitialized.started(events) == 1
            &&& Accessor::<H>::Uninitialized.installed(events) == 1
            &&& Accessor::Initialized(handle).decision() == Decision::Share
        }),
{
    let start = Accessor::<H>::Uninitialized;
    let busy = Accessor::<H>::Initializing;
    let done = Accessor::Initialized(handle);
    let asked = requests::<H>(n);
    let report = seq![Event::Completed(Ok::<H, PoolError>(handle))];
    let rest = requests::<H>(later);

    assert(asked.drop_first() =~= requests::<H>((n - 1) as nat));
    law_requests_wait_while_initializing::<H>((n - 1) as nat);
    assert(start.after(asked) == busy);
    assert(start.started(asked) == 1);
    assert(start.installed(asked) == 0);
    assert(report.drop_first() =~= Seq::<Event<H>>::empty());
    assert(busy.step(report[0]).after(report.drop_first()) == done);
    assert(busy.step(report[0]).started(report.drop_first()) == 0);
    assert(busy.step(report[0]).installed(report.drop_first()) == 0);
    law_initialized_is_final(done, rest);
    lemma_runs_compose(start, asked, report);
    lemma_runs_compose(start, asked + report, rest);
    assert(asked.push(Event::Completed(Ok(handle))) =~= asked + report);
}

/// A failed attempt leaves no trace: the accessor is as it was before anyone
/// asked, so the next caller is told to try again.
pub proof fn law_failure_allows_retry<H>(n: nat, error: PoolError)
    requires
        n >= 1,
    ensures
        ({
            let events = requests::<H>(n).push(Event::Completed(Err(error)));
            &&& Accessor::<H>::Uninitialized.after(events) == Accessor::<H>::Uninitialized
            &&& Accessor::<H>::Uninitialized.installed(events) == 0
            &&& Accessor::<H>::Uninitialized.decision() == Decision::Initialize
        }),
{
    let start = Accessor::<H>::Uninitialized;
    let busy = Accessor::<H>::Initializing;
    let asked = requests::<H>(n);
    let report = seq![Event::Completed(Err::<H, PoolError>(error))];

    assert(asked.drop_first() =~= requests::<H>((n - 1) as nat));
    law_requests_wait_while_initializing::<H>((n - 1) as nat);
    assert(start.after(asked) == busy);
    assert(start.installed(asked) == 0);
    assert(report.drop_first() =~= Seq::<Event<H>>::empty());
    assert(busy.step(report[0]).after(report.drop_first()) == start);
    assert(busy.step(report[0]).installed(report.drop_first()) == 0);
    lemma_runs_compose(start, asked, report);
    assert(asked.push(Event::Completed(Err(error))) =~= asked + report);
}

} // verus!
