use vstd::prelude::*;
use crate::clock::unix_now;
use crate::metrics::bump;

verus! {

/// How one upstream query ended, as far as the resolver's decisions go.
pub enum QueryOutcome {
    /// The upstream server answered.
    Answered,
    /// The client reported an error; `busy` when it was a protocol error
    /// saying that the connection is busy.
    Failed { busy: bool },
    /// No answer came within the timeout.
    TimedOut,
}

/// What the resolver does after a query.
pub enum NextStep {
    /// Hand the answers back.
    ReturnAnswers,
    /// Replace the client with a new connection, then report the error.
    RenewClientThenFail,
    /// Report the error.
    Fail,
}

/// The resolver's rule: answers are returned; a busy connection is replaced
/// before the error is reported; any other error, or a timeout, is reported
/// as it is.
pub fn next_step(outcome: &QueryOutcome) -> (s: NextStep)
    ensures
        match *outcome {
            QueryOutcome::Answered => s is ReturnAnswers,
            QueryOutcome::Failed { busy } => if busy { s is RenewClientThenFail } else { s is Fail },
            QueryOutcome::TimedOut => s is Fail,
        },
{
    match outcome {
        QueryOutcome::Answered => NextStep::ReturnAnswers,
        QueryOutcome::Failed { busy } => {
            if *busy {
                NextStep::RenewClientThenFail
            } else {
                NextStep::Fail
            }
        },
        QueryOutcome::TimedOut => NextStep::Fail,
    }
}

/// How many upstream clients the resolver has made, and when it made the
/// last one (seconds since the Unix epoch). The count wraps around at 2^64.
pub struct ClientStats {
    pub creation_count: u64,
    pub last_creation: u64,
}

impl ClientStats {
    /// The record after one more client, made at `now`.
    pub open spec fn after_creation(self, now: u64) -> ClientStats {
        ClientStats { creation_count: bump(self.creation_count), last_creation: now }
    }

    /// The first client, made at `now`.
    pub fn new_at(now: u64) -> (s: Self)
        ensures
            s.creation_count == 1,
            s.last_creation == now,
    {
        ClientStats { creation_count: 1, last_creation: now }
    }

    /// The first client, made now by the system clock.
    pub fn new() -> (s: Self)
        ensures
            s.creation_count == 1,
    {
        Self::new_at(unix_now())
    }

    /// One more client, made at `now`.
    pub fn record_creation_at(&mut self, now: u64)
        ensures
            final(self).creation_count == bump(old(self).creation_count),
            final(self).last_creation == now,
            *final(self) == old(self).after_creation(now),
    {
        self.creation_count = self.creation_count.wrapping_add(1);
        self.last_creation = now;
    }

    /// One more client, made now by the system clock.
    pub fn record_creation(&mut self)
        ensures
            final(self).creation_count == bump(old(self).creation_count),
    {
        self.record_creation_at(unix_now());
    }
}

/// The record after clients were made at each of `times`, in order.
pub open spec fn after_creations(s: ClientStats, times: Seq<u64>) -> ClientStats
    decreases times.len(),
{
    if times.len() == 0 {
        s
    } else {
        after_creations(s, times.drop_last()).after_creation(times.last())
    }
}

/// Over a resolver's life, starting from its first client made at `t0`, the
/// count is one more than the clients made since (as long as it does not
/// wrap), and the last creation is the latest of them. In particular the
/// count never goes down.
pub proof fn lemma_creations_counted(t0: u64, times: Seq<u64>)
    requires
        1 + times.len() <= u64::MAX,
    ensures
        after_creations(ClientStats { creation_count: 1, last_creation: t0 }, times) == (ClientStats {
            creation_count: (1 + times.len()) as u64,
            last_creation: if times.len() == 0 { t0 } else { times.last() },
        }),
    decreases times.len(),
{
    if times.len() > 0 {
        lemma_creations_counted(t0, times.drop_last());
    }
}

} // verus!
