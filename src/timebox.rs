//! The time-boxed loop's decisions, kept apart from the clock: a round is
//! started only while the elapsed time is below the target, and the check is
//! made only between rounds.

use vstd::prelude::*;

verus! {

/// Nanoseconds in one second.
pub const NANOS_PER_SECOND: u128 = 1_000_000_000;

/// `amount` per second over `nanos` nanoseconds, rounded down.
pub open spec fn rate_per_second(amount: int, nanos: int) -> int {
    (amount * NANOS_PER_SECOND) / nanos
}

/// `amount` per second over `nanos` nanoseconds, rounded down. `None` for a
/// zero duration, and where `amount` times a billion does not fit in `u128`.
pub fn per_second(amount: u128, nanos: u128) -> (r: Option<u128>)
    ensures
        r is Some <==> nanos > 0 && amount * NANOS_PER_SECOND <= u128::MAX,
        r matches Some(v) ==> v == rate_per_second(amount as int, nanos as int),
        r matches Some(v) ==> v * nanos <= amount * NANOS_PER_SECOND < (v + 1) * nanos,
{
    if nanos == 0 {
        return None;
    }
    match amount.checked_mul(NANOS_PER_SECOND) {
        None => None,
        Some(scaled) => {
            let v = scaled / nanos;
            proof {
                vstd::arithmetic::div_mod::lemma_fundamental_div_mod(scaled as int, nanos as int);
                let rem = scaled as int % nanos as int;
                assert(0 <= rem < nanos);
                assert(v * nanos <= scaled < (v + 1) * nanos) by (nonlinear_arith)
                    requires
                        scaled == nanos * v + rem,
                        0 <= rem < nanos,
                ;
            }
            Some(v)
        },
    }
}

/// The state of one time-boxed loop: its target, the operations that one
/// round performs, how many rounds have started, and the clock readings that
/// decided.
pub struct TimeBox {
    pub target_nanos: u128,
    pub ops_per_round: u64,
    pub rounds: u64,
    /// The reading at which the latest round was started (0 before the first).
    pub last_round_start_nanos: u128,
    /// The latest reading handed in.
    pub elapsed_nanos: u128,
    /// Set by the reading that ended the loop.
    pub finished: bool,
}

impl TimeBox {
    /// Operations performed by the rounds started so far.
    pub open spec fn spec_total_ops(&self) -> int {
        self.rounds * self.ops_per_round
    }

    /// What holds once the loop has ended: its last reading reached the target
    /// (or the round counter is exhausted), and the last round started below
    /// the target, so the run overshoots by less than that one round.
    pub open spec fn ended_within_bounds(&self) -> bool {
        &&& self.finished
        &&& (self.elapsed_nanos >= self.target_nanos || self.rounds == u64::MAX)
        &&& (self.rounds > 0 ==> self.last_round_start_nanos < self.target_nanos)
    }

    /// What holds of every state: a started round began below the target,
    /// and before the first round no start has been recorded.
    pub open spec fn wf(&self) -> bool {
        &&& self.rounds > 0 ==> self.last_round_start_nanos < self.target_nanos
        &&& self.rounds == 0 ==> self.last_round_start_nanos == 0
    }

    pub fn new(target_nanos: u128, ops_per_round: u64) -> (r: TimeBox)
        ensures
            r == (TimeBox {
                target_nanos,
                ops_per_round,
                rounds: 0,
                last_round_start_nanos: 0,
                elapsed_nanos: 0,
                finished: false,
            }),
            r.wf(),
    {
        TimeBox {
            target_nanos,
            ops_per_round,
            rounds: 0,
            last_round_start_nanos: 0,
            elapsed_nanos: 0,
            finished: false,
        }
    }

    /// Decide, on the clock reading `elapsed_nanos` taken between rounds,
    /// whether another round runs. It does while the reading is below the
    /// target; the round is then counted. Otherwise the loop ends here, and
    /// it stays ended.
    pub fn begin_round(&mut self, elapsed_nanos: u128) -> (go: bool)
        requires
            old(self).wf(),
        ensures
            final(self).wf(),
            go == (!old(self).finished && elapsed_nanos < old(self).target_nanos
                && old(self).rounds < u64::MAX),
            go ==> *final(self) == (TimeBox {
                rounds: (old(self).rounds + 1) as u64,
                last_round_start_nanos: elapsed_nanos,
                elapsed_nanos,
                ..*old(self)
            }),
            !go && !old(self).finished ==> *final(self) == (TimeBox {
                elapsed_nanos,
                finished: true,
                ..*old(self)
            }),
            !go && !old(self).finished ==> final(self).ended_within_bounds(),
            old(self).finished ==> *final(self) == *old(self),
    {
        if self.finished {
            return false;
        }
        self.elapsed_nanos = elapsed_nanos;
        if elapsed_nanos < self.target_nanos && self.rounds < u64::MAX {
            self.rounds = self.rounds + 1;
            self.last_round_start_nanos = elapsed_nanos;
            true
        } else {
            self.finished = true;
            false
        }
    }

    /// Operations performed by the rounds started so far.
    pub fn total_ops(&self) -> (r: u128)
        ensures
            r == self.spec_total_ops(),
    {
        proof {
            assert(self.rounds * self.ops_per_round <= u64::MAX * u64::MAX) by (nonlinear_arith)
                requires
                    self.rounds <= u64::MAX,
                    self.ops_per_round <= u64::MAX,
            ;
        }
        (self.rounds as u128) * (self.ops_per_round as u128)
    }
}

} // verus!
