//! The completion waiter: a bounded polling state machine that turns the
//! native busy-poll completion model into one awaitable result.
//!
//! The waiter holds the set of still-outstanding request identifiers.
//! Its driver repeatedly asks [`CompletionWaiter::next_step`] what to do:
//! succeed, time out, or poll every outstanding identifier once.  The
//! answers of one polling pass are fed back through
//! [`CompletionWaiter::apply_poll`], which removes completed identifiers
//! and aborts the whole wait on the first error.  Between polling passes
//! the driver yields cooperatively for a short interval; the clock and
//! the native status queries stay outside this crate, so the waiter is
//! verified for every sequence of answers they may give.
//!
//! A timeout ends only the caller's wait: still-outstanding native
//! requests are not cancelled and may complete later with no observer.

use vstd::prelude::*;

use crate::errors::RdmaError;

verus! {

/// What the waiter's driver must do next.
#[derive(Debug, Clone, Copy, PartialEq, Eq, Structural)]
pub enum WaitStep {
    /// Every request completed: finish with success now, without
    /// waiting for the next poll tick.
    Succeeded,
    /// The deadline elapsed with outstanding requests: finish with
    /// `TimeoutError` now.
    TimedOut,
    /// Query the status of every outstanding identifier once, then hand
    /// the answers to `apply_poll`.
    PollAll,
}

impl WaitStep {
    /// The wait's result once a finishing step was reached.
    pub fn verdict(self) -> (r: Result<bool, RdmaError>)
        requires
            self is Succeeded || self is TimedOut,
        ensures
            self is Succeeded ==> r == Ok::<bool, RdmaError>(true),
            self is TimedOut ==> r == Err::<bool, RdmaError>(RdmaError::TimeoutError),
    {
        match self {
            WaitStep::Succeeded => Ok(true),
            _ => Err(RdmaError::TimeoutError),
        }
    }
}

/// Whether some answer of a polling pass reports an error.
pub open spec fn poll_has_error(res: Seq<Result<bool, RdmaError>>) -> bool {
    exists|i: int| 0 <= i < res.len() && res[i] is Err
}

/// The index of the first erroring answer of a polling pass.
pub open spec fn first_error_at(res: Seq<Result<bool, RdmaError>>) -> int
    decreases res.len(),
{
    if res.len() == 0 {
        0
    } else if res[0] is Err {
        0
    } else {
        1 + first_error_at(res.skip(1))
    }
}

/// The identifiers still outstanding after an error-free polling pass:
/// those whose answer was "still pending", in their original order.
pub open spec fn still_pending(ids: Seq<u64>, res: Seq<Result<bool, RdmaError>>) -> Seq<u64>
    decreases ids.len(),
{
    if ids.len() == 0 {
        Seq::empty()
    } else {
        let init = still_pending(ids.drop_last(), res.drop_last());
        if res[ids.len() - 1] == Ok::<bool, RdmaError>(false) {
            init.push(ids.last())
        } else {
            init
        }
    }
}

/// The outstanding set of one wait, polled until it empties, one
/// identifier errors, or the deadline elapses.
#[derive(Debug)]
pub struct CompletionWaiter {
    outstanding: Vec<u64>,
}

impl View for CompletionWaiter {
    type V = Seq<u64>;

    closed spec fn view(&self) -> Seq<u64> {
        self.outstanding@
    }
}

impl CompletionWaiter {
    /// Begin a wait for the given request identifiers: all of them are
    /// outstanding.
    pub fn new(wr_ids: Vec<u64>) -> (w: Self)
        ensures
            w@ == wr_ids@,
    {
        CompletionWaiter { outstanding: wr_ids }
    }

    /// The identifiers still outstanding, for the driver to query.
    pub fn outstanding_ids(&self) -> (v: &Vec<u64>)
        ensures
            v@ == self@,
    {
        &self.outstanding
    }

    /// How many requests are still outstanding.
    pub fn outstanding_count(&self) -> (n: usize)
        ensures
            n == self@.len(),
    {
        self.outstanding.len()
    }

    /// Decide what the driver does now.  An empty outstanding set wins
    /// over everything: the wait succeeds immediately, without issuing a
    /// single status query and without waiting for the next poll tick —
    /// in particular, an empty identifier list succeeds even with a
    /// zero-length timeout.  Otherwise an elapsed deadline ends the wait
    /// with a timeout on this very check, and only a live deadline leads
    /// to a polling pass.
    pub fn next_step(&self, deadline_elapsed: bool) -> (s: WaitStep)
        ensures
            self@.len() == 0 ==> s == WaitStep::Succeeded,
            self@.len() > 0 && deadline_elapsed ==> s == WaitStep::TimedOut,
            self@.len() > 0 && !deadline_elapsed ==> s == WaitStep::PollAll,
    {
        if self.outstanding.len() == 0 {
            WaitStep::Succeeded
        } else if deadline_elapsed {
            WaitStep::TimedOut
        } else {
            WaitStep::PollAll
        }
    }

    /// Digest one polling pass.  `results[i]` answers for the i-th
    /// outstanding identifier: `Ok(true)` completed, `Ok(false)` still
    /// pending, `Err` an error from the status query.  On the first
    /// erroring answer the whole wait aborts with exactly that error,
    /// even if every later identifier would have completed, and the
    /// outstanding set is left as it was.  With no error, the completed
    /// identifiers are removed immediately and the pass succeeds.
    pub fn apply_poll(&mut self, results: Vec<Result<bool, RdmaError>>) -> (r: Result<
        (),
        RdmaError,
    >)
        requires
            results@.len() == old(self)@.len(),
        ensures
            poll_has_error(results@) ==> {
                &&& r matches Err(e) && e == results@[first_error_at(results@)]->Err_0
                &&& final(self)@ == old(self)@
            },
            !poll_has_error(results@) ==> {
                &&& r is Ok
                &&& final(self)@ == still_pending(old(self)@, results@)
            },
    {
        let n = self.outstanding.len();
        let mut i: usize = 0;
        while i < n && results[i].is_ok()
            invariant
                n == results@.len(),
                results@.len() == self@.len(),
                i <= n,
                forall|j: int| 0 <= j < i ==> !(results@[j] is Err),
            decreases n - i,
        {
            i += 1;
        }
        if i < n {
            proof {
                lemma_first_error_at_found(results@, i as int);
            }
            let mut results = results;
            match results.remove(i) {
                Err(e) => Err(e),
                Ok(_) => {
                    proof {
                        assert(false);
                    }
                    Ok(())
                },
            }
        } else {
            let mut kept: Vec<u64> = Vec::new();
            let mut j: usize = 0;
            while j < n
                invariant
                    n == results@.len(),
                    results@.len() == self@.len(),
                    j <= n,
                    forall|t: int| 0 <= t < n ==> !(results@[t] is Err),
                    kept@ == still_pending(self@.take(j as int), results@.take(j as int)),
                decreases n - j,
            {
                let keep = match &results[j] {
                    Ok(done) => !*done,
                    Err(_) => {
                        proof {
                            assert(false);
                        }
                        false
                    },
                };
                proof {
                    assert(self@.take(j as int + 1).drop_last() =~= self@.take(j as int));
                    assert(results@.take(j as int + 1).drop_last() =~= results@.take(j as int));
                    assert(self@.take(j as int + 1).last() == self@[j as int]);
                    assert(results@.take(j as int + 1)[j as int] == results@[j as int]);
                }
                if keep {
                    let id = self.outstanding[j];
                    kept.push(id);
                }
                j += 1;
            }
            proof {
                assert(self@.take(n as int) =~= self@);
                assert(results@.take(n as int) =~= results@);
            }
            self.outstanding = kept;
            Ok(())
        }
    }
}

/// If every answer before `i` is error-free and the answer at `i` is an
/// error, then `i` is the first erroring index.
proof fn lemma_first_error_at_found(res: Seq<Result<bool, RdmaError>>, i: int)
    requires
        0 <= i < res.len(),
        res[i] is Err,
        forall|j: int| 0 <= j < i ==> !(res[j] is Err),
    ensures
        first_error_at(res) == i,
        poll_has_error(res),
    decreases i,
{
    if i == 0 {
    } else {
        assert(forall|j: int| 0 <= j < i - 1 ==> res.skip(1)[j] == res[j + 1]);
        lemma_first_error_at_found(res.skip(1), i - 1);
    }
}

} // verus!
