//! Fan-out of one batch of greetings to several channels.
use std::rc::Rc;
use vstd::prelude::*;
use crate::greetings::{
    copy_failures, failure_views, failures_of, failures_within, greeting_views, Failure,
    FailureView, Greeting, GreetingView, GreetingsSender, SendGreetingsError,
};

verus! {

/// The failures of all `outcomes`, in order.
pub open spec fn combined_failures(outcomes: Seq<Result<(), SendGreetingsError>>) -> Seq<FailureView>
    decreases outcomes.len(),
{
    if outcomes.len() == 0 {
        Seq::empty()
    } else {
        combined_failures(outcomes.drop_last()) + failures_of(outcomes.last())
    }
}

/// Sends each batch to every channel it holds.
pub struct GreetingsSenderAnnouncer<T: GreetingsSender + ?Sized> {
    greetings_senders: Vec<Rc<T>>,
}

impl<T: GreetingsSender + ?Sized> GreetingsSenderAnnouncer<T> {
    /// The channels, in the order they were given.
    pub closed spec fn channels(&self) -> Seq<Rc<T>> {
        self.greetings_senders@
    }

    pub fn new(greetings_senders: Vec<Rc<T>>) -> (r: Self)
        ensures
            r.channels() == greetings_senders@,
    {
        GreetingsSenderAnnouncer { greetings_senders }
    }

    fn send_to_each(&self, greetings: &Vec<Greeting>) -> (r: Vec<Result<(), SendGreetingsError>>)
        ensures
            r@.len() == self.channels().len(),
            forall|i: int| 0 <= i < r@.len() ==> failures_within(#[trigger] r@[i], greeting_views(greetings@)),
    {
        let mut outcomes: Vec<Result<(), SendGreetingsError>> = Vec::new();
        let mut i: usize = 0;
        while i < self.greetings_senders.len()
            invariant
                i <= self.greetings_senders@.len(),
                outcomes@.len() == i,
                forall|j: int| 0 <= j < i ==> failures_within(#[trigger] outcomes@[j], greeting_views(greetings@)),
            decreases self.greetings_senders@.len() - i,
        {
            let batch = greetings.clone();
            proof {
                assert(greeting_views(batch@) =~= greeting_views(greetings@));
            }
            let outcome = self.greetings_senders[i].send(batch);
            outcomes.push(outcome);
            i = i + 1;
        }
        outcomes
    }
}

/// Joins the outcomes of several channels into one: success where no channel
/// reported a failure, else every reported failure, channel after channel.
pub fn merge_outcomes(outcomes: Vec<Result<(), SendGreetingsError>>) -> (r: Result<(), SendGreetingsError>)
    ensures
        failures_of(r) == combined_failures(outcomes@),
        r.is_ok() == (combined_failures(outcomes@).len() == 0),
{
    let mut failures: Vec<Failure> = Vec::new();
    let ghost all = outcomes@;
    let mut i: usize = 0;
    let n = outcomes.len();
    while i < n
        invariant
            n == all.len(),
            all == outcomes@,
            i <= n,
            failure_views(failures@) == combined_failures(all.subrange(0, i as int)),
        decreases n - i,
    {
        proof {
            let before = all.subrange(0, i as int);
            let after = all.subrange(0, i + 1);
            assert(after.drop_last() =~= before);
            assert(after.last() == all[i as int]);
        }
        match &outcomes[i] {
            Ok(()) => {
            },
            Err(e) => {
                let mut reported = copy_failures(&e.greetings_not_sent);
                let ghost prior = failures@;
                failures.append(&mut reported);
                proof {
                    assert(failure_views(failures@) =~= failure_views(prior) + e@);
                }
            },
        }
        i = i + 1;
    }
    proof {
        assert(all.subrange(0, n as int) =~= all);
    }
    if failures.len() == 0 {
        Ok(())
    } else {
        Err(SendGreetingsError::new(failures))
    }
}

/// Where every outcome reports only greetings of `batch`, so do their combined failures.
pub proof fn lemma_combined_failures_within(
    outcomes: Seq<Result<(), SendGreetingsError>>,
    batch: Seq<GreetingView>,
)
    requires
        forall|i: int| 0 <= i < outcomes.len() ==> failures_within(#[trigger] outcomes[i], batch),
    ensures
        forall|k: int|
            0 <= k < combined_failures(outcomes).len() ==> batch.contains(
                #[trigger] combined_failures(outcomes)[k].0,
            ),
    decreases outcomes.len(),
{
    if outcomes.len() > 0 {
        let front = outcomes.drop_last();
        assert forall|i: int| 0 <= i < front.len() implies failures_within(#[trigger] front[i], batch) by {
            assert(front[i] == outcomes[i]);
        }
        lemma_combined_failures_within(front, batch);
        let last = failures_of(outcomes.last());
        assert(failures_within(outcomes[outcomes.len() - 1], batch));
        assert forall|k: int| 0 <= k < combined_failures(outcomes).len() implies batch.contains(
            #[trigger] combined_failures(outcomes)[k].0,
        ) by {
            let head = combined_failures(front);
            if k >= head.len() {
                assert(combined_failures(outcomes)[k] == last[k - head.len()]);
            }
        }
    }
}

impl<T: GreetingsSender + ?Sized> GreetingsSender for GreetingsSenderAnnouncer<T> {
    /// Hands a copy of the whole batch to every channel, whatever the others
    /// reported, and reports every failure that any of them reported.
    fn send(&self, greetings: Vec<Greeting>) -> (r: Result<(), SendGreetingsError>)
        ensures
            exists|outcomes: Seq<Result<(), SendGreetingsError>>|
                {
                    &&& outcomes.len() == self.channels().len()
                    &&& forall|i: int|
                        0 <= i < outcomes.len() ==> failures_within(
                            #[trigger] outcomes[i],
                            greeting_views(greetings@),
                        )
                    &&& failures_of(r) == combined_failures(outcomes)
                    &&& r.is_ok() == (combined_failures(outcomes).len() == 0)
                },
            greetings@.len() == 0 ==> r.is_ok(),
    {
        let outcomes = self.send_to_each(&greetings);
        let ghost seen = outcomes@;
        let r = merge_outcomes(outcomes);
        proof {
            lemma_combined_failures_within(seen, greeting_views(greetings@));
            if greetings@.len() == 0 {
                if combined_failures(seen).len() > 0 {
                    assert(greeting_views(greetings@).contains(combined_failures(seen)[0].0));
                }
            }
        }
        r
    }
}

/// Dispatching one batch twice through channels without state, which report
/// the same failures for the same batch, gives the same outcome both times.
pub proof fn lemma_dispatch_idempotent(
    first: Seq<Result<(), SendGreetingsError>>,
    second: Seq<Result<(), SendGreetingsError>>,
)
    requires
        first.len() == second.len(),
        forall|i: int| 0 <= i < first.len() ==> failures_of(#[trigger] first[i]) == failures_of(second[i]),
    ensures
        combined_failures(first) == combined_failures(second),
        (combined_failures(first).len() == 0) == (combined_failures(second).len() == 0),
    decreases first.len(),
{
    if first.len() > 0 {
        let a = first.drop_last();
        let b = second.drop_last();
        assert forall|i: int| 0 <= i < a.len() implies failures_of(#[trigger] a[i]) == failures_of(b[i]) by {
            assert(a[i] == first[i]);
            assert(b[i] == second[i]);
        }
        lemma_dispatch_idempotent(a, b);
        assert(failures_of(first.last()) == failures_of(second.last()));
    }
}

/// A failure is in the combined outcome exactly when some channel reported it,
/// whatever the order of the channels.
pub proof fn lemma_combined_failures_contains(outcomes: Seq<Result<(), SendGreetingsError>>, f: FailureView)
    ensures
        combined_failures(outcomes).contains(f) <==> exists|i: int|
            0 <= i < outcomes.len() && failures_of(#[trigger] outcomes[i]).contains(f),
    decreases outcomes.len(),
{
    if outcomes.len() > 0 {
        let front = outcomes.drop_last();
        let last = failures_of(outcomes.last());
        lemma_combined_failures_contains(front, f);
        let head = combined_failures(front);
        assert(combined_failures(outcomes) == head + last);
        if combined_failures(outcomes).contains(f) {
            let k = choose|k: int| 0 <= k < (head + last).len() && (head + last)[k] == f;
            if k < head.len() {
                assert(head[k] == f);
                let i = choose|i: int| 0 <= i < front.len() && failures_of(#[trigger] front[i]).contains(f);
                assert(outcomes[i] == front[i]);
            } else {
                assert(last[k - head.len()] == f);
                assert(outcomes[outcomes.len() - 1] == outcomes.last());
            }
        }
        if exists|i: int| 0 <= i < outcomes.len() && failures_of(#[trigger] outcomes[i]).contains(f) {
            let i = choose|i: int| 0 <= i < outcomes.len() && failures_of(#[trigger] outcomes[i]).contains(f);
            if i < front.len() {
                assert(front[i] == outcomes[i]);
                let k = choose|k: int| 0 <= k < head.len() && head[k] == f;
                assert((head + last)[k] == f);
            } else {
                let k = choose|k: int| 0 <= k < last.len() && last[k] == f;
                assert((head + last)[head.len() + k] == f);
            }
        }
    }
}

} // verus!
