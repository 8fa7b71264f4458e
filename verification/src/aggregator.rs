//! The merge of several providers' outcomes into one result. The caller
//! dispatches the search and collects, per provider and in dispatch order,
//! what came back before the deadline; the rules of the merge are here.

use crate::error::SearchError;
use crate::torrent::{all_magnets, views, Torrent, TorrentView};
use vstd::prelude::*;

verus! {

/// What one provider's search came to.
#[derive(Clone, Debug, PartialEq, Eq)]
pub enum Reply {
    /// The provider answered with these records.
    Records(Vec<Torrent>),
    /// The provider answered with an error.
    Failed(SearchError),
    /// The provider had not answered when its deadline passed.
    TimedOut,
    /// The caller withdrew the search before the provider answered.
    Cancelled,
}

/// A provider's name and what its search came to.
#[derive(Clone, Debug, PartialEq, Eq)]
pub struct ProviderOutcome {
    pub provider: String,
    pub reply: Reply,
}

/// A provider's name and why its search produced no records.
#[derive(Clone, Debug, PartialEq, Eq)]
pub struct ProviderFailure {
    pub provider: String,
    pub cause: SearchError,
}

/// The mathematical value of a [`ProviderFailure`].
pub struct FailureView {
    pub provider: Seq<char>,
    pub cause: SearchError,
}

impl View for ProviderFailure {
    type V = FailureView;

    open spec fn view(&self) -> FailureView {
        FailureView { provider: self.provider@, cause: self.cause }
    }
}

/// The merged result of a search: the records of the providers that
/// answered, and the failures of the others.
#[derive(Clone, Debug, PartialEq, Eq)]
pub struct Aggregation {
    pub records: Vec<Torrent>,
    pub failures: Vec<ProviderFailure>,
}

/// The error of a search in which every provider failed.
#[derive(Clone, Debug, PartialEq, Eq)]
pub struct Aggregate {
    pub failures: Vec<ProviderFailure>,
}

/// The views of a sequence of failures, in order.
pub open spec fn failure_views(failures: Seq<ProviderFailure>) -> Seq<FailureView> {
    failures.map_values(|f: ProviderFailure| f@)
}

/// Why a reply carries no records, or `None` where it carries some.
pub open spec fn cause_of(reply: Reply) -> Option<SearchError> {
    match reply {
        Reply::Records(_) => None,
        Reply::Failed(e) => Some(e),
        Reply::TimedOut => Some(SearchError::Timeout),
        Reply::Cancelled => Some(SearchError::Cancelled),
    }
}

/// The records that one outcome adds to the merge.
pub open spec fn records_in(outcome: ProviderOutcome) -> Seq<TorrentView> {
    match outcome.reply {
        Reply::Records(records) => views(records@),
        _ => Seq::empty(),
    }
}

/// The failures that one outcome adds to the merge: one or none.
pub open spec fn failures_in(outcome: ProviderOutcome) -> Seq<FailureView> {
    match cause_of(outcome.reply) {
        Some(cause) => seq![FailureView { provider: outcome.provider@, cause }],
        None => Seq::empty(),
    }
}

/// The records of all outcomes: provider after provider in dispatch order,
/// each provider's records in its own order.
pub open spec fn merged_records(outcomes: Seq<ProviderOutcome>) -> Seq<TorrentView>
    decreases outcomes.len(),
{
    if outcomes.len() == 0 {
        Seq::empty()
    } else {
        merged_records(outcomes.drop_last()) + records_in(outcomes.last())
    }
}

/// The failures of all outcomes, in dispatch order.
pub open spec fn recorded_failures(outcomes: Seq<ProviderOutcome>) -> Seq<FailureView>
    decreases outcomes.len(),
{
    if outcomes.len() == 0 {
        Seq::empty()
    } else {
        recorded_failures(outcomes.drop_last()) + failures_in(outcomes.last())
    }
}

/// Whether no outcome carries records.
pub open spec fn none_succeeded(outcomes: Seq<ProviderOutcome>) -> bool {
    forall|i: int| 0 <= i < outcomes.len() ==> cause_of(#[trigger] outcomes[i].reply) is Some
}

/// Whether the search as a whole failed: there were providers, and every
/// one of them failed.
pub open spec fn all_failed(outcomes: Seq<ProviderOutcome>) -> bool {
    outcomes.len() > 0 && none_succeeded(outcomes)
}

/// Why `reply` carries no records, if it carries none.
pub fn failure_cause(reply: &Reply) -> (cause: Option<SearchError>)
    ensures
        cause == cause_of(*reply),
{
    match reply {
        Reply::Records(_) => None,
        Reply::Failed(e) => Some(*e),
        Reply::TimedOut => Some(SearchError::Timeout),
        Reply::Cancelled => Some(SearchError::Cancelled),
    }
}

fn append_copies(records: &mut Vec<Torrent>, more: &Vec<Torrent>)
    ensures
        views(final(records)@) == views(old(records)@) + views(more@),
{
    let mut j: usize = 0;
    while j < more.len()
        invariant
            j <= more.len(),
            views(records@) == views(old(records)@) + views(more@.take(j as int)),
        decreases more.len() - j,
    {
        let copy = more[j].duplicate();
        proof {
            assert(views(records@.push(copy)) =~= views(records@).push(copy@));
            assert(views(more@.take(j + 1)) =~= views(more@.take(j as int)).push(more@[j as int]@));
        }
        records.push(copy);
        j += 1;
    }
    proof {
        assert(more@.take(more@.len() as int) =~= more@);
    }
}

/// Merges the providers' outcomes, given in dispatch order. The records of
/// the providers that answered are concatenated in that order; every failure
/// is recorded under its provider's name. The merge fails only where there
/// were providers and each of them failed: the error then carries all the
/// failures.
pub fn merge(outcomes: &Vec<ProviderOutcome>) -> (r: Result<Aggregation, Aggregate>)
    ensures
        match r {
            Ok(a) => {
                &&& !all_failed(outcomes@)
                &&& views(a.records@) == merged_records(outcomes@)
                &&& failure_views(a.failures@) == recorded_failures(outcomes@)
            },
            Err(e) => {
                &&& all_failed(outcomes@)
                &&& failure_views(e.failures@) == recorded_failures(outcomes@)
            },
        },
{
    let mut records: Vec<Torrent> = Vec::new();
    let mut failures: Vec<ProviderFailure> = Vec::new();
    let mut any_succeeded = false;
    let mut i: usize = 0;
    while i < outcomes.len()
        invariant
            i <= outcomes.len(),
            views(records@) == merged_records(outcomes@.take(i as int)),
            failure_views(failures@) == recorded_failures(outcomes@.take(i as int)),
            any_succeeded == !none_succeeded(outcomes@.take(i as int)),
        decreases outcomes.len() - i,
    {
        let outcome = &outcomes[i];
        proof {
            let before = outcomes@.take(i as int);
            let after = outcomes@.take(i + 1);
            assert(after.drop_last() =~= before);
            assert(after.last() == *outcome);
            assert(none_succeeded(after) == (none_succeeded(before) && cause_of(
                outcome.reply,
            ) is Some)) by {
                if none_succeeded(after) {
                    assert forall|k: int| 0 <= k < before.len() implies cause_of(
                        #[trigger] before[k].reply,
                    ) is Some by {
                        assert(before[k] == after[k]);
                    }
                    assert(after[i as int] == *outcome);
                }
                if none_succeeded(before) && cause_of(outcome.reply) is Some {
                    assert forall|k: int| 0 <= k < after.len() implies cause_of(
                        #[trigger] after[k].reply,
                    ) is Some by {
                        if k < i {
                            assert(after[k] == before[k]);
                        }
                    }
                }
                if !none_succeeded(before) {
                    let k = choose|k: int|
                        0 <= k < before.len() && !(cause_of(#[trigger] before[k].reply) is Some);
                    assert(after[k] == before[k]);
                }
            }
        }
        match &outcome.reply {
            Reply::Records(found) => {
                append_copies(&mut records, found);
            },
            _ => {},
        }
        match failure_cause(&outcome.reply) {
            Some(cause) => {
                let failure = ProviderFailure { provider: outcome.provider.clone(), cause };
                proof {
                    assert(failure_views(failures@.push(failure)) =~= failure_views(
                        failures@,
                    ).push(failure@));
                }
                failures.push(failure);
            },
            None => {
                any_succeeded = true;
            },
        }
        i += 1;
    }
    proof {
        assert(outcomes@.take(outcomes@.len() as int) =~= outcomes@);
    }
    if outcomes.len() > 0 && !any_succeeded {
        Err(Aggregate { failures })
    } else {
        Ok(Aggregation { records, failures })
    }
}

/// Merging two runs of outcomes, one after the other, gives the records of
/// the first and then those of the second, and likewise the failures.
pub proof fn lemma_merge_of_concat(a: Seq<ProviderOutcome>, b: Seq<ProviderOutcome>)
    ensures
        merged_records(a + b) == merged_records(a) + merged_records(b),
        recorded_failures(a + b) == recorded_failures(a) + recorded_failures(b),
    decreases b.len(),
{
    if b.len() == 0 {
        assert(a + b =~= a);
        assert(merged_records(a) + merged_records(b) =~= merged_records(a));
        assert(recorded_failures(a) + recorded_failures(b) =~= recorded_failures(a));
    } else {
        lemma_merge_of_concat(a, b.drop_last());
        assert((a + b).drop_last() =~= a + b.drop_last());
        assert((a + b).last() == b.last());
        assert((merged_records(a) + merged_records(b.drop_last())) + records_in(b.last())
            =~= merged_records(a) + (merged_records(b.drop_last()) + records_in(b.last())));
        assert((recorded_failures(a) + recorded_failures(b.drop_last())) + failures_in(b.last())
            =~= recorded_failures(a) + (recorded_failures(b.drop_last()) + failures_in(
            b.last(),
        )));
    }
}

/// Where no provider succeeded, the merge holds no record and one failure
/// for each provider, in dispatch order, under the provider's name and with
/// its own cause.
pub proof fn lemma_total_failure_names_everyone(outcomes: Seq<ProviderOutcome>)
    requires
        none_succeeded(outcomes),
    ensures
        merged_records(outcomes).len() == 0,
        recorded_failures(outcomes).len() == outcomes.len(),
        forall|i: int|
            0 <= i < outcomes.len() ==> #[trigger] recorded_failures(outcomes)[i] == (FailureView {
                provider: outcomes[i].provider@,
                cause: cause_of(outcomes[i].reply).unwrap(),
            }),
    decreases outcomes.len(),
{
    if outcomes.len() > 0 {
        let front = outcomes.drop_last();
        assert forall|i: int| 0 <= i < front.len() implies cause_of(
            #[trigger] front[i].reply,
        ) is Some by {
            assert(front[i] == outcomes[i]);
        }
        lemma_total_failure_names_everyone(front);
        assert(cause_of(outcomes[outcomes.len() - 1].reply) is Some);
        assert forall|i: int| 0 <= i < outcomes.len() implies #[trigger] recorded_failures(
            outcomes,
        )[i] == (FailureView {
            provider: outcomes[i].provider@,
            cause: cause_of(outcomes[i].reply).unwrap(),
        }) by {
            if i < front.len() {
                assert(front[i] == outcomes[i]);
                assert(recorded_failures(outcomes)[i] == recorded_failures(front)[i]);
            }
        }
    }
}

/// A provider that failed, for whatever cause, a missed deadline included,
/// takes nothing from the records of the providers around it, and is
/// recorded between their failures under its name and with its cause.
pub proof fn lemma_failed_provider_is_isolated(
    before: Seq<ProviderOutcome>,
    failed: ProviderOutcome,
    after: Seq<ProviderOutcome>,
)
    requires
        cause_of(failed.reply) is Some,
    ensures
        merged_records(before.push(failed) + after) == merged_records(before) + merged_records(
            after,
        ),
        merged_records(before.push(failed) + after) == merged_records(before + after),
        recorded_failures(before.push(failed) + after) == recorded_failures(before).push(
            FailureView { provider: failed.provider@, cause: cause_of(failed.reply).unwrap() },
        ) + recorded_failures(after),
{
    lemma_merge_of_concat(before.push(failed), after);
    lemma_merge_of_concat(before, after);
    assert(before.push(failed).drop_last() =~= before);
    assert(before.push(failed).last() == failed);
    assert(merged_records(before) + records_in(failed) =~= merged_records(before));
    assert(recorded_failures(before) + failures_in(failed) =~= recorded_failures(before).push(
        FailureView { provider: failed.provider@, cause: cause_of(failed.reply).unwrap() },
    ));
}

/// The outcomes before any provider has answered: each provider, in
/// dispatch order, stands as timed out until its answer is recorded.
pub open spec fn dispatched(providers: Seq<String>) -> Seq<ProviderOutcome> {
    Seq::new(
        providers.len(),
        |i: int| ProviderOutcome { provider: providers[i], reply: Reply::TimedOut },
    )
}

/// Whether the provider at `index` is still awaited.
pub open spec fn awaited(outcomes: Seq<ProviderOutcome>, index: int) -> bool {
    0 <= index < outcomes.len() && outcomes[index].reply is TimedOut
}

/// The reply that a provider's answer is recorded as.
pub open spec fn reply_of(answer: Result<Vec<Torrent>, SearchError>) -> Reply {
    match answer {
        Ok(records) => Reply::Records(records),
        Err(e) => Reply::Failed(e),
    }
}

/// The outcomes after a reply of the provider at `index` has arrived: the
/// reply takes the provider's place where the provider was awaited, and is
/// discarded otherwise.
pub open spec fn recorded(outcomes: Seq<ProviderOutcome>, index: int, reply: Reply) -> Seq<
    ProviderOutcome,
> {
    if awaited(outcomes, index) {
        outcomes.update(index, ProviderOutcome { provider: outcomes[index].provider, reply })
    } else {
        outcomes
    }
}

/// The outcomes after the caller has withdrawn the search: every provider
/// still awaited stands as cancelled, the others as they were.
pub open spec fn withdrawn(outcomes: Seq<ProviderOutcome>) -> Seq<ProviderOutcome> {
    Seq::new(
        outcomes.len(),
        |i: int|
            if outcomes[i].reply is TimedOut {
                ProviderOutcome { provider: outcomes[i].provider, reply: Reply::Cancelled }
            } else {
                outcomes[i]
            },
    )
}

/// One search over a set of providers, from dispatch to merge. The caller
/// dispatches the term to every provider at once and records each answer as
/// it arrives, in whatever order; when all have answered or the deadline has
/// passed it asks for the merge. At every moment the aggregator holds what
/// the merge would be made of if the deadline passed now.
#[derive(Clone, Debug)]
pub struct Aggregator {
    outcomes: Vec<ProviderOutcome>,
}

impl Aggregator {
    /// The outcome held for each provider, in dispatch order.
    pub closed spec fn outcomes(&self) -> Seq<ProviderOutcome> {
        self.outcomes@
    }

    /// Starts a search over `providers`, named in dispatch order.
    pub fn new(providers: &Vec<String>) -> (aggregator: Aggregator)
        ensures
            aggregator.outcomes() == dispatched(providers@),
    {
        let mut outcomes: Vec<ProviderOutcome> = Vec::new();
        let mut i: usize = 0;
        while i < providers.len()
            invariant
                i <= providers.len(),
                outcomes@ == dispatched(providers@.take(i as int)),
            decreases providers.len() - i,
        {
            let fresh = ProviderOutcome { provider: providers[i].clone(), reply: Reply::TimedOut };
            proof {
                assert(dispatched(providers@.take(i as int)).push(fresh) =~= dispatched(
                    providers@.take(i + 1),
                ));
            }
            outcomes.push(fresh);
            i += 1;
        }
        proof {
            assert(providers@.take(providers@.len() as int) =~= providers@);
        }
        Aggregator { outcomes }
    }

    /// The number of providers.
    pub fn len(&self) -> (n: usize)
        ensures
            n == self.outcomes().len(),
    {
        self.outcomes.len()
    }

    /// Whether the provider at `index` is still awaited.
    pub fn is_awaited(&self, index: usize) -> (r: bool)
        ensures
            r == awaited(self.outcomes(), index as int),
    {
        if index < self.outcomes.len() {
            match &self.outcomes[index].reply {
                Reply::TimedOut => true,
                _ => false,
            }
        } else {
            false
        }
    }

    /// Whether no provider is awaited any more.
    pub fn is_complete(&self) -> (r: bool)
        ensures
            r == forall|i: int| !awaited(self.outcomes(), i),
    {
        let mut i: usize = 0;
        while i < self.outcomes.len()
            invariant
                i <= self.outcomes.len(),
                forall|k: int| k < i ==> !awaited(self.outcomes(), k),
            decreases self.outcomes.len() - i,
        {
            if self.is_awaited(i) {
                return false;
            }
            i += 1;
        }
        true
    }

    /// Records the answer of the provider at `index`. Only the first answer
    /// of an awaited provider counts: one that comes after the search was
    /// withdrawn, a second one, or one under an index that names no
    /// provider, changes nothing and gives `false`.
    pub fn record(&mut self, index: usize, answer: Result<Vec<Torrent>, SearchError>) -> (accepted:
        bool)
        ensures
            accepted == awaited(old(self).outcomes(), index as int),
            final(self).outcomes() == recorded(
                old(self).outcomes(),
                index as int,
                reply_of(answer),
            ),
    {
        if !self.is_awaited(index) {
            return false;
        }
        let reply = match answer {
            Ok(records) => Reply::Records(records),
            Err(e) => Reply::Failed(e),
        };
        let provider = self.outcomes[index].provider.clone();
        self.outcomes.set(index, ProviderOutcome { provider, reply });
        true
    }

    /// Withdraws the search: every provider still awaited is recorded as
    /// cancelled, and what the others answered stays.
    pub fn withdraw(&mut self)
        ensures
            final(self).outcomes() == withdrawn(old(self).outcomes()),
    {
        let mut i: usize = 0;
        while i < self.outcomes.len()
            invariant
                i <= self.outcomes.len(),
                self.outcomes@.len() == old(self).outcomes@.len(),
                forall|k: int|
                    0 <= k < i ==> self.outcomes@[k] == withdrawn(old(self).outcomes@)[k],
                forall|k: int|
                    i <= k < self.outcomes@.len() ==> self.outcomes@[k] == old(self).outcomes@[k],
            decreases self.outcomes.len() - i,
        {
            if self.is_awaited(i) {
                let provider = self.outcomes[i].provider.clone();
                self.outcomes.set(i, ProviderOutcome { provider, reply: Reply::Cancelled });
            }
            i += 1;
        }
        proof {
            assert(self.outcomes@ =~= withdrawn(old(self).outcomes@));
        }
    }

    /// Ends the search and merges what is held, as [`merge`] does. A
    /// provider still awaited counts as timed out.
    pub fn finish(self) -> (r: Result<Aggregation, Aggregate>)
        ensures
            match r {
                Ok(a) => {
                    &&& !all_failed(self.outcomes())
                    &&& views(a.records@) == merged_records(self.outcomes())
                    &&& failure_views(a.failures@) == recorded_failures(self.outcomes())
                },
                Err(e) => {
                    &&& all_failed(self.outcomes())
                    &&& failure_views(e.failures@) == recorded_failures(self.outcomes())
                },
            },
    {
        merge(&self.outcomes)
    }
}

/// Answers of two different providers may arrive in either order: what is
/// held afterwards, and so the merge, is the same.
pub proof fn lemma_arrival_order_is_immaterial(
    outcomes: Seq<ProviderOutcome>,
    i: int,
    first: Reply,
    j: int,
    second: Reply,
)
    requires
        i != j,
    ensures
        recorded(recorded(outcomes, i, first), j, second) == recorded(
            recorded(outcomes, j, second),
            i,
            first,
        ),
{
    assert(recorded(recorded(outcomes, i, first), j, second) =~= recorded(
        recorded(outcomes, j, second),
        i,
        first,
    ));
}

/// Recording an answer changes no other provider's outcome, nor any
/// provider's name or place.
pub proof fn lemma_record_touches_one_provider(
    outcomes: Seq<ProviderOutcome>,
    index: int,
    reply: Reply,
)
    ensures
        recorded(outcomes, index, reply).len() == outcomes.len(),
        forall|k: int|
            0 <= k < outcomes.len() ==> (#[trigger] recorded(outcomes, index, reply)[k]).provider
                == outcomes[k].provider,
        forall|k: int|
            0 <= k < outcomes.len() && k != index ==> #[trigger] recorded(outcomes, index, reply)[k]
                == outcomes[k],
{
}

/// A provider that is still awaited when the merge is made adds no record
/// and is recorded as timed out, whatever the others answered.
pub proof fn lemma_awaited_provider_times_out(outcomes: Seq<ProviderOutcome>, index: int)
    requires
        awaited(outcomes, index),
    ensures
        merged_records(outcomes) == merged_records(outcomes.take(index)) + merged_records(
            outcomes.skip(index + 1),
        ),
        recorded_failures(outcomes) == recorded_failures(outcomes.take(index)).push(
            FailureView { provider: outcomes[index].provider@, cause: SearchError::Timeout },
        ) + recorded_failures(outcomes.skip(index + 1)),
{
    assert(outcomes =~= outcomes.take(index).push(outcomes[index]) + outcomes.skip(index + 1));
    lemma_failed_provider_is_isolated(
        outcomes.take(index),
        outcomes[index],
        outcomes.skip(index + 1),
    );
}

/// No failure is lost: a provider that failed is recorded in the merge,
/// under its name and with its cause.
pub proof fn lemma_every_failure_is_recorded(outcomes: Seq<ProviderOutcome>, index: int)
    requires
        0 <= index < outcomes.len(),
        cause_of(outcomes[index].reply) is Some,
    ensures
        recorded_failures(outcomes).contains(
            FailureView {
                provider: outcomes[index].provider@,
                cause: cause_of(outcomes[index].reply).unwrap(),
            },
        ),
{
    let before = outcomes.take(index);
    let after = outcomes.skip(index + 1);
    assert(outcomes =~= before.push(outcomes[index]) + after);
    lemma_failed_provider_is_isolated(before, outcomes[index], after);
    let at = recorded_failures(before).len() as int;
    assert(recorded_failures(outcomes)[at] == FailureView {
        provider: outcomes[index].provider@,
        cause: cause_of(outcomes[index].reply).unwrap(),
    });
}

/// Where every provider's records carry magnet links, so do the merged
/// records.
pub proof fn lemma_merge_keeps_magnets(outcomes: Seq<ProviderOutcome>)
    requires
        forall|i: int| 0 <= i < outcomes.len() ==> all_magnets(#[trigger] records_in(outcomes[i])),
    ensures
        all_magnets(merged_records(outcomes)),
    decreases outcomes.len(),
{
    if outcomes.len() > 0 {
        let front = outcomes.drop_last();
        assert forall|i: int| 0 <= i < front.len() implies all_magnets(
            #[trigger] records_in(front[i]),
        ) by {
            assert(front[i] == outcomes[i]);
        }
        lemma_merge_keeps_magnets(front);
        assert(all_magnets(records_in(outcomes[outcomes.len() - 1])));
    }
}

/// Withdrawing the search loses no record: what the providers had answered
/// is merged as before, and no provider is left awaited.
pub proof fn lemma_withdrawal_keeps_records(outcomes: Seq<ProviderOutcome>)
    ensures
        merged_records(withdrawn(outcomes)) == merged_records(outcomes),
        withdrawn(outcomes).len() == outcomes.len(),
        forall|i: int| !awaited(withdrawn(outcomes), i),
    decreases outcomes.len(),
{
    if outcomes.len() > 0 {
        lemma_withdrawal_keeps_records(outcomes.drop_last());
        assert(withdrawn(outcomes).drop_last() =~= withdrawn(outcomes.drop_last()));
        assert(records_in(withdrawn(outcomes).last()) == records_in(outcomes.last()));
    }
}

} // verus!
