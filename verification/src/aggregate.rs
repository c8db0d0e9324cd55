//! The aggregator's completion barrier: one activity-builder task is
//! dispatched per discovered repository, and the report may be assembled only
//! once as many results have arrived as repositories were dispatched.
//! Arrival order is unconstrained; completion is a function of the count of
//! collected results alone.

use vstd::prelude::*;

use crate::model::RepositoryActivity;

verus! {

/// Collects one [`RepositoryActivity`] per dispatched repository, in arrival
/// order, and releases once every dispatched repository has reported. A
/// repository whose task failed must still be submitted (with an empty
/// activity), so the barrier never waits on a silently dead task.
pub struct Collector {
    /// How many repository tasks were dispatched.
    pub expected: usize,
    /// The results that have arrived, in arrival order.
    pub collected: Vec<RepositoryActivity>,
}

impl Collector {
    /// The barrier releases exactly when as many results have arrived as
    /// tasks were dispatched.
    pub open spec fn complete(self) -> bool {
        self.collected@.len() == self.expected
    }

    /// A fresh barrier for `expected` dispatched repositories.
    pub fn new(expected: usize) -> (r: Collector)
        ensures
            r.expected == expected,
            r.collected@.len() == 0,
            r.complete() <==> expected == 0,
    {
        Collector { expected, collected: Vec::new() }
    }

    /// One repository has reported; its result joins the collection.
    pub fn submit(&mut self, activity: RepositoryActivity)
        requires
            old(self).collected@.len() < old(self).expected,
        ensures
            final(self).expected == old(self).expected,
            final(self).collected@ == old(self).collected@.push(activity),
            final(self).complete() <==> old(self).collected@.len() + 1 == old(self).expected,
    {
        self.collected.push(activity);
    }

    /// Whether every dispatched repository has reported.
    pub fn is_complete(&self) -> (r: bool)
        ensures
            r == self.complete(),
    {
        self.collected.len() == self.expected
    }

    /// Hand the collected results out for rendering. Only a complete barrier
    /// may be taken apart, so rendering always sees exactly one result per
    /// dispatched repository.
    pub fn into_results(self) -> (r: Vec<RepositoryActivity>)
        requires
            self.complete(),
        ensures
            r@ == self.collected@,
            r@.len() == self.expected,
    {
        let Collector { expected: _, collected } = self;
        collected
    }
}

/// Completion is blind to arrival order and to the results themselves: two
/// barriers for the same number of dispatched repositories whose collections
/// are permutations of one another complete together.
pub proof fn lemma_completion_order_blind(a: Collector, b: Collector)
    requires
        a.expected == b.expected,
        a.collected@.to_multiset() == b.collected@.to_multiset(),
    ensures
        a.complete() == b.complete(),
{
    a.collected@.to_multiset_ensures();
    b.collected@.to_multiset_ensures();
}

/// The barrier releases exactly when the count of collected results equals
/// the count of dispatched repositories, no earlier and no later.
pub proof fn lemma_release_at_expected(c: Collector)
    ensures
        c.complete() <==> c.collected@.len() == c.expected,
{
}

} // verus!
