//! Admission control for the resolver tasks: a coordinator that hands out
//! raw import paths in listing order, never letting more than a fixed bound
//! of resolutions be in flight at once, and that folds every settled outcome
//! into the deduplicated result set. Each resolution's fetch happens outside
//! the crate; the caller asks the coordinator to start work, performs it, and
//! reports each outcome back.

use vstd::prelude::*;

use crate::results::ResultSet;

verus! {

/// The coordinator's state: which paths are still pending, how many
/// resolutions are in flight, and what has been collected so far.
pub struct Coordinator {
    paths: Vec<String>,
    started: usize,
    in_flight: usize,
    bound: usize,
    failures: usize,
    results: ResultSet,
    resolved: Ghost<Seq<Seq<char>>>,
}

impl Coordinator {
    /// The raw import paths, in listing order.
    pub closed spec fn paths_seq(&self) -> Seq<Seq<char>> {
        self.paths.deep_view()
    }

    /// How many paths have been handed out so far.
    pub closed spec fn started(&self) -> nat {
        self.started as nat
    }

    /// How many resolutions are in flight: started and not yet settled.
    pub closed spec fn in_flight(&self) -> nat {
        self.in_flight as nat
    }

    /// The admission bound: the most resolutions ever in flight at once.
    pub closed spec fn bound(&self) -> nat {
        self.bound as nat
    }

    /// How many resolutions settled as failures.
    pub closed spec fn failures(&self) -> nat {
        self.failures as nat
    }

    /// The identifiers of the successfully settled resolutions, in
    /// settlement order.
    pub closed spec fn resolved(&self) -> Seq<Seq<char>> {
        self.resolved@
    }

    /// The collected result set.
    pub closed spec fn collected(&self) -> Set<Seq<char>> {
        self.results@
    }

    /// The coordinator's invariant. In particular, the number of resolutions
    /// in flight never exceeds the bound, and the result set holds exactly
    /// the successfully resolved identifiers: every settled path is counted
    /// once, as a success or as a failure, and failures leave no trace in
    /// the set.
    pub closed spec fn wf(&self) -> bool {
        &&& self.bound >= 1
        &&& self.in_flight <= self.bound
        &&& self.started <= self.paths.deep_view().len()
        &&& self.resolved@.len() + self.failures + self.in_flight == self.started
        &&& self.results.wf()
        &&& self.results@ == self.resolved@.to_set()
    }

    /// Returns a coordinator for the given paths and bound, with nothing
    /// started and nothing collected.
    pub fn new(paths: Vec<String>, bound: usize) -> (c: Coordinator)
        requires
            bound >= 1,
        ensures
            c.wf(),
            c.paths_seq() == paths.deep_view(),
            c.bound() == bound,
            c.started() == 0,
            c.in_flight() == 0,
            c.failures() == 0,
            c.resolved() == Seq::<Seq<char>>::empty(),
            c.collected() == Set::<Seq<char>>::empty(),
    {
        let c = Coordinator {
            paths,
            started: 0,
            in_flight: 0,
            bound,
            failures: 0,
            results: ResultSet::new(),
            resolved: Ghost(Seq::empty()),
        };
        proof {
            assert(Seq::<Seq<char>>::empty().to_set() =~= Set::<Seq<char>>::empty());
        }
        c
    }

    /// Returns whether another resolution may start now: a path is pending
    /// and the in-flight count is below the bound.
    pub fn can_start(&self) -> (r: bool)
        ensures
            r == (self.started() < self.paths_seq().len() && self.in_flight() < self.bound()),
    {
        proof {
            assert(self.paths.deep_view().len() == self.paths@.len());
        }
        self.started < self.paths.len() && self.in_flight < self.bound
    }

    /// Hands out the next pending path and counts it in flight. The bound is
    /// respected: this may only be called while the in-flight count is below
    /// it.
    pub fn start(&mut self) -> (p: String)
        requires
            old(self).wf(),
            old(self).started() < old(self).paths_seq().len(),
            old(self).in_flight() < old(self).bound(),
        ensures
            final(self).wf(),
            p@ == old(self).paths_seq()[old(self).started() as int],
            final(self).paths_seq() == old(self).paths_seq(),
            final(self).bound() == old(self).bound(),
            final(self).started() == old(self).started() + 1,
            final(self).in_flight() == old(self).in_flight() + 1,
            final(self).in_flight() <= final(self).bound(),
            final(self).failures() == old(self).failures(),
            final(self).resolved() == old(self).resolved(),
            final(self).collected() == old(self).collected(),
    {
        let n = self.paths.len();
        proof {
            assert(self.paths.deep_view().len() == self.paths@.len());
            assert(self.paths.deep_view()[self.started as int] == self.paths@[self.started as int]@);
            assert(self.started < n);
        }
        let p = self.paths[self.started].clone();
        self.started = self.started + 1;
        self.in_flight = self.in_flight + 1;
        p
    }

    /// Settles one in-flight resolution as a success: the identifier joins
    /// the result set, deduplicated.
    pub fn settle_success(&mut self, id: String)
        requires
            old(self).wf(),
            old(self).in_flight() >= 1,
        ensures
            final(self).wf(),
            final(self).paths_seq() == old(self).paths_seq(),
            final(self).bound() == old(self).bound(),
            final(self).started() == old(self).started(),
            final(self).in_flight() == old(self).in_flight() - 1,
            final(self).failures() == old(self).failures(),
            final(self).resolved() == old(self).resolved().push(id@),
            final(self).collected() == old(self).collected().insert(id@),
    {
        let ghost idv = id@;
        self.in_flight = self.in_flight - 1;
        self.results.insert(id);
        proof {
            self.resolved@ = self.resolved@.push(idv);
            old(self).resolved@.lemma_push_to_set_commute(idv);
        }
    }

    /// Settles one in-flight resolution as a failure: it is counted, and the
    /// result set is left exactly as it was.
    pub fn settle_failure(&mut self)
        requires
            old(self).wf(),
            old(self).in_flight() >= 1,
        ensures
            final(self).wf(),
            final(self).paths_seq() == old(self).paths_seq(),
            final(self).bound() == old(self).bound(),
            final(self).started() == old(self).started(),
            final(self).in_flight() == old(self).in_flight() - 1,
            final(self).failures() == old(self).failures() + 1,
            final(self).resolved() == old(self).resolved(),
            final(self).collected() == old(self).collected(),
    {
        self.in_flight = self.in_flight - 1;
        self.failures = self.failures + 1;
    }

    /// Returns whether every scheduled resolution has settled and no path is
    /// pending: only then is the result set final.
    pub fn is_done(&self) -> (r: bool)
        ensures
            r == (self.started() == self.paths_seq().len() && self.in_flight() == 0),
    {
        proof {
            assert(self.paths.deep_view().len() == self.paths@.len());
        }
        self.started == self.paths.len() && self.in_flight == 0
    }

    /// How many resolutions are in flight.
    pub fn in_flight_count(&self) -> (r: usize)
        ensures
            r == self.in_flight(),
    {
        self.in_flight
    }

    /// How many resolutions settled as failures.
    pub fn failure_count(&self) -> (r: usize)
        ensures
            r == self.failures(),
    {
        self.failures
    }

    /// The result set holds exactly the identifiers of the successfully
    /// settled resolutions: a failed resolution leaves no trace in it, and a
    /// success leaves exactly its identifier.
    pub proof fn lemma_collected_is_resolved(&self)
        requires
            self.wf(),
        ensures
            self.collected() == self.resolved().to_set(),
    {
    }

    /// Hands the collected result set over.
    pub fn into_results(self) -> (r: ResultSet)
        requires
            self.wf(),
        ensures
            r.wf(),
            r@ == self.collected(),
    {
        self.results
    }
}

} // verus!
