//! The link checker scheduling core: a bounded-concurrency dispatcher.
//!
//! Checking a URL is outside work; deciding which check may start, how many
//! may be outstanding at once, and what becomes of each completed check is
//! decided here. The caller loops: `dispatch` hands out the next URL while
//! fewer than `limit` checks are outstanding, and `complete` returns one
//! URL's transport outcome, which is classified and recorded. Two laws hold
//! throughout: never more than `limit` checks are in flight, and no URL is
//! ever dropped — every input ends as exactly one result.

use crate::classify::{classify_outcome, classify_outcome_spec, ProbeOutcome};
use crate::status::{LinkCheckResult, VerifierConfig};
use crate::strutil::str_views;
use vstd::multiset::Multiset;
use vstd::prelude::*;

verus! {

broadcast use vstd::seq_lib::group_to_multiset_ensures;

/// The URLs of a sequence of results.
pub open spec fn result_urls(s: Seq<LinkCheckResult>) -> Seq<Seq<char>> {
    s.map_values(|r: LinkCheckResult| r.url@)
}

/// One verification batch in progress: the URLs not yet started, the URLs
/// whose checks are outstanding, and the finished results.
pub struct Dispatcher {
    pub pending: Vec<String>,
    pub in_flight: Vec<String>,
    pub results: Vec<LinkCheckResult>,
    pub limit: usize,
}

impl Dispatcher {
    /// At most `limit` checks are outstanding at any point.
    pub open spec fn wf(self) -> bool {
        self.limit >= 1 && self.in_flight@.len() <= self.limit
    }

    /// Every URL of the batch, wherever it now is: not yet started, in
    /// flight, or finished. This multiset never changes after construction.
    pub open spec fn urls_multiset(self) -> Multiset<Seq<char>> {
        str_views(self.pending@).to_multiset().add(
            str_views(self.in_flight@).to_multiset(),
        ).add(result_urls(self.results@).to_multiset())
    }

    /// Starts a batch over `urls` with at most `limit` concurrent checks.
    pub fn new(urls: Vec<String>, limit: usize) -> (d: Dispatcher)
        requires
            limit >= 1,
        ensures
            d.wf(),
            d.pending == urls,
            d.in_flight@ == Seq::<String>::empty(),
            d.results@ == Seq::<LinkCheckResult>::empty(),
            d.limit == limit,
            d.urls_multiset() == str_views(urls@).to_multiset(),
            d.urls_multiset().len() == urls@.len(),
    {
        let d = Dispatcher { pending: urls, in_flight: Vec::new(), results: Vec::new(), limit };
        proof {
            assert(str_views(d.in_flight@) =~= Seq::<Seq<char>>::empty());
            assert(result_urls(d.results@) =~= Seq::<Seq<char>>::empty());
            assert(d.urls_multiset() =~= str_views(d.pending@).to_multiset());
            assert(str_views(d.pending@).len() == d.pending@.len());
        }
        d
    }

    /// Starts a batch over `urls` bounded by a configuration's concurrency
    /// limit.
    pub fn with_config(urls: Vec<String>, config: &VerifierConfig) -> (d: Dispatcher)
        requires
            config.wf(),
        ensures
            d.wf(),
            d.pending == urls,
            d.in_flight@ == Seq::<String>::empty(),
            d.results@ == Seq::<LinkCheckResult>::empty(),
            d.limit == config.concurrency_limit,
            d.urls_multiset() == str_views(urls@).to_multiset(),
            d.urls_multiset().len() == urls@.len(),
    {
        Dispatcher::new(urls, config.concurrency_limit)
    }

    /// Hands out the next URL to check, when one is waiting and fewer than
    /// `limit` checks are outstanding; the URL moves from `pending` to
    /// `in_flight`. The bound `in_flight.len() <= limit` is never broken.
    pub fn dispatch(&mut self) -> (r: Option<String>)
        requires
            old(self).wf(),
        ensures
            final(self).wf(),
            final(self).in_flight@.len() <= final(self).limit,
            final(self).limit == old(self).limit,
            final(self).results == old(self).results,
            final(self).urls_multiset() == old(self).urls_multiset(),
            r is Some <==> (old(self).pending@.len() > 0 && old(self).in_flight@.len() < old(
                self,
            ).limit),
            r matches Some(u) ==> {
                &&& u == old(self).pending@.last()
                &&& final(self).pending@ == old(self).pending@.drop_last()
                &&& final(self).in_flight@ == old(self).in_flight@.push(u)
            },
            r is None ==> *final(self) == *old(self),
    {
        if self.pending.len() == 0 || self.in_flight.len() >= self.limit {
            return None;
        }
        let ghost old_self = *self;
        let url = match self.pending.pop() {
            Some(u) => u,
            None => {
                // unreachable: pending is non-empty
                return None;
            },
        };
        let url_again = url.clone();
        self.in_flight.push(url_again);
        proof {
            assert(old_self.pending@.drop_last() =~= self.pending@);
            assert(str_views(old_self.pending@) =~= str_views(self.pending@).push(url@));
            assert(str_views(self.in_flight@) =~= str_views(old_self.in_flight@).push(url@));
            assert(self.urls_multiset() =~= old_self.urls_multiset());
        }
        Some(url)
    }

    /// Records the transport outcome of one outstanding check: the URL
    /// leaves `in_flight` and exactly one classified result for it joins
    /// `results`. Returns false, changing nothing, when `url` is not in
    /// flight.
    pub fn complete(&mut self, url: &str, outcome: ProbeOutcome) -> (accepted: bool)
        requires
            old(self).wf(),
        ensures
            final(self).wf(),
            final(self).limit == old(self).limit,
            final(self).pending == old(self).pending,
            final(self).urls_multiset() == old(self).urls_multiset(),
            accepted == str_views(old(self).in_flight@).contains(url@),
            accepted ==> {
                &&& str_views(final(self).in_flight@).to_multiset() == str_views(
                    old(self).in_flight@,
                ).to_multiset().remove(url@)
                &&& final(self).in_flight@.len() == old(self).in_flight@.len() - 1
                &&& final(self).results@.len() == old(self).results@.len() + 1
                &&& final(self).results@ == old(self).results@.push(
                    final(self).results@.last(),
                )
                &&& final(self).results@.last().url@ == url@
                &&& final(self).results@.last().status@ == classify_outcome_spec(outcome)
                &&& final(self).results@.last().message is Some
            },
            !accepted ==> *final(self) == *old(self),
    {
        let n = self.in_flight.len();
        let mut i: usize = 0;
        while i < n
            invariant
                *self == *old(self),
                old(self).wf(),
                n == self.in_flight@.len(),
                i <= n,
                forall|j: int| 0 <= j < i ==> str_views(self.in_flight@)[j] != url@,
            decreases n - i,
        {
            if crate::strutil::str_eq(self.in_flight[i].as_str(), url) {
                let ghost old_self = *self;
                let removed = self.in_flight.remove(i);
                let res = classify_outcome(removed, outcome);
                self.results.push(res);
                proof {
                    assert(str_views(old_self.in_flight@)[i as int] == url@);
                    assert(str_views(old_self.in_flight@).contains(url@));
                    assert(str_views(self.in_flight@) =~= str_views(
                        old_self.in_flight@,
                    ).remove(i as int));
                    assert(str_views(self.in_flight@).to_multiset() =~= str_views(
                        old_self.in_flight@,
                    ).to_multiset().remove(url@));
                    assert(result_urls(self.results@) =~= result_urls(old_self.results@).push(
                        url@,
                    ));
                    assert(self.results@ =~= old_self.results@.push(self.results@.last()));
                    assert(self.urls_multiset() =~= old_self.urls_multiset()) by {
                        lemma_shuffle(
                            str_views(old_self.pending@).to_multiset(),
                            str_views(old_self.in_flight@).to_multiset(),
                            result_urls(old_self.results@).to_multiset(),
                            url@,
                        );
                    }
                }
                return true;
            }
            i += 1;
        }
        proof {
            assert(!str_views(self.in_flight@).contains(url@)) by {
                assert(forall|j: int|
                    0 <= j < str_views(self.in_flight@).len() ==> str_views(self.in_flight@)[j]
                        != url@);
            }
        }
        false
    }

    /// Whether every URL of the batch has been checked.
    pub fn is_done(&self) -> (r: bool)
        ensures
            r == (self.pending@.len() == 0 && self.in_flight@.len() == 0),
    {
        self.pending.len() == 0 && self.in_flight.len() == 0
    }

    /// How many checks are outstanding right now.
    pub fn in_flight_count(&self) -> (r: usize)
        ensures
            r == self.in_flight@.len(),
    {
        self.in_flight.len()
    }

    /// When a batch is done, its results account for every URL it was
    /// started with: the multiset of result URLs equals the multiset of
    /// input URLs, so each input produced exactly one result and none was
    /// dropped.
    pub proof fn lemma_done_accounts_for_all(self)
        requires
            self.pending@.len() == 0,
            self.in_flight@.len() == 0,
        ensures
            result_urls(self.results@).to_multiset() == self.urls_multiset(),
            self.results@.len() == self.urls_multiset().len(),
    {
        assert(str_views(self.pending@) =~= Seq::<Seq<char>>::empty());
        assert(str_views(self.in_flight@) =~= Seq::<Seq<char>>::empty());
        assert(result_urls(self.results@).to_multiset() =~= self.urls_multiset());
        assert(result_urls(self.results@).len() == self.results@.len());
    }
}

/// Moving one occurrence of `x` from the second of three multisets to the
/// third leaves their sum unchanged.
proof fn lemma_shuffle(
    a: Multiset<Seq<char>>,
    b: Multiset<Seq<char>>,
    c: Multiset<Seq<char>>,
    x: Seq<char>,
)
    requires
        b.count(x) > 0,
    ensures
        a.add(b.remove(x)).add(c.insert(x)) == a.add(b).add(c),
{
    assert(a.add(b.remove(x)).add(c.insert(x)) =~= a.add(b).add(c));
}

} // verus!
