//! The count of consecutive failed probes of each site.
use vstd::prelude::*;
use crate::docker::{SiteResult, SiteStatus};

verus! {

/// No two entries have the same site.
pub open spec fn keys_distinct(e: Seq<(Seq<char>, u32)>) -> bool {
    forall|i: int, j: int| 0 <= i < j < e.len() ==> #[trigger] e[i].0 != #[trigger] e[j].0
}

/// The map from site to count that the entries hold.
pub open spec fn map_of(e: Seq<(Seq<char>, u32)>) -> Map<Seq<char>, u32>
    decreases e.len(),
{
    if e.len() == 0 {
        Map::empty()
    } else {
        map_of(e.drop_last()).insert(e.last().0, e.last().1)
    }
}

pub proof fn lemma_map_of_dom(e: Seq<(Seq<char>, u32)>, k: Seq<char>)
    ensures
        map_of(e).dom().contains(k) <==> exists|i: int| 0 <= i < e.len() && #[trigger] e[i].0 == k,
    decreases e.len(),
{
    if e.len() > 0 {
        lemma_map_of_dom(e.drop_last(), k);
        if map_of(e.drop_last()).dom().contains(k) {
            let i = choose|i: int| 0 <= i < e.drop_last().len() && #[trigger] e.drop_last()[i].0 == k;
            assert(e[i].0 == k);
        }
        if exists|i: int| 0 <= i < e.len() && #[trigger] e[i].0 == k {
            let i = choose|i: int| 0 <= i < e.len() && #[trigger] e[i].0 == k;
            if i < e.len() - 1 {
                assert(e.drop_last()[i].0 == k);
            }
        }
    }
}

pub proof fn lemma_map_of_index(e: Seq<(Seq<char>, u32)>, i: int)
    requires
        keys_distinct(e),
        0 <= i < e.len(),
    ensures
        map_of(e).dom().contains(e[i].0),
        map_of(e)[e[i].0] == e[i].1,
    decreases e.len(),
{
    lemma_map_of_dom(e, e[i].0);
    if i < e.len() - 1 {
        lemma_map_of_index(e.drop_last(), i);
        assert(e.drop_last()[i] == e[i]);
        assert(e[i].0 != e.last().0);
    }
}

proof fn lemma_map_of_update(e: Seq<(Seq<char>, u32)>, i: int, v: u32)
    requires
        keys_distinct(e),
        0 <= i < e.len(),
    ensures
        map_of(e.update(i, (e[i].0, v))) == map_of(e).insert(e[i].0, v),
        keys_distinct(e.update(i, (e[i].0, v))),
    decreases e.len(),
{
    let u = e.update(i, (e[i].0, v));
    if i == e.len() - 1 {
        assert(u.drop_last() == e.drop_last());
        assert(map_of(u) =~= map_of(e).insert(e[i].0, v));
    } else {
        lemma_map_of_update(e.drop_last(), i, v);
        assert(u.drop_last() == e.drop_last().update(i, (e[i].0, v)));
        assert(e[i].0 != e.last().0);
        assert(map_of(u) =~= map_of(e).insert(e[i].0, v));
    }
}

/// A site's count, zero for a site never recorded.
pub open spec fn count_of(m: Map<Seq<char>, u32>, site: Seq<char>) -> int {
    if m.dom().contains(site) {
        m[site] as int
    } else {
        0
    }
}

/// The counts after one probe result: a pass sets the site's count to zero,
/// a failure adds one to it.
pub open spec fn after_result(m: Map<Seq<char>, u32>, r: (Seq<char>, SiteStatus)) -> Map<Seq<char>, u32> {
    match r.1 {
        SiteStatus::Pass => m.insert(r.0, 0),
        SiteStatus::Fail => m.insert(r.0, (count_of(m, r.0) + 1) as u32),
    }
}

/// The counts after the results, taken in order.
pub open spec fn after_results(m: Map<Seq<char>, u32>, rs: Seq<(Seq<char>, SiteStatus)>) -> Map<Seq<char>, u32>
    decreases rs.len(),
{
    if rs.len() == 0 {
        m
    } else {
        after_result(after_results(m, rs.drop_last()), rs.last())
    }
}

/// Some failure among the results brings its site's count to `threshold` or
/// beyond.
pub open spec fn reaches_threshold(m: Map<Seq<char>, u32>, rs: Seq<(Seq<char>, SiteStatus)>, threshold: u32) -> bool
    decreases rs.len(),
{
    if rs.len() == 0 {
        false
    } else {
        ||| reaches_threshold(m, rs.drop_last(), threshold)
        ||| (rs.last().1 == SiteStatus::Fail && count_of(after_results(m, rs), rs.last().0) >= threshold)
    }
}

/// No count overflows while the results are recorded.
pub open spec fn results_fit(m: Map<Seq<char>, u32>, rs: Seq<(Seq<char>, SiteStatus)>) -> bool
    decreases rs.len(),
{
    if rs.len() == 0 {
        true
    } else {
        &&& results_fit(m, rs.drop_last())
        &&& (rs.last().1 == SiteStatus::Fail ==> count_of(after_results(m, rs.drop_last()), rs.last().0) < u32::MAX)
    }
}

/// The (site, status) pairs of the results.
pub open spec fn outcomes(results: Seq<SiteResult>) -> Seq<(Seq<char>, SiteStatus)> {
    results.map_values(|r: SiteResult| (r.site@, r.status))
}


/// How many of the results are failures of `site`.
pub open spec fn fails_for(rs: Seq<(Seq<char>, SiteStatus)>, site: Seq<char>) -> int
    decreases rs.len(),
{
    if rs.len() == 0 {
        0
    } else {
        fails_for(rs.drop_last(), site) + if rs.last() == (site, SiteStatus::Fail) {
            1int
        } else {
            0int
        }
    }
}

/// No result is a pass of `site`.
pub open spec fn no_pass_of(rs: Seq<(Seq<char>, SiteStatus)>, site: Seq<char>) -> bool {
    forall|i: int| 0 <= i < rs.len() ==> #[trigger] rs[i] != (site, SiteStatus::Pass)
}

/// No result concerns `site`.
pub open spec fn no_result_for(rs: Seq<(Seq<char>, SiteStatus)>, site: Seq<char>) -> bool {
    forall|i: int| 0 <= i < rs.len() ==> #[trigger] rs[i].0 != site
}

/// Every count is below `threshold` or is zero: no count rests at or above
/// the threshold.
pub open spec fn below_threshold(m: Map<Seq<char>, u32>, threshold: u32) -> bool {
    forall|k: Seq<char>| #[trigger] m.dom().contains(k) ==> m[k] < threshold || m[k] == 0
}

proof fn lemma_fit_prefix(m: Map<Seq<char>, u32>, rs: Seq<(Seq<char>, SiteStatus)>, i: int)
    requires
        results_fit(m, rs),
        0 <= i <= rs.len(),
    ensures
        results_fit(m, rs.take(i)),
    decreases rs.len() - i,
{
    if i < rs.len() {
        lemma_fit_prefix(m, rs, i + 1);
        assert(rs.take(i + 1).drop_last() == rs.take(i));
    } else {
        assert(rs.take(i) == rs);
    }
}


proof fn lemma_fit_prefix_fails(m: Map<Seq<char>, u32>, rs: Seq<(Seq<char>, SiteStatus)>, i: int)
    requires
        0 <= i <= rs.len(),
        !results_fit(m, rs.take(i)),
    ensures
        !results_fit(m, rs),
{
    if results_fit(m, rs) {
        lemma_fit_prefix(m, rs, i);
    }
}

/// A site's count is the number of its failures since its last pass: where
/// the results after that pass hold no other pass of it, the count is the
/// number of its failures among them.
pub proof fn law_failures_since_last_pass(
    m: Map<Seq<char>, u32>,
    before: Seq<(Seq<char>, SiteStatus)>,
    site: Seq<char>,
    rest: Seq<(Seq<char>, SiteStatus)>,
)
    requires
        no_pass_of(rest, site),
        results_fit(m, before.push((site, SiteStatus::Pass)) + rest),
    ensures
        count_of(after_results(m, before.push((site, SiteStatus::Pass)) + rest), site) == fails_for(rest, site),
    decreases rest.len(),
{
    let head = before.push((site, SiteStatus::Pass));
    if rest.len() == 0 {
        assert(head + rest == head);
        assert(head.drop_last() == before);
    } else {
        let shorter = rest.drop_last();
        assert((head + rest).drop_last() == head + shorter);
        assert((head + rest).last() == rest.last());
        assert(no_pass_of(shorter, site)) by {
            assert forall|i: int| 0 <= i < shorter.len() implies #[trigger] shorter[i] != (site, SiteStatus::Pass) by {
                assert(shorter[i] == rest[i]);
            }
        }
        assert(rest.last() == rest[rest.len() - 1]);
        law_failures_since_last_pass(m, before, site, shorter);
    }
}

/// A site that no result concerns keeps its count.
pub proof fn law_other_sites_untouched(m: Map<Seq<char>, u32>, rs: Seq<(Seq<char>, SiteStatus)>, site: Seq<char>)
    requires
        no_result_for(rs, site),
    ensures
        after_results(m, rs).dom().contains(site) == m.dom().contains(site),
        count_of(after_results(m, rs), site) == count_of(m, site),
    decreases rs.len(),
{
    if rs.len() > 0 {
        assert(rs.last() == rs[rs.len() - 1]);
        assert(no_result_for(rs.drop_last(), site)) by {
            assert forall|i: int| 0 <= i < rs.drop_last().len() implies #[trigger] rs.drop_last()[i].0 != site by {
                assert(rs.drop_last()[i] == rs[i]);
            }
        }
        law_other_sites_untouched(m, rs.drop_last(), site);
    }
}

/// Where no failure reaches the threshold, counts that rested below it (or
/// at zero) still do.
pub proof fn law_below_threshold_kept(m: Map<Seq<char>, u32>, rs: Seq<(Seq<char>, SiteStatus)>, threshold: u32)
    requires
        below_threshold(m, threshold),
        !reaches_threshold(m, rs, threshold),
        results_fit(m, rs),
    ensures
        below_threshold(after_results(m, rs), threshold),
    decreases rs.len(),
{
    if rs.len() > 0 {
        law_below_threshold_kept(m, rs.drop_last(), threshold);
        let prev = after_results(m, rs.drop_last());
        let r = rs.last();
        assert forall|k: Seq<char>| #[trigger] after_results(m, rs).dom().contains(k) implies
            after_results(m, rs)[k] < threshold || after_results(m, rs)[k] == 0 by {
            if k != r.0 {
                assert(prev.dom().contains(k));
            }
        }
    }
}


/// No two results concern the same site.
pub open spec fn sites_distinct(rs: Seq<(Seq<char>, SiteStatus)>) -> bool {
    forall|i: int, j: int| 0 <= i < j < rs.len() ==> #[trigger] rs[i].0 != #[trigger] rs[j].0
}

/// A round in which each site is probed once, starting from counts that
/// rest below the threshold, overflows no count; and unless some failure
/// reaches the threshold, every count still rests below it afterwards.
pub proof fn law_round_with_distinct_sites(m: Map<Seq<char>, u32>, rs: Seq<(Seq<char>, SiteStatus)>, threshold: u32)
    requires
        below_threshold(m, threshold),
        sites_distinct(rs),
    ensures
        results_fit(m, rs),
        !reaches_threshold(m, rs, threshold) ==> below_threshold(after_results(m, rs), threshold),
    decreases rs.len(),
{
    if rs.len() > 0 {
        let shorter = rs.drop_last();
        assert(sites_distinct(shorter)) by {
            assert forall|i: int, j: int| 0 <= i < j < shorter.len() implies #[trigger] shorter[i].0
                != #[trigger] shorter[j].0 by {
                assert(shorter[i] == rs[i] && shorter[j] == rs[j]);
            }
        }
        law_round_with_distinct_sites(m, shorter, threshold);
        let site = rs.last().0;
        assert(no_result_for(shorter, site)) by {
            assert forall|i: int| 0 <= i < shorter.len() implies #[trigger] shorter[i].0 != site by {
                assert(shorter[i] == rs[i]);
                assert(rs[rs.len() - 1] == rs.last());
            }
        }
        law_other_sites_untouched(m, shorter, site);
        if m.dom().contains(site) {
            assert(m[site] < threshold || m[site] == 0);
        }
        assert(count_of(after_results(m, shorter), site) < u32::MAX);
    }
    if results_fit(m, rs) && !reaches_threshold(m, rs, threshold) {
        law_below_threshold_kept(m, rs, threshold);
    }
}


/// Each site's count plus its failures in the round fits in a `u32`.
pub open spec fn round_fits(m: Map<Seq<char>, u32>, rs: Seq<(Seq<char>, SiteStatus)>) -> bool {
    forall|site: Seq<char>| count_of(m, site) + #[trigger] fails_for(rs, site) <= u32::MAX
}

proof fn lemma_count_bound(m: Map<Seq<char>, u32>, rs: Seq<(Seq<char>, SiteStatus)>, site: Seq<char>)
    requires
        results_fit(m, rs),
    ensures
        count_of(after_results(m, rs), site) <= count_of(m, site) + fails_for(rs, site),
    decreases rs.len(),
{
    if rs.len() > 0 {
        lemma_count_bound(m, rs.drop_last(), site);
    }
}

/// Where each site's count plus its failures in the round fits in a `u32`,
/// recording the round overflows no count, repeated sites included.
pub proof fn law_round_fits_without_overflow(m: Map<Seq<char>, u32>, rs: Seq<(Seq<char>, SiteStatus)>)
    requires
        round_fits(m, rs),
    ensures
        results_fit(m, rs),
    decreases rs.len(),
{
    if rs.len() > 0 {
        let shorter = rs.drop_last();
        assert forall|site: Seq<char>| count_of(m, site) + #[trigger] fails_for(shorter, site) <= u32::MAX by {
            assert(fails_for(shorter, site) <= fails_for(rs, site));
        }
        law_round_fits_without_overflow(m, shorter);
        let site = rs.last().0;
        lemma_count_bound(m, shorter, site);
        assert(count_of(m, site) + fails_for(rs, site) <= u32::MAX);
    }
}

/// A round that overflows no count (repeated sites allowed), starting from
/// counts that rest below the threshold, either brings some count to the
/// threshold or leaves every count below it.
pub proof fn law_round_keeps_below_threshold(m: Map<Seq<char>, u32>, rs: Seq<(Seq<char>, SiteStatus)>, threshold: u32)
    requires
        below_threshold(m, threshold),
        round_fits(m, rs),
    ensures
        results_fit(m, rs),
        reaches_threshold(m, rs, threshold) || below_threshold(after_results(m, rs), threshold),
{
    law_round_fits_without_overflow(m, rs);
    if !reaches_threshold(m, rs, threshold) {
        law_below_threshold_kept(m, rs, threshold);
    }
}

/// Consecutive failure counts per site.
#[derive(Debug)]
pub struct FailureCounts {
    entries: Vec<(String, u32)>,
}

impl View for FailureCounts {
    type V = Map<Seq<char>, u32>;

    closed spec fn view(&self) -> Map<Seq<char>, u32> {
        map_of(self.entries.deep_view())
    }
}

impl FailureCounts {
    #[verifier::type_invariant]
    spec fn distinct(self) -> bool {
        keys_distinct(self.entries.deep_view())
    }

    /// No counts.
    pub fn new() -> (c: Self)
        ensures
            c@ == Map::<Seq<char>, u32>::empty(),
    {
        let c = FailureCounts { entries: Vec::new() };
        assert(c.entries.deep_view() == Seq::<(Seq<char>, u32)>::empty());
        c
    }

    fn index_of(&self, site: &String) -> (r: Option<usize>)
        ensures
            match r {
                Some(i) => i < self.entries@.len() && self.entries.deep_view()[i as int].0 == site@,
                None => !self@.dom().contains(site@),
            },
    {
        proof {
            lemma_map_of_dom(self.entries.deep_view(), site@);
        }
        let mut i: usize = 0;
        while i < self.entries.len()
            invariant
                i <= self.entries@.len(),
                forall|k: int| 0 <= k < i ==> self.entries.deep_view()[k].0 != site@,
            decreases self.entries.len() - i,
        {
            if self.entries[i].0 == *site {
                return Some(i);
            }
            i = i + 1;
        }
        None
    }

    /// The count of `site`, if one is recorded.
    pub fn get(&self, site: &String) -> (r: Option<u32>)
        ensures
            r == (if self@.dom().contains(site@) {
                Some(self@[site@])
            } else {
                None
            }),
    {
        proof {
            use_type_invariant(self);
        }
        match self.index_of(site) {
            Some(i) => {
                proof {
                    lemma_map_of_index(self.entries.deep_view(), i as int);
                }
                Some(self.entries[i].1)
            },
            None => None,
        }
    }

    /// Sets the count of `site`.
    pub fn set(&mut self, site: &String, count: u32)
        ensures
            final(self)@ == old(self)@.insert(site@, count),
    {
        proof {
            use_type_invariant(&*self);
        }
        match self.index_of(site) {
            Some(i) => {
                let ghost e = self.entries.deep_view();
                proof {
                    lemma_map_of_update(e, i as int, count);
                }
                let mut entries: Vec<(String, u32)> = Vec::new();
                std::mem::swap(&mut entries, &mut self.entries);
                entries.set(i, (site.clone(), count));
                assert(entries.deep_view() == e.update(i as int, (e[i as int].0, count)));
                self.entries = entries;
            },
            None => {
                let ghost e = self.entries.deep_view();
                proof {
                    lemma_map_of_dom(e, site@);
                }
                let mut entries: Vec<(String, u32)> = Vec::new();
                std::mem::swap(&mut entries, &mut self.entries);
                entries.push((site.clone(), count));
                assert(entries.deep_view() == e.push((site@, count)));
                assert(entries.deep_view().drop_last() == e);
                assert forall|i: int, j: int| 0 <= i < j < entries.deep_view().len() implies #[trigger] entries.deep_view()[i].0 != #[trigger] entries.deep_view()[j].0 by {
                    if j == e.len() {
                        assert(e[i].0 == entries.deep_view()[i].0);
                    }
                }
                self.entries = entries;
            },
        }
    }


    /// Records the results of one round of probes, in order, and says whether
    /// some failure brought its site's count to `threshold` or beyond.
    pub fn record_results(&mut self, results: &Vec<SiteResult>, threshold: u32) -> (reached: bool)
        requires
            results_fit(old(self)@, outcomes(results@)),
        ensures
            final(self)@ == after_results(old(self)@, outcomes(results@)),
            reached == reaches_threshold(old(self)@, outcomes(results@), threshold),
    {
        let ghost m = self@;
        let ghost rs = outcomes(results@);
        let mut reached = false;
        let mut i: usize = 0;
        while i < results.len()
            invariant
                i <= results@.len(),
                rs == outcomes(results@),
                results_fit(m, rs),
                self@ == after_results(m, rs.take(i as int)),
                reached == reaches_threshold(m, rs.take(i as int), threshold),
            decreases results.len() - i,
        {
            let r = &results[i];
            proof {
                assert(rs.take(i + 1).drop_last() == rs.take(i as int));
                assert(rs.take(i + 1).last() == (r.site@, r.status));
                lemma_fit_prefix(m, rs, i + 1);
            }
            match r.status {
                SiteStatus::Pass => {
                    self.set(&r.site, 0);
                },
                SiteStatus::Fail => {
                    let count = match self.get(&r.site) {
                        Some(c) => c + 1,
                        None => 1,
                    };
                    self.set(&r.site, count);
                    if count >= threshold {
                        reached = true;
                    }
                },
            }
            i = i + 1;
        }
        assert(rs.take(i as int) == rs);
        reached
    }

    fn from_pairs(pairs: Vec<(String, u32)>) -> (c: Self)
        requires
            keys_distinct(pairs.deep_view()),
        ensures
            c@ == map_of(pairs.deep_view()),
    {
        FailureCounts { entries: pairs }
    }

    /// Whether the results can be recorded without a count overflowing.
    pub fn can_record(&self, results: &Vec<SiteResult>) -> (ok: bool)
        ensures
            ok == results_fit(self@, outcomes(results@)),
    {
        let mut scratch = FailureCounts::from_pairs(self.to_pairs());
        let ghost m = self@;
        let ghost rs = outcomes(results@);
        let mut i: usize = 0;
        while i < results.len()
            invariant
                i <= results@.len(),
                rs == outcomes(results@),
                m == self@,
                scratch@ == after_results(m, rs.take(i as int)),
                results_fit(m, rs.take(i as int)),
            decreases results.len() - i,
        {
            let r = &results[i];
            proof {
                assert(rs.take(i + 1).drop_last() == rs.take(i as int));
                assert(rs.take(i + 1).last() == (r.site@, r.status));
            }
            match r.status {
                SiteStatus::Pass => {
                    scratch.set(&r.site, 0);
                },
                SiteStatus::Fail => {
                    let count = match scratch.get(&r.site) {
                        Some(c) => c,
                        None => 0,
                    };
                    if count == u32::MAX {
                        proof {
                            let t = rs.take(i + 1);
                            assert(t.drop_last() == rs.take(i as int));
                            assert(count_of(after_results(m, t.drop_last()), t.last().0) == u32::MAX);
                            assert(!results_fit(m, t));
                            lemma_fit_prefix_fails(m, rs, i as int + 1);
                        }
                        return false;
                    }
                    scratch.set(&r.site, count + 1);
                },
            }
            i = i + 1;
        }
        assert(rs.take(i as int) == rs);
        true
    }

    /// Forgets every count.
    pub fn clear(&mut self)
        ensures
            final(self)@ == Map::<Seq<char>, u32>::empty(),
    {
        self.entries = Vec::new();
        assert(self.entries.deep_view() == Seq::<(Seq<char>, u32)>::empty());
    }

    /// The counts as (site, count) pairs, each site once.
    pub fn to_pairs(&self) -> (pairs: Vec<(String, u32)>)
        ensures
            keys_distinct(pairs.deep_view()),
            map_of(pairs.deep_view()) == self@,
    {
        proof {
            use_type_invariant(self);
        }
        let mut pairs: Vec<(String, u32)> = Vec::new();
        let mut i: usize = 0;
        while i < self.entries.len()
            invariant
                i <= self.entries@.len(),
                pairs.deep_view() == self.entries.deep_view().take(i as int),
            decreases self.entries.len() - i,
        {
            pairs.push((self.entries[i].0.clone(), self.entries[i].1));
            assert(self.entries.deep_view().take(i + 1) == self.entries.deep_view().take(i as int).push(
                self.entries.deep_view()[i as int],
            ));
            i = i + 1;
        }
        assert(self.entries.deep_view().take(i as int) == self.entries.deep_view());
        pairs
    }
}

} // verus!
