//! The fallback search engine.
//!
//! A search walks backward from a target date, one calendar day at a time,
//! asking the upstream service for each candidate day in turn, and stops at
//! the first published rate. The engine holds the decision logic only: the
//! caller performs one fetch per step and hands the outcome back, so the
//! engine never touches the network. Exactly one fetch is outstanding at a
//! time, and later candidates are never consulted once one succeeds.

use vstd::prelude::*;
use crate::date::{Date, date_wf, date_lt, date_le, min_date, pred_date, lemma_pred_date};
use crate::model::{RatesRequest, RatesRateEntry, EntryModel};

verus! {

/// What one fetch against the upstream service came to.
pub enum FetchOutcome {
    /// The service published a rate for the queried day.
    Found(RatesRateEntry),
    /// The service answered, but has no data for the queried day.
    NotFound,
    /// The service could not be reached.
    TransportFailure,
    /// The response body did not match the expected schema.
    MalformedResponse,
}

/// How a whole search ended.
pub enum FallbackSearchResult {
    /// The accepted record: the first candidate day with published data.
    Found(RatesRateEntry),
    /// Every candidate failed; the full ordered list of attempted dates.
    WindowExhausted(Vec<Date>),
}

/// The ordered candidate days: the target, then one day earlier at each
/// step, `w` steps at most, stopping early only at the calendar's lower
/// bound.
pub open spec fn candidate_seq(t: Date, w: nat) -> Seq<Date>
    decreases w,
{
    if w == 0 || t == min_date() {
        seq![t]
    } else {
        seq![t] + candidate_seq(pred_date(t), (w - 1) as nat)
    }
}

/// The shape of the candidate list: it starts at the target, is strictly
/// decreasing day by day, and has `w + 1` entries unless the calendar's
/// lower bound cut it short.
pub proof fn lemma_candidates(t: Date, w: nat)
    requires
        date_wf(t),
    ensures
        candidate_seq(t, w).len() >= 1,
        candidate_seq(t, w).len() <= w + 1,
        candidate_seq(t, w)[0] == t,
        candidate_seq(t, w).len() == w + 1 || candidate_seq(t, w).last() == min_date(),
        forall|i: int| 0 <= i < candidate_seq(t, w).len() ==> date_wf(
            #[trigger] candidate_seq(t, w)[i],
        ) && date_le(candidate_seq(t, w)[i], t),
        forall|i: int, j: int|
            #![trigger candidate_seq(t, w)[i], candidate_seq(t, w)[j]]
            0 <= i < j < candidate_seq(t, w).len() ==> date_lt(
                candidate_seq(t, w)[j],
                candidate_seq(t, w)[i],
            ),
        forall|i: int| 0 <= i < candidate_seq(t, w).len() - 1 ==> #[trigger] candidate_seq(t, w)[i]
            != min_date() && candidate_seq(t, w)[i + 1] == pred_date(candidate_seq(t, w)[i]),
    decreases w,
{
    let c = candidate_seq(t, w);
    if w == 0 || t == min_date() {
    } else {
        let p = pred_date(t);
        lemma_pred_date(t);
        lemma_candidates(p, (w - 1) as nat);
        let c2 = candidate_seq(p, (w - 1) as nat);
        assert(c == seq![t] + c2);
        assert(c[0] == t);
        assert(forall|i: int| 0 <= i < c2.len() ==> c[i + 1] == #[trigger] c2[i]);
        assert forall|i: int| 0 <= i < c.len() implies date_wf(#[trigger] c[i]) && date_le(
            c[i],
            t,
        ) by {
            if i > 0 {
                assert(c[i] == c2[i - 1]);
                assert(date_le(c2[i - 1], p));
            }
        }
        assert forall|i: int, j: int| #![trigger c[i], c[j]] 0 <= i < j < c.len() implies date_lt(
            c[j],
            c[i],
        ) by {
            if i == 0 {
                assert(c[j] == c2[j - 1]);
                assert(date_le(c2[j - 1], p));
                assert(date_lt(p, t));
            } else {
                assert(c[i] == c2[i - 1] && c[j] == c2[j - 1]);
                assert(date_lt(c2[j - 1], c2[i - 1]));
            }
        }
        assert forall|i: int| 0 <= i < c.len() - 1 implies #[trigger] c[i] != min_date() && c[i + 1]
            == pred_date(c[i]) by {
            if i == 0 {
                assert(c2[0] == p);
            } else {
                assert(c[i] == c2[i - 1] && c[i + 1] == c2[i]);
            }
        }
    }
}

/// Extending the window by one day appends the predecessor of the last
/// candidate, as long as the calendar's lower bound was not yet reached.
pub proof fn lemma_candidate_seq_grow(t: Date, k: nat)
    requires
        date_wf(t),
        candidate_seq(t, k).last() != min_date(),
    ensures
        candidate_seq(t, k + 1) == candidate_seq(t, k).push(
            pred_date(candidate_seq(t, k).last()),
        ),
    decreases k,
{
    let c = candidate_seq(t, k);
    if k == 0 || t == min_date() {
        assert(c == seq![t]);
        assert(t != min_date());
        assert(candidate_seq(t, k + 1) == seq![t] + candidate_seq(pred_date(t), 0));
        assert(candidate_seq(pred_date(t), 0) == seq![pred_date(t)]);
        assert(candidate_seq(t, k + 1) =~= c.push(pred_date(c.last())));
    } else {
        let p = pred_date(t);
        lemma_pred_date(t);
        let c2 = candidate_seq(p, (k - 1) as nat);
        assert(c == seq![t] + c2);
        assert(c.last() == c2.last());
        lemma_candidate_seq_grow(p, (k - 1) as nat);
        assert(candidate_seq(t, k + 1) == seq![t] + candidate_seq(p, k));
        assert(candidate_seq(t, k + 1) =~= c.push(pred_date(c.last())));
    }
}

/// Once the candidate list has reached the calendar's lower bound, widening
/// the window adds nothing.
pub proof fn lemma_candidate_seq_stall(t: Date, k: nat, w: nat)
    requires
        date_wf(t),
        k <= w,
        candidate_seq(t, k).last() == min_date(),
    ensures
        candidate_seq(t, w) == candidate_seq(t, k),
    decreases w,
{
    if t == min_date() {
        assert(candidate_seq(t, w) =~= candidate_seq(t, k));
    } else if k == 0 {
        assert(candidate_seq(t, k) == seq![t]);
        assert(candidate_seq(t, k).last() == t);
        assert(false);
    } else {
        let p = pred_date(t);
        lemma_pred_date(t);
        let c2 = candidate_seq(p, (k - 1) as nat);
        assert(candidate_seq(t, k) == seq![t] + c2);
        assert(candidate_seq(t, k).last() == c2.last());
        if k == w {
        } else {
            lemma_candidate_seq_stall(p, (k - 1) as nat, (w - 1) as nat);
            assert(candidate_seq(t, w) == seq![t] + candidate_seq(p, (w - 1) as nat));
            assert(candidate_seq(t, w) =~= candidate_seq(t, k));
        }
    }
}

/// Every well-formed date lying between the last candidate and the target is
/// itself a candidate: the list walks the calendar without gaps.
pub proof fn lemma_candidates_cover(t: Date, w: nat, e: Date)
    requires
        date_wf(t),
        date_wf(e),
        date_le(candidate_seq(t, w).last(), e),
        date_le(e, t),
    ensures
        candidate_seq(t, w).contains(e),
    decreases w,
{
    let c = candidate_seq(t, w);
    if w == 0 || t == min_date() {
        assert(c.last() == t);
        assert(e == t);
        assert(c[0] == e);
    } else {
        if e == t {
            assert(c[0] == e);
        } else {
            let p = pred_date(t);
            lemma_pred_date(t);
            assert(date_lt(e, t));
            assert(date_le(e, p));
            let c2 = candidate_seq(p, (w - 1) as nat);
            assert(c == seq![t] + c2);
            assert(c.last() == c2.last());
            lemma_candidates_cover(p, (w - 1) as nat, e);
            let i = choose|i: int| 0 <= i < c2.len() && c2[i] == e;
            assert(c[i + 1] == e);
        }
    }
}

/// An abstract upstream dataset: the rate record published for each trading
/// day. Days absent from the map are non-trading days.
pub open spec fn dataset_wf(ds: Map<Date, EntryModel>) -> bool {
    forall|d: Date| #[trigger] ds.contains_key(d) ==> crate::model::entry_wf(ds[d])
        && ds[d].effective_date == d
}

/// The first index at or after `i` whose candidate day has published data.
pub open spec fn first_hit(ds: Map<Date, EntryModel>, c: Seq<Date>, i: int) -> Option<int>
    decreases c.len() - i,
{
    if i < 0 || i >= c.len() {
        None
    } else if ds.contains_key(c[i]) {
        Some(i)
    } else {
        first_hit(ds, c, i + 1)
    }
}

/// What `first_hit` returns: the least index with data, or a proof that no
/// candidate from `i` on has any.
pub proof fn lemma_first_hit(ds: Map<Date, EntryModel>, c: Seq<Date>, i: int)
    requires
        0 <= i <= c.len(),
    ensures
        match first_hit(ds, c, i) {
            Some(k) => i <= k < c.len() && ds.contains_key(c[k]) && forall|j: int|
                i <= j < k ==> !ds.contains_key(#[trigger] c[j]),
            None => forall|j: int| i <= j < c.len() ==> !ds.contains_key(#[trigger] c[j]),
        },
    decreases c.len() - i,
{
    if i < c.len() && !ds.contains_key(c[i]) {
        lemma_first_hit(ds, c, i + 1);
    }
}

/// The meaning of a whole search.
pub enum SearchModelResult {
    Found(EntryModel),
    WindowExhausted(Seq<Date>),
}

/// What one search against dataset `ds` comes to: the record of the first
/// candidate day with data, or exhaustion carrying every attempted day.
pub open spec fn search_model(ds: Map<Date, EntryModel>, t: Date, w: nat) -> SearchModelResult {
    let c = candidate_seq(t, w);
    match first_hit(ds, c, 0) {
        Some(i) => SearchModelResult::Found(ds[c[i]]),
        None => SearchModelResult::WindowExhausted(c),
    }
}

/// Drives one bounded search: hand out the query for the current candidate
/// day, take the fetch outcome back, and either finish or move one day
/// earlier. Each search is independent; the engine holds no memory of prior
/// searches.
pub struct FallbackSearchEngine {
    pub table_name: String,
    pub currency_code: String,
    pub target: Date,
    pub window: u32,
    pub candidates: Vec<Date>,
    pub idx: usize,
    pub done: bool,
}

impl FallbackSearchEngine {
    pub open spec fn wf(self) -> bool {
        &&& date_wf(self.target)
        &&& self.candidates@ == candidate_seq(self.target, self.window as nat)
        &&& self.idx <= self.candidates@.len()
        &&& (!self.done ==> self.idx < self.candidates@.len())
    }

    /// Every candidate already attempted turned out to have no data in `ds`.
    pub open spec fn consistent_with(self, ds: Map<Date, EntryModel>) -> bool {
        forall|j: int| 0 <= j < self.idx ==> !ds.contains_key(#[trigger] self.candidates@[j])
    }

    /// The engine accepts an outcome only when it carries a record that is
    /// not dated after the target: the search never looks forward.
    pub open spec fn accepts(self, outcome: FetchOutcome) -> bool {
        match outcome {
            FetchOutcome::Found(rec) => date_le(rec.effective_date, self.target),
            _ => false,
        }
    }

    /// How one step relates the engine before and after, the outcome it
    /// consumed, and what it returned.
    pub open spec fn transition(
        pre: Self,
        outcome: FetchOutcome,
        post: Self,
        r: Option<FallbackSearchResult>,
    ) -> bool {
        &&& post.table_name@ == pre.table_name@
        &&& post.currency_code@ == pre.currency_code@
        &&& post.target == pre.target
        &&& post.window == pre.window
        &&& post.candidates@ == pre.candidates@
        &&& if pre.accepts(outcome) {
            &&& post.idx == pre.idx
            &&& post.done
            &&& match (r, outcome) {
                (
                    Option::Some(FallbackSearchResult::Found(rec)),
                    FetchOutcome::Found(orec),
                ) => rec == orec,
                _ => false,
            }
        } else if pre.idx + 1 == pre.candidates@.len() {
            &&& post.idx == pre.candidates@.len()
            &&& post.done
            &&& match r {
                Option::Some(FallbackSearchResult::WindowExhausted(v)) => v@ == pre.candidates@,
                _ => false,
            }
        } else {
            &&& post.idx == pre.idx + 1
            &&& !post.done
            &&& r is None
        }
    }

    /// Starts a search: the candidate days are the target and up to `window`
    /// predecessors, oldest last.
    pub fn new(table_name: String, currency_code: String, target: Date, window: u32) -> (r: Self)
        requires
            date_wf(target),
        ensures
            r.wf(),
            !r.done,
            r.idx == 0,
            r.table_name@ == table_name@,
            r.currency_code@ == currency_code@,
            r.target == target,
            r.window == window,
    {
        let mut cands: Vec<Date> = Vec::new();
        cands.push(target);
        let mut cur: Date = target;
        let mut k: u32 = 0;
        let mut at_min: bool = false;
        proof {
            assert(cands@ =~= candidate_seq(target, 0));
        }
        while k < window && !at_min
            invariant
                date_wf(target),
                date_wf(cur),
                k <= window,
                cands@ == candidate_seq(target, k as nat),
                cands@.len() >= 1,
                cur == cands@.last(),
                at_min ==> cur == min_date(),
            decreases window - k + if at_min {
                0int
            } else {
                1int
            },
        {
            match cur.pred() {
                Some(p) => {
                    proof {
                        lemma_candidate_seq_grow(target, k as nat);
                    }
                    cands.push(p);
                    cur = p;
                    k = k + 1;
                    proof {
                        lemma_pred_date(cands@[cands@.len() - 2]);
                    }
                },
                None => {
                    at_min = true;
                },
            }
        }
        proof {
            if k < window {
                lemma_candidate_seq_stall(target, k as nat, window as nat);
            }
            lemma_candidates(target, window as nat);
        }
        FallbackSearchEngine {
            table_name,
            currency_code,
            target,
            window,
            candidates: cands,
            idx: 0,
            done: false,
        }
    }

    /// The query for the candidate day the engine is waiting on.
    pub fn current_query(&self) -> (r: RatesRequest)
        requires
            self.wf(),
            !self.done,
        ensures
            r.table_name@ == self.table_name@,
            r.currency_code@ == self.currency_code@,
            r.date == self.candidates@[self.idx as int],
    {
        RatesRequest {
            table_name: self.table_name.clone(),
            currency_code: self.currency_code.clone(),
            date: self.candidates[self.idx],
        }
    }

    /// Consumes the outcome of the fetch for the current candidate day. A
    /// record not dated after the target ends the search at once; any
    /// failure moves on to the next older day, and once the window is
    /// exhausted the full attempted-date list is handed back.
    pub fn on_outcome(&mut self, outcome: FetchOutcome) -> (r: Option<FallbackSearchResult>)
        requires
            old(self).wf(),
            !old(self).done,
        ensures
            final(self).wf(),
            Self::transition(*old(self), outcome, *final(self), r),
            r is None ==> !final(self).done,
            r is Some ==> final(self).done,
    {
        match outcome {
            FetchOutcome::Found(rec) => {
                if rec.effective_date.le(&self.target) {
                    self.done = true;
                    Some(FallbackSearchResult::Found(rec))
                } else {
                    self.advance()
                }
            },
            _ => self.advance(),
        }
    }

    /// The current candidate has failed: step to the next older one, or
    /// report exhaustion with every attempted day.
    fn advance(&mut self) -> (r: Option<FallbackSearchResult>)
        requires
            old(self).wf(),
            !old(self).done,
        ensures
            final(self).wf(),
            final(self).table_name@ == old(self).table_name@,
            final(self).currency_code@ == old(self).currency_code@,
            final(self).target == old(self).target,
            final(self).window == old(self).window,
            final(self).candidates@ == old(self).candidates@,
            if old(self).idx + 1 == old(self).candidates@.len() {
                final(self).idx == old(self).candidates@.len() && final(self).done && match r {
                    Option::Some(FallbackSearchResult::WindowExhausted(v)) => v@ == old(
                        self,
                    ).candidates@,
                    _ => false,
                }
            } else {
                final(self).idx == old(self).idx + 1 && !final(self).done && r is None
            },
    {
        let n = self.candidates.len();
        assert(self.idx < n);
        self.idx = self.idx + 1;
        if self.idx == n {
            self.done = true;
            let mut attempted: Vec<Date> = Vec::new();
            let mut i: usize = 0;
            while i < self.candidates.len()
                invariant
                    i <= self.candidates@.len(),
                    attempted@ == self.candidates@.take(i as int),
                decreases self.candidates@.len() - i,
            {
                attempted.push(self.candidates[i]);
                i = i + 1;
                proof {
                    assert(attempted@ =~= self.candidates@.take(i as int));
                }
            }
            proof {
                assert(attempted@ =~= self.candidates@);
            }
            Some(FallbackSearchResult::WindowExhausted(attempted))
        } else {
            None
        }
    }
}

/// The fetch outcome the caller hands back agrees with dataset `ds` for the
/// queried day: the published record when there is one, "not found" when
/// there is none. Transport faults and malformed bodies fall outside an
/// agreeing run.
pub open spec fn outcome_matches(
    ds: Map<Date, EntryModel>,
    d: Date,
    outcome: FetchOutcome,
) -> bool {
    match outcome {
        FetchOutcome::Found(rec) => ds.contains_key(d) && rec@ == ds[d],
        FetchOutcome::NotFound => !ds.contains_key(d),
        _ => false,
    }
}

/// An engine result and a search-model result say the same thing.
pub open spec fn result_matches(r: FallbackSearchResult, m: SearchModelResult) -> bool {
    match (r, m) {
        (FallbackSearchResult::Found(rec), SearchModelResult::Found(e)) => rec@ == e,
        (
            FallbackSearchResult::WindowExhausted(v),
            SearchModelResult::WindowExhausted(s),
        ) => v@ == s,
        _ => false,
    }
}

/// A search that has not yet consumed any outcome is consistent with every
/// dataset, so the step refinement below applies to it from the start.
pub proof fn lemma_new_engine_consistent(e: FallbackSearchEngine, ds: Map<Date, EntryModel>)
    requires
        e.idx == 0,
    ensures
        e.consistent_with(ds),
{
}

/// One engine step refines the search model: as long as the outcomes agree
/// with one dataset, an unfinished engine stays consistent with it, and the
/// step that finishes returns exactly what the search model assigns to the
/// whole search. Chained over a run, this says the engine computes
/// `search_model`, and with it that two searches with identical inputs
/// against an unchanged dataset end identically.
pub proof fn lemma_step_refines(
    ds: Map<Date, EntryModel>,
    pre: FallbackSearchEngine,
    outcome: FetchOutcome,
    post: FallbackSearchEngine,
    r: Option<FallbackSearchResult>,
)
    requires
        pre.wf(),
        !pre.done,
        dataset_wf(ds),
        pre.consistent_with(ds),
        outcome_matches(ds, pre.candidates@[pre.idx as int], outcome),
        FallbackSearchEngine::transition(pre, outcome, post, r),
    ensures
        match r {
            Option::None => post.consistent_with(ds),
            Option::Some(res) => result_matches(
                res,
                search_model(ds, pre.target, pre.window as nat),
            ),
        },
{
    let c = pre.candidates@;
    let i = pre.idx as int;
    lemma_candidates(pre.target, pre.window as nat);
    lemma_first_hit(ds, c, 0);
    match outcome {
        FetchOutcome::Found(rec) => {
            assert(ds.contains_key(c[i]) && rec@ == ds[c[i]]);
            assert(rec.effective_date == ds[c[i]].effective_date);
            assert(rec.effective_date == c[i]);
            assert(date_le(c[i], pre.target));
            assert(pre.accepts(outcome));
            match first_hit(ds, c, 0) {
                Some(k) => {
                    if k < i {
                        assert(!ds.contains_key(c[k]));
                        assert(false);
                    }
                    if k > i {
                        assert(!ds.contains_key(c[i]));
                        assert(false);
                    }
                    assert(k == i);
                },
                None => {
                    assert(!ds.contains_key(c[i]));
                    assert(false);
                },
            }
        },
        FetchOutcome::NotFound => {
            assert(!ds.contains_key(c[i]));
            if i + 1 == c.len() {
                match first_hit(ds, c, 0) {
                    Some(k) => {
                        if k < i {
                            assert(!ds.contains_key(c[k]));
                        }
                        assert(false);
                    },
                    None => {},
                }
            } else {
                assert forall|j: int| 0 <= j < post.idx implies !ds.contains_key(
                    #[trigger] post.candidates@[j],
                ) by {
                    if j < i {
                        assert(!ds.contains_key(c[j]));
                    }
                }
            }
        },
        _ => {},
    }
}

/// Whatever the upstream answered — even a malformed or hostile record —
/// a search that returns a record never returns one dated after the target.
pub proof fn lemma_never_future(
    pre: FallbackSearchEngine,
    outcome: FetchOutcome,
    post: FallbackSearchEngine,
    r: Option<FallbackSearchResult>,
)
    requires
        FallbackSearchEngine::transition(pre, outcome, post, r),
    ensures
        match r {
            Option::Some(FallbackSearchResult::Found(rec)) => date_le(
                rec.effective_date,
                pre.target,
            ),
            _ => true,
        },
{
}

/// The search model never assigns a record dated after the target either:
/// whatever record a search finds was published on a candidate day, and
/// every candidate day is on or before the target.
pub proof fn lemma_model_never_future(ds: Map<Date, EntryModel>, t: Date, w: nat)
    requires
        date_wf(t),
        dataset_wf(ds),
    ensures
        match search_model(ds, t, w) {
            SearchModelResult::Found(rec) => date_le(rec.effective_date, t),
            SearchModelResult::WindowExhausted(_) => true,
        },
{
    lemma_candidates(t, w);
    lemma_first_hit(ds, candidate_seq(t, w), 0);
}

/// If any day in the window `[last candidate, target]` has published data,
/// the search finds the record of the most recent such day: never an older
/// one when a later valid one exists, and never a future one.
pub proof fn lemma_search_finds_most_recent(ds: Map<Date, EntryModel>, t: Date, w: nat)
    requires
        date_wf(t),
        dataset_wf(ds),
        exists|i: int| 0 <= i < candidate_seq(t, w).len() && ds.contains_key(
            #[trigger] candidate_seq(t, w)[i],
        ),
    ensures
        match search_model(ds, t, w) {
            SearchModelResult::Found(rec) => {
                &&& ds.contains_key(rec.effective_date)
                &&& rec == ds[rec.effective_date]
                &&& date_le(rec.effective_date, t)
                &&& candidate_seq(t, w).contains(rec.effective_date)
                &&& forall|e: Date|
                    date_wf(e) && #[trigger] ds.contains_key(e) && date_le(e, t) && date_le(
                        candidate_seq(t, w).last(),
                        e,
                    ) ==> date_le(e, rec.effective_date)
            },
            SearchModelResult::WindowExhausted(_) => false,
        },
{
    let c = candidate_seq(t, w);
    lemma_candidates(t, w);
    lemma_first_hit(ds, c, 0);
    let wit = choose|i: int| 0 <= i < c.len() && ds.contains_key(#[trigger] c[i]);
    match first_hit(ds, c, 0) {
        Some(k) => {
            let rec = ds[c[k]];
            assert(rec.effective_date == c[k]);
            assert(c.contains(rec.effective_date)) by {
                assert(c[k] == rec.effective_date);
            }
            assert forall|e: Date|
                date_wf(e) && #[trigger] ds.contains_key(e) && date_le(e, t) && date_le(
                    c.last(),
                    e,
                ) implies date_le(e, rec.effective_date) by {
                lemma_candidates_cover(t, w, e);
                let j = choose|j: int| 0 <= j < c.len() && c[j] == e;
                if j < k {
                    assert(!ds.contains_key(c[j]));
                    assert(false);
                } else if j > k {
                    assert(date_lt(c[j], c[k]));
                } else {
                    assert(c[j] == c[k]);
                }
            }
        },
        None => {
            assert(!ds.contains_key(c[wit]));
            assert(false);
        },
    }
}

/// When every candidate in a window of size `w + 1` fails, the search
/// reports exhaustion whose attempted-date list has exactly `w + 1`
/// entries, strictly decreasing and starting at the target.
pub proof fn lemma_window_exhausted(ds: Map<Date, EntryModel>, t: Date, w: nat)
    requires
        date_wf(t),
        candidate_seq(t, w).len() == w + 1,
        forall|i: int| 0 <= i < candidate_seq(t, w).len() ==> !ds.contains_key(
            #[trigger] candidate_seq(t, w)[i],
        ),
    ensures
        match search_model(ds, t, w) {
            SearchModelResult::WindowExhausted(att) => {
                &&& att.len() == w + 1
                &&& att[0] == t
                &&& forall|i: int, j: int|
                    #![trigger att[i], att[j]]
                    0 <= i < j < att.len() ==> date_lt(att[j], att[i])
            },
            SearchModelResult::Found(_) => false,
        },
{
    let c = candidate_seq(t, w);
    lemma_candidates(t, w);
    lemma_first_hit(ds, c, 0);
    match first_hit(ds, c, 0) {
        Some(k) => {
            assert(!ds.contains_key(c[k]));
            assert(false);
        },
        None => {},
    }
}

/// A search is a function of its inputs: two searches with identical inputs
/// against an unchanged dataset come to identical outcomes.
pub proof fn lemma_search_idempotent(
    ds: Map<Date, EntryModel>,
    t: Date,
    w: nat,
    r1: FallbackSearchResult,
    r2: FallbackSearchResult,
)
    requires
        result_matches(r1, search_model(ds, t, w)),
        result_matches(r2, search_model(ds, t, w)),
    ensures
        match (r1, r2) {
            (FallbackSearchResult::Found(a), FallbackSearchResult::Found(b)) => a@ == b@,
            (
                FallbackSearchResult::WindowExhausted(u),
                FallbackSearchResult::WindowExhausted(v),
            ) => u@ == v@,
            _ => false,
        },
{
}

} // verus!
