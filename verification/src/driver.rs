use vstd::prelude::*;

use crate::errors::FetchError;
use crate::page::{Page, PageModel};

verus! {

/// The state of one target's pagination run. A run starts fetching with no
/// cursor and an empty accumulator; each fetched page appends its source
/// identifiers and hands over its cursor; the run is done as soon as a page
/// carries no cursor or a fetch fails.
#[derive(Debug)]
pub struct RunState {
    /// Every `did` accumulated so far, in page order then intra-page order,
    /// duplicates preserved.
    pub acc: Vec<String>,
    /// The cursor to carry on the next request; `None` on the first request.
    pub cursor: Option<String>,
    /// Whether the run has ended: no further request is to be made.
    pub done: bool,
    /// The failure that ended the run, if one did.
    pub failure: Option<FetchError>,
    /// How many fetch outcomes the run has consumed, saturating at
    /// `u64::MAX`; a caller may hold it against a page limit.
    pub pages: u64,
}

/// The mathematical value of a `RunState`.
pub struct RunModel {
    pub acc: Seq<Seq<char>>,
    pub cursor: Option<Seq<char>>,
    pub done: bool,
    pub failure: Option<FetchError>,
    pub pages: u64,
}

impl View for RunState {
    type V = RunModel;

    open spec fn view(&self) -> RunModel {
        RunModel {
            acc: self.acc@.map_values(|d: String| d@),
            cursor: match self.cursor {
                Some(c) => Some(c@),
                None => None,
            },
            done: self.done,
            failure: self.failure,
            pages: self.pages,
        }
    }
}

/// The source identifiers of one page, in the page's own order.
pub open spec fn page_dids(p: PageModel) -> Seq<Seq<char>> {
    p.records.map_values(|r: crate::page::RecordModel| r.did)
}

/// The outcome of one fetch, as a mathematical value.
pub open spec fn outcome_view(o: Result<Page, FetchError>) -> Result<PageModel, FetchError> {
    match o {
        Ok(p) => Ok(p@),
        Err(e) => Err(e),
    }
}

/// A whole script of fetch outcomes, as mathematical values.
pub open spec fn script_view(s: Seq<Result<Page, FetchError>>) -> Seq<
    Result<PageModel, FetchError>,
> {
    s.map_values(|o: Result<Page, FetchError>| outcome_view(o))
}

/// One more consumed outcome, capped so the counter can never wrap.
pub open spec fn saturating_inc(p: u64) -> u64 {
    if p < u64::MAX {
        (p + 1) as u64
    } else {
        p
    }
}

/// The state a run starts in.
pub open spec fn spec_initial() -> RunModel {
    RunModel { acc: Seq::empty(), cursor: None, done: false, failure: None, pages: 0 }
}

/// One transition of the run's state machine. A successful page appends its
/// identifiers in order and hands over its cursor; an absent cursor ends
/// the run. A failure ends the run at once, keeping the accumulator as it
/// stands.
pub open spec fn spec_step(s: RunModel, o: Result<PageModel, FetchError>) -> RunModel {
    match o {
        Ok(p) => RunModel {
            acc: s.acc + page_dids(p),
            cursor: p.cursor,
            done: p.cursor is None,
            failure: s.failure,
            pages: saturating_inc(s.pages),
        },
        Err(e) => RunModel {
            acc: s.acc,
            cursor: s.cursor,
            done: true,
            failure: Some(e),
            pages: saturating_inc(s.pages),
        },
    }
}

/// The accumulator only grows: whatever a step consumes, everything
/// accumulated before it stays, in place, at the front.
pub proof fn lemma_acc_monotonic(s: RunModel, o: Result<PageModel, FetchError>)
    ensures
        s.acc.is_prefix_of(spec_step(s, o).acc),
{
    match o {
        Ok(p) => {
            assert((s.acc + page_dids(p)).subrange(0, s.acc.len() as int) =~= s.acc);
        },
        Err(_) => {
            assert(s.acc.subrange(0, s.acc.len() as int) =~= s.acc);
        },
    }
}

/// The run's state after consuming outcomes from `script` in order,
/// starting at `s` and stopping as soon as the run is done.
pub open spec fn spec_run_from(s: RunModel, script: Seq<Result<PageModel, FetchError>>) -> RunModel
    decreases script.len(),
{
    if s.done || script.len() == 0 {
        s
    } else {
        spec_run_from(spec_step(s, script[0]), script.drop_first())
    }
}

/// The run's state after a whole script, from the initial state.
pub open spec fn spec_run(script: Seq<Result<PageModel, FetchError>>) -> RunModel {
    spec_run_from(spec_initial(), script)
}

/// The cursors carried by the requests the run makes against `script`,
/// in order: one request per consumed outcome, each carrying the cursor
/// the state holds when it is made.
pub open spec fn spec_requests_from(s: RunModel, script: Seq<Result<PageModel, FetchError>>) -> Seq<
    Option<Seq<char>>,
>
    decreases script.len(),
{
    if s.done || script.len() == 0 {
        Seq::empty()
    } else {
        seq![s.cursor] + spec_requests_from(spec_step(s, script[0]), script.drop_first())
    }
}

/// The cursors carried by the requests of a whole run.
pub open spec fn spec_requests(script: Seq<Result<PageModel, FetchError>>) -> Seq<
    Option<Seq<char>>,
> {
    spec_requests_from(spec_initial(), script)
}

/// The identifiers the outcomes of `script` carry, concatenated in fetch
/// order; a failure carries none.
pub open spec fn flat_dids(script: Seq<Result<PageModel, FetchError>>) -> Seq<Seq<char>>
    decreases script.len(),
{
    if script.len() == 0 {
        Seq::empty()
    } else {
        (match script[0] {
            Ok(p) => page_dids(p),
            Err(_) => Seq::empty(),
        }) + flat_dids(script.drop_first())
    }
}

/// How many outcomes of `script` the run consumes before it stops.
pub open spec fn spec_consumed_from(s: RunModel, script: Seq<Result<PageModel, FetchError>>) -> nat
    decreases script.len(),
{
    if s.done || script.len() == 0 {
        0
    } else {
        1 + spec_consumed_from(spec_step(s, script[0]), script.drop_first())
    }
}

/// How many outcomes a whole run consumes.
pub open spec fn spec_consumed(script: Seq<Result<PageModel, FetchError>>) -> nat {
    spec_consumed_from(spec_initial(), script)
}

/// Whether an outcome lets the run continue: a page that carries a cursor.
pub open spec fn continues(o: Result<PageModel, FetchError>) -> bool {
    o matches Ok(p) && p.cursor is Some
}

/// The cursor an outcome hands over, if any.
pub open spec fn outcome_cursor(o: Result<PageModel, FetchError>) -> Option<Seq<char>> {
    match o {
        Ok(p) => p.cursor,
        Err(_) => None,
    }
}

proof fn lemma_requests_from_shape(s: RunModel, script: Seq<Result<PageModel, FetchError>>)
    ensures
        spec_requests_from(s, script).len() <= script.len(),
        spec_requests_from(s, script).len() > 0 ==> spec_requests_from(s, script)[0] == s.cursor,
        forall|i: int|
            0 <= i < spec_requests_from(s, script).len() - 1 ==> continues(#[trigger] script[i])
                && spec_requests_from(s, script)[i + 1] == outcome_cursor(script[i]),
    decreases script.len(),
{
    if s.done || script.len() == 0 {
    } else {
        let s2 = spec_step(s, script[0]);
        let tail = script.drop_first();
        lemma_requests_from_shape(s2, tail);
        assert forall|i: int|
            0 <= i < spec_requests_from(s, script).len() - 1 implies continues(
            #[trigger] script[i],
        ) && spec_requests_from(s, script)[i + 1] == outcome_cursor(script[i]) by {
            assert(spec_requests_from(s, script).len() == 1 + spec_requests_from(s2, tail).len());
            assert(spec_requests_from(s, script)[i + 1] == spec_requests_from(s2, tail)[i]);
            assert(spec_requests_from(s2, tail).len() > 0);
            assert(!s2.done);
            if i == 0 {
                match script[0] {
                    Ok(p) => {
                        assert(p.cursor is Some && s2.cursor == p.cursor);
                    },
                    Err(_) => {
                        assert(false);
                    },
                }
                assert(spec_requests_from(s2, tail)[0] == s2.cursor);
            } else {
                assert(tail[i - 1] == script[i]);
            }
        }
    }
}

/// Cursor chaining: the first request of a run carries no cursor, and every
/// later request carries exactly the cursor of the page returned just
/// before it; a request is only made after a page that carried one.
pub proof fn lemma_cursor_chaining(script: Seq<Result<PageModel, FetchError>>)
    ensures
        spec_requests(script).len() <= script.len(),
        spec_requests(script).len() > 0 ==> spec_requests(script)[0] is None,
        forall|i: int|
            0 <= i < spec_requests(script).len() - 1 ==> continues(#[trigger] script[i])
                && spec_requests(script)[i + 1] == outcome_cursor(script[i]),
{
    lemma_requests_from_shape(spec_initial(), script);
}

proof fn lemma_requests_from_made(
    s: RunModel,
    script: Seq<Result<PageModel, FetchError>>,
    i: int,
)
    requires
        !s.done,
        0 <= i <= script.len(),
        forall|j: int| 0 <= j < i ==> continues(#[trigger] script[j]),
    ensures
        spec_requests_from(s, script).len() >= if i < script.len() {
            i + 1
        } else {
            i
        },
    decreases i,
{
    if script.len() == 0 {
    } else if i == 0 {
    } else {
        let s2 = spec_step(s, script[0]);
        let tail = script.drop_first();
        assert(continues(script[0]));
        assert(!s2.done);
        assert forall|j: int| 0 <= j < i - 1 implies continues(#[trigger] tail[j]) by {
            assert(tail[j] == script[j + 1]);
        }
        lemma_requests_from_made(s2, tail, i - 1);
    }
}

/// Cursor chaining, the other direction: as long as the outcomes keep
/// carrying a cursor the driver keeps asking. If the first `i` outcomes all
/// carry one, the run makes at least `i + 1` requests (or `i`, where the
/// script holds no further answer).
pub proof fn lemma_requests_made(script: Seq<Result<PageModel, FetchError>>, i: int)
    requires
        0 <= i <= script.len(),
        forall|j: int| 0 <= j < i ==> continues(#[trigger] script[j]),
    ensures
        spec_requests(script).len() >= if i < script.len() {
            i + 1
        } else {
            i
        },
{
    lemma_requests_from_made(spec_initial(), script, i);
}

proof fn lemma_requests_from_stop(
    s: RunModel,
    script: Seq<Result<PageModel, FetchError>>,
    i: int,
)
    requires
        0 <= i < spec_requests_from(s, script).len(),
        (script[i] matches Ok(p) && p.cursor is None) || script[i] is Err,
    ensures
        spec_requests_from(s, script).len() == i + 1,
    decreases script.len(),
{
    assert(!s.done && script.len() > 0);
    lemma_requests_from_shape(s, script);
    let s2 = spec_step(s, script[0]);
    let tail = script.drop_first();
    if i == 0 {
        assert(s2.done);
    } else {
        assert(tail[i - 1] == script[i]);
        lemma_requests_from_stop(s2, tail, i - 1);
    }
}

/// Termination: as soon as an outcome ends the run, whether a page without
/// a cursor or a failure, no further request is made for that target.
pub proof fn lemma_termination(script: Seq<Result<PageModel, FetchError>>, i: int)
    requires
        0 <= i < spec_requests(script).len(),
        (script[i] matches Ok(p) && p.cursor is None) || script[i] is Err,
    ensures
        spec_requests(script).len() == i + 1,
{
    lemma_requests_from_stop(spec_initial(), script, i);
}

proof fn lemma_run_from_acc(s: RunModel, script: Seq<Result<PageModel, FetchError>>)
    ensures
        spec_consumed_from(s, script) <= script.len(),
        spec_run_from(s, script).acc == s.acc + flat_dids(
            script.take(spec_consumed_from(s, script) as int),
        ),
    decreases script.len(),
{
    let n = spec_consumed_from(s, script) as int;
    if s.done || script.len() == 0 {
        assert(script.take(0) =~= Seq::<Result<PageModel, FetchError>>::empty());
        assert(s.acc + flat_dids(Seq::empty()) =~= s.acc);
    } else {
        let s2 = spec_step(s, script[0]);
        let tail = script.drop_first();
        lemma_run_from_acc(s2, tail);
        let n2 = spec_consumed_from(s2, tail) as int;
        assert(script.take(n)[0] == script[0]);
        assert(script.take(n).drop_first() =~= tail.take(n2));
        match script[0] {
            Ok(p) => {
                assert(s2.acc == s.acc + page_dids(p));
                assert((s.acc + page_dids(p)) + flat_dids(tail.take(n2)) =~= s.acc + (page_dids(p)
                    + flat_dids(tail.take(n2))));
            },
            Err(_) => {
                assert(s2.done);
                assert(s.acc + (Seq::<Seq<char>>::empty() + flat_dids(tail.take(n2))) =~~= s.acc);
            },
        }
    }
}

/// Order preservation: what a run accumulates is exactly the concatenation,
/// in fetch order, of each consumed page's source identifiers, intra-page
/// order preserved and nothing deduplicated.
pub proof fn lemma_order_preservation(script: Seq<Result<PageModel, FetchError>>)
    ensures
        spec_consumed(script) <= script.len(),
        spec_run(script).acc == flat_dids(script.take(spec_consumed(script) as int)),
{
    lemma_run_from_acc(spec_initial(), script);
    assert(Seq::<Seq<char>>::empty() + flat_dids(script.take(spec_consumed(script) as int)) =~=
        flat_dids(script.take(spec_consumed(script) as int)));
}

proof fn lemma_consumed_from_is_requests(s: RunModel, script: Seq<Result<PageModel, FetchError>>)
    ensures
        spec_requests_from(s, script).len() == spec_consumed_from(s, script),
    decreases script.len(),
{
    if s.done || script.len() == 0 {
    } else {
        lemma_consumed_from_is_requests(spec_step(s, script[0]), script.drop_first());
    }
}

/// One request per consumed outcome: the run makes exactly as many requests
/// as it consumes answers.
pub proof fn lemma_consumed_is_requests(script: Seq<Result<PageModel, FetchError>>)
    ensures
        spec_requests(script).len() == spec_consumed(script),
{
    lemma_consumed_from_is_requests(spec_initial(), script);
}

proof fn lemma_run_from_failure(s: RunModel, script: Seq<Result<PageModel, FetchError>>, k: int)
    requires
        !s.done,
        0 <= k < script.len(),
        script[k] is Err,
        forall|j: int| 0 <= j < k ==> continues(#[trigger] script[j]),
    ensures
        spec_run_from(s, script).done,
        script[k] matches Err(e) && spec_run_from(s, script).failure == Some(e),
        spec_run_from(s, script).acc == s.acc + flat_dids(script.take(k)),
    decreases k,
{
    let s2 = spec_step(s, script[0]);
    let tail = script.drop_first();
    if k == 0 {
        assert(s2.done);
        assert(script.take(0) =~= Seq::<Result<PageModel, FetchError>>::empty());
        assert(s.acc + flat_dids(Seq::empty()) =~= s.acc);
    } else {
        assert(continues(script[0]));
        assert(!s2.done);
        assert forall|j: int| 0 <= j < k - 1 implies continues(#[trigger] tail[j]) by {
            assert(tail[j] == script[j + 1]);
        }
        assert(tail[k - 1] == script[k]);
        lemma_run_from_failure(s2, tail, k - 1);
        assert(script.take(k)[0] == script[0]);
        assert(script.take(k).drop_first() =~= tail.take(k - 1));
        match script[0] {
            Ok(p) => {
                assert((s.acc + page_dids(p)) + flat_dids(tail.take(k - 1)) =~= s.acc + (page_dids(
                    p,
                ) + flat_dids(tail.take(k - 1))));
            },
            Err(_) => {},
        }
    }
}

/// Failure isolation, within one target: a run whose `k`-th fetch fails
/// after `k` full pages ends exactly there, reporting that failure and
/// returning exactly the identifiers accumulated before it; outcomes past
/// the failure are never consumed. Across targets, `run_targets_replay`
/// states that each target's result is a function of its own script alone.
pub proof fn lemma_failure_isolation(script: Seq<Result<PageModel, FetchError>>, k: int)
    requires
        0 <= k < script.len(),
        script[k] is Err,
        forall|j: int| 0 <= j < k ==> continues(#[trigger] script[j]),
    ensures
        spec_run(script).done,
        script[k] matches Err(e) && spec_run(script).failure == Some(e),
        spec_run(script).acc == flat_dids(script.take(k)),
        spec_consumed(script) == k + 1,
{
    lemma_run_from_failure(spec_initial(), script, k);
    assert(Seq::<Seq<char>>::empty() + flat_dids(script.take(k)) =~= flat_dids(script.take(k)));
    lemma_consumed_is_requests(script);
    lemma_requests_made(script, k);
    lemma_termination(script, k);
}

/// A fresh run: no cursor, nothing accumulated, not done.
pub fn initial_state() -> (r: RunState)
    ensures
        r@ == spec_initial(),
{
    let r = RunState { acc: Vec::new(), cursor: None, done: false, failure: None, pages: 0 };
    proof {
        assert(r@.acc =~= spec_initial().acc);
    }
    r
}

/// Consume one fetch outcome: append the page's identifiers and take its
/// cursor, or end the run on its failure.
pub fn step(state: RunState, outcome: Result<Page, FetchError>) -> (r: RunState)
    requires
        !state.done,
    ensures
        r@ == spec_step(state@, outcome_view(outcome)),
{
    match outcome {
        Ok(page) => {
            let mut acc = state.acc;
            let recs = page.records;
            let ghost acc0 = acc@.map_values(|d: String| d@);
            let ghost dids = recs@.map_values(|rec: crate::page::LinkingRecord| rec@.did);
            let mut i: usize = 0;
            proof {
                assert(acc@.map_values(|d: String| d@) =~= acc0 + dids.take(0));
            }
            while i < recs.len()
                invariant
                    i <= recs@.len(),
                    dids == recs@.map_values(|rec: crate::page::LinkingRecord| rec@.did),
                    dids.len() == recs@.len(),
                    acc@.len() == acc0.len() + i,
                    acc@.map_values(|d: String| d@) == acc0 + dids.take(i as int),
                decreases recs@.len() - i,
            {
                let d = recs[i].did.clone();
                proof {
                    assert(d@ == dids[i as int]);
                }
                acc.push(d);
                proof {
                    let m = acc@.map_values(|x: String| x@);
                    let rhs = acc0 + dids.take(i as int + 1);
                    assert forall|k: int| 0 <= k < m.len() implies m[k] == rhs[k] by {
                        if k < acc0.len() + i {
                            assert(m[k] == acc0.add(dids.take(i as int))[k]);
                        } else {
                            assert(m[k] == d@);
                        }
                    }
                    assert(acc@.map_values(|x: String| x@) =~= acc0 + dids.take(i as int + 1));
                }
                i = i + 1;
            }
            proof {
                assert(dids.take(recs@.len() as int) =~= dids);
            }
            let done = page.cursor.is_none();
            let pages = if state.pages < u64::MAX {
                state.pages + 1
            } else {
                state.pages
            };
            let r = RunState { acc, cursor: page.cursor, done, failure: state.failure, pages };
            proof {
                let pm = PageModel {
                    total: page.total,
                    records: recs@.map_values(|rec: crate::page::LinkingRecord| rec@),
                    cursor: r@.cursor,
                };
                assert(page_dids(pm) =~= dids);
            }
            r
        },
        Err(e) => {
            let pages = if state.pages < u64::MAX {
                state.pages + 1
            } else {
                state.pages
            };
            RunState {
                acc: state.acc,
                cursor: state.cursor,
                done: true,
                failure: Some(e),
                pages,
            }
        },
    }
}

/// Whether the run has consumed at least `max_pages` outcomes: a caller
/// that bounds pagination holds the counter against its limit before each
/// further fetch, and surfaces the exceeded limit as its own condition.
pub fn page_limit_reached(state: &RunState, max_pages: u64) -> (r: bool)
    ensures
        r == (state.pages >= max_pages),
{
    state.pages >= max_pages
}

/// Run one target's pagination to completion against a script of fetch
/// outcomes, as a stub service would answer them: outcomes are consumed in
/// order until one ends the run or the script is exhausted.
pub fn run_replay(script: Vec<Result<Page, FetchError>>) -> (r: RunState)
    ensures
        r@ == spec_run(script_view(script@)),
{
    let ghost total = script_view(script@);
    let mut script = script;
    let mut state = initial_state();
    while script.len() > 0 && !state.done
        invariant
            spec_run_from(state@, script_view(script@)) == spec_run_from(spec_initial(), total),
        decreases script@.len(),
    {
        let ghost before = script@;
        let o = script.remove(0);
        proof {
            assert(script@ =~= before.drop_first());
            assert(script_view(before).drop_first() =~= script_view(before.drop_first()));
            assert(script_view(before)[0] == outcome_view(before[0]));
        }
        state = step(state, o);
    }
    proof {
        if state@.done {
        } else {
            assert(script_view(script@) =~= Seq::<Result<PageModel, FetchError>>::empty());
        }
    }
    state
}

/// Run each target's script independently, one target at a time. Each
/// element of the result is exactly the run of the matching script: one
/// target's failure or results have no effect on another's.
pub fn run_targets_replay(scripts: Vec<Vec<Result<Page, FetchError>>>) -> (r: Vec<RunState>)
    ensures
        r@.len() == scripts@.len(),
        forall|i: int|
            0 <= i < scripts@.len() ==> r@[i]@ == spec_run(script_view(scripts@[i]@)),
{
    let ghost orig = scripts@;
    let mut scripts = scripts;
    let mut results: Vec<RunState> = Vec::new();
    while scripts.len() > 0
        invariant
            results@.len() + scripts@.len() == orig.len(),
            scripts@ =~= orig.skip(results@.len() as int),
            forall|i: int|
                0 <= i < results@.len() ==> results@[i]@ == spec_run(script_view(orig[i]@)),
        decreases scripts@.len(),
    {
        let s = scripts.remove(0);
        let outcome = run_replay(s);
        results.push(outcome);
        proof {
            assert(scripts@ =~= orig.skip(results@.len() as int));
        }
    }
    results
}

} // verus!
