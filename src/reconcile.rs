use vstd::prelude::*;

use crate::currency::{clock_micros, Currency};
use crate::rate::{is_nan_bits, rates_equal, Rate};

verus! {

/// One entry of a polled snapshot: a currency code and its quoted rate,
/// or `None` where the quoted text is not a number.
pub struct Quote {
    pub code: String,
    pub rate: Option<Rate>,
}

/// What one reconcile pass did to one record.
#[derive(Clone, Copy, Debug, PartialEq, Eq, Structural)]
pub enum Outcome {
    /// The quoted rate differed; the record took it and a new time stamp.
    Updated,
    /// The quoted rate equalled the stored one; the record is untouched.
    Unchanged,
    /// The snapshot quotes nothing for the code; the record is untouched.
    Missing,
}

/// A pass stopped at a record whose quoted rate is not a number.
#[derive(Debug)]
pub struct RateError {
    /// Position of that record in the registry.
    pub index: usize,
    /// Its currency code.
    pub code: String,
    /// The outcomes of the records before it, which were reconciled.
    pub applied: Vec<Outcome>,
}

/// The rate that the first quote naming `code` carries, if any quote names it.
pub open spec fn quote_for(quotes: Seq<Quote>, code: Seq<char>) -> Option<Option<Rate>>
    decreases quotes.len(),
{
    if quotes.len() == 0 {
        None
    } else {
        let earlier = quote_for(quotes.drop_last(), code);
        if earlier is Some {
            earlier
        } else if quotes.last().code@ == code {
            Some(quotes.last().rate)
        } else {
            None
        }
    }
}

/// The snapshot quotes a NaN for `code`.
pub open spec fn quoted_nan(quotes: Seq<Quote>, code: Seq<char>) -> bool {
    quote_for(quotes, code) matches Some(Some(r)) && is_nan_bits(r.bits)
}

/// One record reconciled against a snapshot at time `now`: the record after
/// and the outcome, or `None` where its quoted rate is not a number.
pub open spec fn reconciled(c: Currency, quotes: Seq<Quote>, now: i64) -> Option<(Currency, Outcome)> {
    match quote_for(quotes, c.iso_code@) {
        None => Some((c, Outcome::Missing)),
        Some(None) => None,
        Some(Some(r)) => if rates_equal(c.value.bits, r.bits) {
            Some((c, Outcome::Unchanged))
        } else {
            Some((Currency { iso_code: c.iso_code, value: r, updated: now }, Outcome::Updated))
        },
    }
}

/// A pass over the registry `before`, in order, left `after` and returned `r`:
/// each record is reconciled in turn; the pass stops at the first record whose
/// quoted rate is not a number, leaving it and every later record untouched.
pub open spec fn reconcile_spec(
    before: Seq<Currency>,
    after: Seq<Currency>,
    quotes: Seq<Quote>,
    now: i64,
    r: Result<Vec<Outcome>, RateError>,
) -> bool {
    &&& after.len() == before.len()
    &&& match r {
        Ok(outs) => {
            &&& outs@.len() == before.len()
            &&& forall|i: int|
                0 <= i < before.len() ==> reconciled(before[i], quotes, now) == Some(
                    (after[i], outs@[i]),
                )
        },
        Err(e) => {
            &&& e.index < before.len()
            &&& reconciled(before[e.index as int], quotes, now) is None
            &&& e.code@ == before[e.index as int].iso_code@
            &&& e.applied@.len() == e.index
            &&& forall|i: int|
                0 <= i < e.index ==> reconciled(before[i], quotes, now) == Some(
                    (after[i], e.applied@[i]),
                )
            &&& forall|i: int| e.index <= i < before.len() ==> after[i] == before[i]
        },
    }
}

/// Once a prefix of the snapshot names `code`, the whole snapshot quotes
/// the same rate for it.
proof fn lemma_quote_for_prefix(quotes: Seq<Quote>, code: Seq<char>, k: int)
    requires
        0 <= k <= quotes.len(),
        quote_for(quotes.subrange(0, k), code) is Some,
    ensures
        quote_for(quotes, code) == quote_for(quotes.subrange(0, k), code),
    decreases quotes.len(),
{
    if k == quotes.len() {
        assert(quotes.subrange(0, k) == quotes);
    } else {
        assert(quotes.drop_last().subrange(0, k) == quotes.subrange(0, k));
        lemma_quote_for_prefix(quotes.drop_last(), code, k);
    }
}

/// Finds the rate quoted for `code` by the first quote that names it.
fn find_quote(quotes: &Vec<Quote>, code: &String) -> (r: Option<Option<Rate>>)
    ensures
        r == quote_for(quotes@, code@),
{
    let mut i: usize = 0;
    while i < quotes.len()
        invariant
            i <= quotes.len(),
            quote_for(quotes@.subrange(0, i as int), code@) is None,
        decreases quotes.len() - i,
    {
        assert(quotes@.subrange(0, i + 1).drop_last() == quotes@.subrange(0, i as int));
        if quotes[i].code == *code {
            proof {
                lemma_quote_for_prefix(quotes@, code@, i + 1);
            }
            return Some(quotes[i].rate);
        }
        i = i + 1;
    }
    assert(quotes@.subrange(0, quotes.len() as int) == quotes@);
    None
}

/// Reconciles every record, in order, against the snapshot `quotes`,
/// stamping changed records with `now`.
pub fn reconcile_at(currencies: &mut Vec<Currency>, quotes: &Vec<Quote>, now: i64) -> (r: Result<
    Vec<Outcome>,
    RateError,
>)
    ensures
        reconcile_spec(old(currencies)@, final(currencies)@, quotes@, now, r),
{
    let ghost before = currencies@;
    let mut outs: Vec<Outcome> = Vec::new();
    let mut i: usize = 0;
    while i < currencies.len()
        invariant
            i <= currencies.len(),
            before == old(currencies)@,
            currencies@.len() == before.len(),
            outs@.len() == i,
            forall|j: int|
                0 <= j < i ==> reconciled(before[j], quotes@, now) == Some(
                    (currencies@[j], outs@[j]),
                ),
            forall|j: int| i <= j < before.len() ==> currencies@[j] == before[j],
        decreases currencies.len() - i,
    {
        match find_quote(quotes, &currencies[i].iso_code) {
            None => {
                outs.push(Outcome::Missing);
            },
            Some(None) => {
                assert(currencies@[i as int] == before[i as int]);
                return Err(
                    RateError { index: i, code: currencies[i].iso_code.clone(), applied: outs },
                );
            },
            Some(Some(rate)) => {
                if currencies[i].value.same_value(&rate) {
                    outs.push(Outcome::Unchanged);
                } else {
                    let mut c = Currency {
                        iso_code: currencies[i].iso_code.clone(),
                        value: currencies[i].value,
                        updated: currencies[i].updated,
                    };
                    c.update_at(rate, now);
                    currencies.set(i, c);
                    outs.push(Outcome::Updated);
                }
            },
        }
        i = i + 1;
    }
    Ok(outs)
}

/// Reconciles every record, in order, against the snapshot `quotes`,
/// stamping changed records with the current time, read once for the pass.
pub fn reconcile(currencies: &mut Vec<Currency>, quotes: &Vec<Quote>) -> (r: Result<
    Vec<Outcome>,
    RateError,
>)
    ensures
        exists|now: i64|
            now >= 0 && #[trigger] reconcile_spec(
                old(currencies)@,
                final(currencies)@,
                quotes@,
                now,
                r,
            ),
{
    let now = clock_micros();
    reconcile_at(currencies, quotes, now)
}

/// A record whose code the snapshot quotes at a different rate takes that
/// rate, and its time stamp moves to the time of the pass, which is later
/// than the old stamp whenever the clock has moved forward.
pub proof fn lemma_changed_rate_is_applied(
    before: Seq<Currency>,
    after: Seq<Currency>,
    quotes: Seq<Quote>,
    now: i64,
    r: Result<Vec<Outcome>, RateError>,
    i: int,
    rate: Rate,
)
    requires
        reconcile_spec(before, after, quotes, now, r),
        r is Ok,
        0 <= i < before.len(),
        quote_for(quotes, before[i].iso_code@) == Some(Some(rate)),
        !rates_equal(before[i].value.bits, rate.bits),
        before[i].updated < now,
    ensures
        after[i].iso_code == before[i].iso_code,
        after[i].value == rate,
        after[i].updated > before[i].updated,
        r->Ok_0@[i] == Outcome::Updated,
{
}

/// A record whose code the snapshot quotes at an equal rate keeps its rate
/// and its time stamp.
pub proof fn lemma_equal_rate_is_kept(
    before: Seq<Currency>,
    after: Seq<Currency>,
    quotes: Seq<Quote>,
    now: i64,
    r: Result<Vec<Outcome>, RateError>,
    i: int,
    rate: Rate,
)
    requires
        reconcile_spec(before, after, quotes, now, r),
        r is Ok,
        0 <= i < before.len(),
        quote_for(quotes, before[i].iso_code@) == Some(Some(rate)),
        rates_equal(before[i].value.bits, rate.bits),
    ensures
        after[i] == before[i],
        r->Ok_0@[i] == Outcome::Unchanged,
{
}

/// A record whose code the snapshot does not name is left as it was, is
/// reported missing, and does not stop the pass.
pub proof fn lemma_absent_code_is_skipped(
    before: Seq<Currency>,
    after: Seq<Currency>,
    quotes: Seq<Quote>,
    now: i64,
    r: Result<Vec<Outcome>, RateError>,
    i: int,
)
    requires
        reconcile_spec(before, after, quotes, now, r),
        0 <= i < before.len(),
        quote_for(quotes, before[i].iso_code@) is None,
    ensures
        after[i] == before[i],
        r is Ok ==> r->Ok_0@[i] == Outcome::Missing,
        r is Err ==> r->Err_0.index != i,
        r is Err && i < r->Err_0.index ==> r->Err_0.applied@[i] == Outcome::Missing,
{
}

/// A second pass with the same snapshot, after a first pass that completed,
/// updates nothing: it completes, leaves every record as the first pass left
/// it, and reports each record unchanged, or missing where the snapshot does
/// not name it. This needs the snapshot to quote no NaN for a tracked code,
/// since a NaN equals no rate, not even itself.
pub proof fn lemma_second_pass_changes_nothing(
    first: Seq<Currency>,
    second: Seq<Currency>,
    third: Seq<Currency>,
    quotes: Seq<Quote>,
    now1: i64,
    now2: i64,
    r1: Result<Vec<Outcome>, RateError>,
    r2: Result<Vec<Outcome>, RateError>,
)
    requires
        reconcile_spec(first, second, quotes, now1, r1),
        reconcile_spec(second, third, quotes, now2, r2),
        r1 is Ok,
        forall|i: int| 0 <= i < first.len() ==> !quoted_nan(quotes, #[trigger] first[i].iso_code@),
    ensures
        r2 is Ok,
        third == second,
        forall|i: int|
            0 <= i < second.len() ==> #[trigger] r2->Ok_0@[i] == if quote_for(
                quotes,
                second[i].iso_code@,
            ) is None {
                Outcome::Missing
            } else {
                Outcome::Unchanged
            },
{
    assert forall|i: int| 0 <= i < second.len() implies reconciled(second[i], quotes, now2) == Some(
        (
            second[i],
            if quote_for(quotes, second[i].iso_code@) is None {
                Outcome::Missing
            } else {
                Outcome::Unchanged
            },
        ),
    ) by {
        assert(reconciled(first[i], quotes, now1) == Some((second[i], r1->Ok_0@[i])));
        assert(!quoted_nan(quotes, first[i].iso_code@));
    }
    if r2 is Err {
        let k = r2->Err_0.index as int;
        assert(reconciled(second[k], quotes, now2) is Some);
    }
    assert(third =~= second);
}

} // verus!
