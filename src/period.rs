//! The monthly billing schedule of a membership: one period per calendar month from the
//! entry date through a given day, each on the entry's day of month.
use vstd::prelude::*;

use crate::date::{date_in_month, date_in_month_exec, lemma_date_in_month, Date, MAX_MONTH_INDEX};

verus! {

/// The period that a membership entered on `entry` is billed for in the month with index `j`.
pub open spec fn anchored(entry: Date, j: int) -> Date {
    date_in_month(j, entry.day as int)
}

/// How many periods the schedule from `entry` holds through `today`.
pub open spec fn schedule_len(entry: Date, today: Date) -> int {
    if entry.key() > today.key() {
        0
    } else if anchored(entry, today.idx()).key() <= today.key() {
        today.idx() - entry.idx() + 1
    } else {
        today.idx() - entry.idx()
    }
}

/// The periods due from `entry` through `today`, in chronological order.
pub open spec fn schedule(entry: Date, today: Date) -> Seq<Date> {
    Seq::new(schedule_len(entry, today) as nat, |i: int| anchored(entry, entry.idx() + i))
}

/// Whether `p` is a period of the schedule from `entry` through `today`: it lies in a month
/// from the entry's month on, on the entry's day of month (clamped), and not after `today`.
pub open spec fn in_schedule(entry: Date, today: Date, p: Date) -> bool {
    entry.idx() <= p.idx() && p == anchored(entry, p.idx()) && p.key() <= today.key()
}

/// Whether `p` is absent from `existing`.
pub open spec fn absent_from(existing: Seq<Date>) -> spec_fn(Date) -> bool {
    |p: Date| !existing.contains(p)
}

/// The periods of the schedule through `today` that `existing` lacks, in chronological order.
pub open spec fn missing_periods(entry: Date, today: Date, existing: Seq<Date>) -> Seq<Date> {
    schedule(entry, today).filter(absent_from(existing))
}

/// The schedule ends in the month of `today` at the latest.
pub proof fn lemma_schedule_len(entry: Date, today: Date)
    requires
        entry.wf(),
        today.wf(),
    ensures
        0 <= schedule_len(entry, today),
        schedule_len(entry, today) == 0 || entry.idx() + schedule_len(entry, today) <= today.idx()
            + 1,
{
    lemma_date_in_month(today.idx(), entry.day as int);
    lemma_key_orders_months(entry, today);
}

/// A date on or before another lies in the same month or an earlier one.
pub proof fn lemma_key_orders_months(a: Date, b: Date)
    requires
        a.wf(),
        b.wf(),
    ensures
        a.key() <= b.key() ==> a.idx() <= b.idx(),
        a.idx() < b.idx() ==> a.key() < b.key(),
{
    assert(1 <= a.day <= 31 && 1 <= b.day <= 31);
}

/// The schedule holds exactly the periods that `in_schedule` describes.
pub proof fn lemma_schedule_contains(entry: Date, today: Date, p: Date)
    requires
        entry.wf(),
        today.wf(),
    ensures
        schedule(entry, today).contains(p) <==> in_schedule(entry, today, p),
{
    let s = schedule(entry, today);
    lemma_schedule_len(entry, today);
    if s.contains(p) {
        let i = choose|i: int| 0 <= i < s.len() && s[i] == p;
        let j = entry.idx() + i;
        lemma_date_in_month(j, entry.day as int);
        lemma_date_in_month(today.idx(), entry.day as int);
        if j < today.idx() {
            assert(p.key() <= today.key());
        }
    }
    if in_schedule(entry, today, p) {
        let i = p.idx() - entry.idx();
        lemma_date_in_month(today.idx(), entry.day as int);
        assert(p.idx() <= today.idx());
        assert(s[i] == p);
    }
}

/// The schedule is in strictly increasing chronological order.
pub proof fn lemma_schedule_increasing(entry: Date, today: Date, i: int, k: int)
    requires
        entry.wf(),
        today.wf(),
        0 <= i < k < schedule(entry, today).len(),
    ensures
        schedule(entry, today)[i].key() < schedule(entry, today)[k].key(),
{
    lemma_schedule_len(entry, today);
    lemma_date_in_month(entry.idx() + i, entry.day as int);
    lemma_date_in_month(entry.idx() + k, entry.day as int);
}

/// No period appears twice in the schedule.
pub proof fn lemma_schedule_no_duplicates(entry: Date, today: Date)
    requires
        entry.wf(),
        today.wf(),
    ensures
        schedule(entry, today).no_duplicates(),
{
    let s = schedule(entry, today);
    assert forall|i: int, k: int| 0 <= i < s.len() && 0 <= k < s.len() && i != k implies s[i]
        != s[k] by {
        if i < k {
            lemma_schedule_increasing(entry, today, i, k);
        } else {
            lemma_schedule_increasing(entry, today, k, i);
        }
    }
}

/// Filtering keeps a sequence free of duplicates.
pub proof fn lemma_filter_no_duplicates(s: Seq<Date>, pred: spec_fn(Date) -> bool)
    requires
        s.no_duplicates(),
    ensures
        s.filter(pred).no_duplicates(),
    decreases s.len(),
{
    reveal(Seq::filter);
    if s.len() > 0 {
        let rest = s.drop_last();
        assert(rest.no_duplicates());
        lemma_filter_no_duplicates(rest, pred);
        let sub = rest.filter(pred);
        if pred(s.last()) {
            if sub.contains(s.last()) {
                rest.lemma_filter_contains_rev(pred, s.last());
                let k = choose|k: int| 0 <= k < rest.len() && rest[k] == s.last();
                assert(s[k] == s[s.len() - 1]);
            }
            let out = sub.push(s.last());
            assert forall|i: int, k: int| 0 <= i < out.len() && 0 <= k < out.len() && i != k implies out[i]
                != out[k] by {
                if i < sub.len() && k < sub.len() {
                    assert(out[i] == sub[i] && out[k] == sub[k]);
                } else if i < sub.len() {
                    assert(sub.contains(out[i]));
                } else if k < sub.len() {
                    assert(sub.contains(out[k]));
                }
            }
        }
    }
}

/// What `missing_periods` holds, element by element.
pub proof fn lemma_missing_contains(entry: Date, today: Date, existing: Seq<Date>, p: Date)
    requires
        entry.wf(),
        today.wf(),
    ensures
        missing_periods(entry, today, existing).contains(p) <==> (in_schedule(entry, today, p)
            && !existing.contains(p)),
        missing_periods(entry, today, existing).no_duplicates(),
{
    let s = schedule(entry, today);
    let f = absent_from(existing);
    lemma_schedule_contains(entry, today, p);
    lemma_schedule_no_duplicates(entry, today);
    lemma_filter_no_duplicates(s, f);
    if s.filter(f).contains(p) {
        s.lemma_filter_contains_rev(f, p);
        let i = choose|i: int| 0 <= i < s.filter(f).len() && s.filter(f)[i] == p;
        s.lemma_filter_pred(f, i);
    }
    if in_schedule(entry, today, p) && !existing.contains(p) {
        let i = choose|i: int| 0 <= i < s.len() && s[i] == p;
        s.lemma_filter_contains(f, i);
    }
}

/// The periods that a run of generation calls leaves on a membership that had no dues: the
/// calls are made on the days `todays`, in order, and each adds what `plan_generate_dues`
/// plans from the periods the earlier calls left.
pub open spec fn generation_run(entry: Date, todays: Seq<Date>) -> Seq<Date>
    decreases todays.len(),
{
    if todays.len() == 0 {
        Seq::empty()
    } else {
        let prev = generation_run(entry, todays.drop_last());
        prev + missing_periods(entry, todays.last(), prev)
    }
}

/// Any run of generation calls on a membership that had no dues bills exactly the periods of
/// the schedule through the latest day a call was made on: one per calendar month from the
/// entry date, none twice and none missing.
pub proof fn law_generation_run(entry: Date, todays: Seq<Date>)
    requires
        entry.wf(),
        forall|i: int| 0 <= i < todays.len() ==> (#[trigger] todays[i]).wf(),
    ensures
        generation_run(entry, todays).no_duplicates(),
        forall|p: Date| #[trigger]
            generation_run(entry, todays).contains(p) <==> exists|i: int|
                0 <= i < todays.len() && in_schedule(entry, #[trigger] todays[i], p),
        forall|p: Date, q: Date|
            #![trigger generation_run(entry, todays).contains(p), generation_run(entry, todays).contains(q)]
            generation_run(entry, todays).contains(p) && generation_run(entry, todays).contains(q)
                && p.idx() == q.idx() ==> p == q,
    decreases todays.len(),
{
    let run = generation_run(entry, todays);
    if todays.len() > 0 {
        let earlier = todays.drop_last();
        let t = todays.last();
        law_generation_run(entry, earlier);
        let prev = generation_run(entry, earlier);
        let added = missing_periods(entry, t, prev);
        assert(run == prev + added);
        lemma_missing_contains(entry, t, prev, entry);
        assert forall|p: Date| #[trigger] run.contains(p) <==> exists|i: int|
            0 <= i < todays.len() && in_schedule(entry, #[trigger] todays[i], p) by {
            lemma_missing_contains(entry, t, prev, p);
            if run.contains(p) {
                let k = choose|k: int| 0 <= k < run.len() && run[k] == p;
                if k < prev.len() {
                    assert(prev[k] == p);
                    assert(prev.contains(p));
                    let i = choose|i: int| 0 <= i < earlier.len() && in_schedule(entry, #[trigger] earlier[i], p);
                    assert(todays[i] == earlier[i]);
                } else {
                    assert(added[k - prev.len()] == p);
                    assert(added.contains(p));
                    assert(todays[todays.len() - 1] == t);
                }
            }
            if exists|i: int| 0 <= i < todays.len() && in_schedule(entry, #[trigger] todays[i], p) {
                let i = choose|i: int| 0 <= i < todays.len() && in_schedule(entry, #[trigger] todays[i], p);
                if i < todays.len() - 1 {
                    assert(earlier[i] == todays[i]);
                    assert(prev.contains(p));
                    let k = choose|k: int| 0 <= k < prev.len() && prev[k] == p;
                    assert(run[k] == p);
                } else if prev.contains(p) {
                    let k = choose|k: int| 0 <= k < prev.len() && prev[k] == p;
                    assert(run[k] == p);
                } else {
                    assert(added.contains(p));
                    let k = choose|k: int| 0 <= k < added.len() && added[k] == p;
                    assert(run[prev.len() + k] == p);
                }
            }
        }
        assert forall|i: int, k: int| 0 <= i < run.len() && 0 <= k < run.len() && i != k implies run[i]
            != run[k] by {
            if i < prev.len() && k < prev.len() {
                assert(run[i] == prev[i] && run[k] == prev[k]);
            } else if i >= prev.len() && k >= prev.len() {
                assert(run[i] == added[i - prev.len()] && run[k] == added[k - prev.len()]);
            } else if i < prev.len() {
                assert(prev.contains(run[i]));
                assert(added[k - prev.len()] == run[k]);
                assert(added.contains(run[k]));
                lemma_missing_contains(entry, t, prev, run[k]);
            } else {
                assert(prev.contains(run[k]));
                assert(added[i - prev.len()] == run[i]);
                assert(added.contains(run[i]));
                lemma_missing_contains(entry, t, prev, run[i]);
            }
        }
    }
}

/// Whether `v` holds the period `p`.
pub fn has_period(v: &Vec<Date>, p: &Date) -> (r: bool)
    ensures
        r == v@.contains(*p),
{
    let mut i: usize = 0;
    while i < v.len()
        invariant
            0 <= i <= v.len(),
            forall|k: int| 0 <= k < i ==> v@[k] != *p,
        decreases v.len() - i,
    {
        if v[i] == *p {
            assert(v@[i as int] == *p);
            return true;
        }
        i += 1;
    }
    false
}

/// The number of periods due from `entry` through `today`.
fn schedule_length(entry: &Date, today: &Date) -> (r: u32)
    requires
        entry.wf(),
        today.wf(),
    ensures
        r as int == schedule_len(*entry, *today),
{
    proof {
        lemma_schedule_len(*entry, *today);
    }
    if !entry.on_or_before(today) {
        return 0;
    }
    let last_month = today.month_ordinal();
    let first_month = entry.month_ordinal();
    let last = date_in_month_exec(last_month, entry.day);
    if last.on_or_before(today) {
        last_month - first_month + 1
    } else {
        last_month - first_month
    }
}

/// The periods to bill for a membership entered on `entry`, as of `today`, given the periods
/// it is already billed for: every month's period from the entry date through `today` that
/// `existing` lacks, in chronological order and each once.
pub fn plan_generate_dues(entry: &Date, today: &Date, existing: &Vec<Date>) -> (r: Vec<Date>)
    requires
        entry.wf(),
        today.wf(),
    ensures
        r@ == missing_periods(*entry, *today, existing@),
        r@.no_duplicates(),
        forall|p: Date| #[trigger] r@.contains(p) <==> (in_schedule(*entry, *today, p) && !existing@.contains(p)),
        forall|i: int| 0 <= i < r@.len() ==> (#[trigger] r@[i]).wf(),
{
    let n = schedule_length(entry, today);
    let first_month = entry.month_ordinal();
    let ghost s = schedule(*entry, *today);
    let ghost f = absent_from(existing@);
    proof {
        lemma_schedule_len(*entry, *today);
    }
    let mut r: Vec<Date> = Vec::new();
    let mut i: u32 = 0;
    while i < n
        invariant
            entry.wf(),
            today.wf(),
            n as int == s.len(),
            s == schedule(*entry, *today),
            f == absent_from(existing@),
            first_month as int == entry.idx(),
            s.len() == 0 || entry.idx() + s.len() <= today.idx() + 1,
            today.idx() <= MAX_MONTH_INDEX,
            0 <= i <= n,
            r@ == s.take(i as int).filter(f),
        decreases n - i,
    {
        let p = date_in_month_exec(first_month + i, entry.day);
        assert(s.take(i as int + 1) == s.take(i as int).push(p));
        proof {
            s.take(i as int).lemma_filter_push(p, f);
        }
        if !has_period(existing, &p) {
            r.push(p);
        }
        i += 1;
    }
    assert(s.take(n as int) == s);
    proof {
        assert forall|p: Date| #[trigger] r@.contains(p) <==> (in_schedule(*entry, *today, p)
            && !existing@.contains(p)) by {
            lemma_missing_contains(*entry, *today, existing@, p);
        }
        lemma_missing_contains(*entry, *today, existing@, *entry);
        assert forall|i: int| 0 <= i < r@.len() implies (#[trigger] r@[i]).wf() by {
            assert(r@.contains(r@[i]));
            lemma_date_in_month(r@[i].idx(), entry.day as int);
        }
    }
    r
}

} // verus!
