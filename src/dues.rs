//! Dues and the rules that create, reconcile and settle them. Money is held in cents.
use vstd::prelude::*;

use crate::date::{month_after, next_month, Date, MAX_MONTH_INDEX, MAX_YEAR};
use crate::error::DuesError;
use crate::period::has_period;

verus! {

/// Where a due stands with respect to its payments.
#[derive(Clone, Copy, Debug, PartialEq, Eq, Structural)]
pub enum DueStatus {
    Unpaid,
    Partial,
    Paid,
}

impl DueStatus {
    /// The word the store keeps for this status.
    pub fn as_text(&self) -> (r: &'static str)
        ensures
            *self == DueStatus::Unpaid ==> r@ == "unpaid"@,
            *self == DueStatus::Partial ==> r@ == "partial"@,
            *self == DueStatus::Paid ==> r@ == "paid"@,
    {
        match self {
            DueStatus::Unpaid => "unpaid",
            DueStatus::Partial => "partial",
            DueStatus::Paid => "paid",
        }
    }
}

/// One billing period's charge on a membership.
#[derive(Clone, Debug)]
pub struct Due {
    pub id: i64,
    pub coop_member_id: i64,
    pub period: Date,
    /// What is owed, in cents.
    pub amount: u64,
    /// What has been paid so far, in cents.
    pub paid_amount: u64,
    pub status: DueStatus,
    /// The date of the latest payment, as the caller gave it.
    pub payment_date: Option<String>,
}

impl Due {
    /// A new unpaid due for `period` owing `amount` cents, with nothing paid on it.
    pub fn unpaid(id: i64, coop_member_id: i64, period: Date, amount: u64) -> (r: Due)
        ensures
            r.id == id,
            r.coop_member_id == coop_member_id,
            r.period == period,
            r.amount == amount,
            r.paid_amount == 0,
            r.status == DueStatus::Unpaid,
            r.payment_date is None,
    {
        Due { id, coop_member_id, period, amount, paid_amount: 0, status: DueStatus::Unpaid, payment_date: None }
    }
}

/// The status that a due owing `amount` has once `paid` has been paid on it.
pub open spec fn status_for(amount: int, paid: int) -> DueStatus {
    if paid >= amount {
        DueStatus::Paid
    } else if paid > 0 {
        DueStatus::Partial
    } else {
        DueStatus::Unpaid
    }
}

/// The status that a due owing `amount` has once `paid` has been paid on it: paid once the
/// payments reach the amount, partial while something but not all is paid, else unpaid.
pub fn status_of(amount: u64, paid: u64) -> (r: DueStatus)
    ensures
        r == status_for(amount as int, paid as int),
{
    if paid >= amount {
        DueStatus::Paid
    } else if paid > 0 {
        DueStatus::Partial
    } else {
        DueStatus::Unpaid
    }
}

/// Records a payment of `payment` cents made on `payment_date` against `due`: the payments
/// add up, the status follows from the new total, and the payment date is replaced. A total
/// beyond what a `u64` holds is `InvalidInput`, and leaves the due as it was.
pub fn record_payment(due: &mut Due, payment: u64, payment_date: String) -> (r: Result<
    (),
    DuesError,
>)
    ensures
        r is Ok <==> old(due).paid_amount + payment <= u64::MAX,
        r is Ok ==> final(due).paid_amount == old(due).paid_amount + payment && final(due).status
            == status_for(old(due).amount as int, old(due).paid_amount + payment)
            && final(due).payment_date == Some(payment_date) && final(due).id == old(due).id
            && final(due).coop_member_id == old(due).coop_member_id && final(due).period == old(
            due).period && final(due).amount == old(due).amount,
        r matches Err(e) ==> e == DuesError::InvalidInput && *final(due) == *old(due),
{
    if payment > u64::MAX - due.paid_amount {
        return Err(DuesError::InvalidInput);
    }
    let paid = due.paid_amount + payment;
    due.paid_amount = paid;
    due.status = status_of(due.amount, paid);
    due.payment_date = Some(payment_date);
    Ok(())
}

/// One twelfth of `total`, rounded half up to the cent.
pub open spec fn monthly_share(total: int) -> int {
    (total + 6) / 12
}

/// One twelfth of `total` cents, rounded half up to the cent.
pub fn monthly_share_of(total: u64) -> (r: u64)
    ensures
        r as int == monthly_share(total as int),
        r <= total,
{
    let rest: u64 = if total % 12 >= 6 {
        1
    } else {
        0
    };
    total / 12 + rest
}

/// What the yearly generator does for one month.
#[derive(Clone, Copy, Debug, PartialEq, Eq, Structural)]
pub enum YearlyStep {
    /// Bill the month's period, unpaid, with the given amount.
    Insert { period: Date, amount: u64 },
    /// Set the amount of the month's existing due, which is not yet paid.
    SetAmount { id: i64, amount: u64 },
    /// Leave the month's existing due alone: it is paid.
    KeepPaid { id: i64 },
}

/// The first day of month `m` of year `y`.
pub open spec fn first_of_month(y: int, m: int) -> Date {
    Date { year: y as i32, month: m as u32, day: 1 }
}

/// Whether `j` is the first position in `dues` with period `p`.
pub open spec fn is_first_with(dues: Seq<Due>, j: int, p: Date) -> bool {
    0 <= j < dues.len() && dues[j].period == p && forall|k: int|
        0 <= k < j ==> (#[trigger] dues[k]).period != p
}

/// Whether `step` is the right step for month `i + 1` of `year`, given the dues of the
/// membership and the monthly share: the first due of the month's period has its amount set
/// to the share unless it is paid, and a month without a due gets one.
pub open spec fn yearly_step_ok(dues: Seq<Due>, year: int, share: int, i: int, step: YearlyStep) -> bool {
    let p = first_of_month(year, i + 1);
    match step {
        YearlyStep::Insert { period, amount } => period == p && amount == share && forall|k: int|
            0 <= k < dues.len() ==> (#[trigger] dues[k]).period != p,
        YearlyStep::SetAmount { id, amount } => amount == share && exists|j: int|
            is_first_with(dues, j, p) && #[trigger] dues[j].id == id && dues[j].status
                != DueStatus::Paid,
        YearlyStep::KeepPaid { id } => exists|j: int|
            is_first_with(dues, j, p) && #[trigger] dues[j].id == id && dues[j].status
                == DueStatus::Paid,
    }
}

/// Whether `steps` is the yearly generator's plan for `year` and the annual `total`.
pub open spec fn yearly_plan(dues: Seq<Due>, year: int, total: int, steps: Seq<YearlyStep>) -> bool {
    steps.len() == 12 && forall|i: int|
        0 <= i < 12 ==> yearly_step_ok(dues, year, monthly_share(total), i, #[trigger] steps[i])
}

/// The first position in `dues` with period `p`, if any.
fn find_period(dues: &Vec<Due>, p: &Date) -> (r: Option<usize>)
    ensures
        r matches Some(j) ==> is_first_with(dues@, j as int, *p),
        r is None ==> forall|k: int| 0 <= k < dues@.len() ==> (#[trigger] dues@[k]).period != *p,
{
    let mut i: usize = 0;
    while i < dues.len()
        invariant
            0 <= i <= dues.len(),
            forall|k: int| 0 <= k < i ==> (#[trigger] dues@[k]).period != *p,
        decreases dues.len() - i,
    {
        if dues[i].period == *p {
            return Some(i);
        }
        i += 1;
    }
    None
}

/// Plans the yearly generation for `year` with an annual `total` in cents, given the dues of
/// the membership: for each month, the first due whose period is the month's first day gets
/// the monthly share as its amount unless it is paid, and a month with no such due gets a new
/// unpaid one. A year outside 0 to 9999 is `InvalidInput`.
pub fn plan_yearly_dues(year: i32, total: u64, dues: &Vec<Due>) -> (r: Result<
    Vec<YearlyStep>,
    DuesError,
>)
    ensures
        r is Err <==> !(0 <= year <= MAX_YEAR),
        r matches Err(e) ==> e == DuesError::InvalidInput,
        r matches Ok(steps) ==> yearly_plan(dues@, year as int, total as int, steps@),
{
    if year < 0 || year > MAX_YEAR {
        return Err(DuesError::InvalidInput);
    }
    let share = monthly_share_of(total);
    let mut steps: Vec<YearlyStep> = Vec::new();
    let mut m: u32 = 1;
    while m <= 12
        invariant
            1 <= m <= 13,
            steps@.len() == m - 1,
            share as int == monthly_share(total as int),
            forall|i: int|
                0 <= i < m - 1 ==> yearly_step_ok(dues@, year as int, share as int, i, #[trigger] steps@[i]),
        decreases 13 - m,
    {
        let p = Date { year, month: m, day: 1 };
        assert(p == first_of_month(year as int, m as int));
        let step = match find_period(dues, &p) {
            Some(j) => {
                if dues[j].status == DueStatus::Paid {
                    YearlyStep::KeepPaid { id: dues[j].id }
                } else {
                    YearlyStep::SetAmount { id: dues[j].id, amount: share }
                }
            },
            None => YearlyStep::Insert { period: p, amount: share },
        };
        steps.push(step);
        m += 1;
    }
    Ok(steps)
}

/// A due after one step of the yearly generator.
pub open spec fn apply_step(d: Due, step: YearlyStep) -> Due {
    match step {
        YearlyStep::SetAmount { id, amount } => if id == d.id {
            Due { amount, ..d }
        } else {
            d
        },
        _ => d,
    }
}

/// A due after the steps of the yearly generator, taken in order.
pub open spec fn apply_steps(d: Due, steps: Seq<YearlyStep>) -> Due
    decreases steps.len(),
{
    if steps.len() == 0 {
        d
    } else {
        apply_step(apply_steps(d, steps.drop_last()), steps.last())
    }
}

/// Steps that set no paid due's amount leave payments, status and identity alone.
proof fn lemma_apply_steps_keeps(d: Due, steps: Seq<YearlyStep>)
    requires
        forall|i: int|
            0 <= i < steps.len() ==> match #[trigger] steps[i] {
                YearlyStep::SetAmount { id, amount } => id == d.id ==> d.status != DueStatus::Paid,
                _ => true,
            },
    ensures
        apply_steps(d, steps).paid_amount == d.paid_amount,
        apply_steps(d, steps).status == d.status,
        apply_steps(d, steps).id == d.id,
        apply_steps(d, steps).period == d.period,
        apply_steps(d, steps).payment_date == d.payment_date,
        d.status == DueStatus::Paid ==> apply_steps(d, steps).amount == d.amount,
    decreases steps.len(),
{
    if steps.len() > 0 {
        let rest = steps.drop_last();
        assert forall|i: int| 0 <= i < rest.len() implies match #[trigger] rest[i] {
            YearlyStep::SetAmount { id, amount } => id == d.id ==> d.status != DueStatus::Paid,
            _ => true,
        } by {
            assert(rest[i] == steps[i]);
        }
        lemma_apply_steps_keeps(d, rest);
        assert(steps.last() == steps[steps.len() - 1]);
    }
}

/// Whether no two dues share an id.
pub open spec fn ids_unique(dues: Seq<Due>) -> bool {
    forall|j: int, k: int|
        0 <= j < dues.len() && 0 <= k < dues.len() && j != k ==> #[trigger] dues[j].id
            != #[trigger] dues[k].id
}

/// The yearly generator, run with any total, never lowers what was paid on an existing due,
/// never changes its status, and leaves the amount of a paid due as it was.
pub proof fn law_yearly_keeps_payments(
    dues: Seq<Due>,
    year: int,
    total: int,
    steps: Seq<YearlyStep>,
    k: int,
)
    requires
        ids_unique(dues),
        yearly_plan(dues, year, total, steps),
        0 <= k < dues.len(),
    ensures
        apply_steps(dues[k], steps).paid_amount == dues[k].paid_amount,
        apply_steps(dues[k], steps).status == dues[k].status,
        dues[k].status == DueStatus::Paid ==> apply_steps(dues[k], steps).amount == dues[k].amount,
{
    let d = dues[k];
    assert forall|i: int| 0 <= i < steps.len() implies match #[trigger] steps[i] {
        YearlyStep::SetAmount { id, amount } => id == d.id ==> d.status != DueStatus::Paid,
        _ => true,
    } by {
        assert(yearly_step_ok(dues, year, monthly_share(total), i, steps[i]));
        match steps[i] {
            YearlyStep::SetAmount { id, amount } => {
                if id == d.id {
                    let p = first_of_month(year, i + 1);
                    let j = choose|j: int|
                        is_first_with(dues, j, p) && #[trigger] dues[j].id == id && dues[j].status
                            != DueStatus::Paid;
                    assert(dues[j].id == dues[k].id);
                }
            },
            _ => {},
        }
    }
    lemma_apply_steps_keeps(d, steps);
}

/// Whether `d` is a latest period of `periods`.
pub open spec fn is_latest(periods: Seq<Date>, d: Date) -> bool {
    periods.contains(d) && forall|i: int| 0 <= i < periods.len() ==> (#[trigger] periods[i]).key() <= d.key()
}

/// What "add next due" gives after the latest period `last`: the month after it, unless that
/// is already billed or lies beyond year 9999.
pub open spec fn next_after_latest(last: Date, periods: Seq<Date>) -> Result<Date, DuesError> {
    if last.idx() >= MAX_MONTH_INDEX {
        Err(DuesError::InvalidInput)
    } else if periods.contains(month_after(last)) {
        Err(DuesError::DuplicatePeriod)
    } else {
        Ok(month_after(last))
    }
}

/// Dates with the same key are the same date.
pub proof fn lemma_key_injective(a: Date, b: Date)
    requires
        a.wf(),
        b.wf(),
        a.key() == b.key(),
    ensures
        a == b,
{
    crate::period::lemma_key_orders_months(a, b);
    crate::period::lemma_key_orders_months(b, a);
}

/// The latest of `periods`, if there is one.
pub fn latest_period(periods: &Vec<Date>) -> (r: Option<Date>)
    requires
        forall|i: int| 0 <= i < periods@.len() ==> (#[trigger] periods@[i]).wf(),
    ensures
        r is None <==> periods@.len() == 0,
        r matches Some(d) ==> is_latest(periods@, d) && d.wf(),
{
    if periods.len() == 0 {
        return None;
    }
    let mut best = periods[0];
    let mut i: usize = 1;
    while i < periods.len()
        invariant
            1 <= i <= periods@.len(),
            forall|k: int| 0 <= k < periods@.len() ==> (#[trigger] periods@[k]).wf(),
            periods@.contains(best),
            best.wf(),
            forall|k: int| 0 <= k < i ==> (#[trigger] periods@[k]).key() <= best.key(),
        decreases periods.len() - i,
    {
        if best.on_or_before(&periods[i]) {
            best = periods[i];
        }
        i += 1;
    }
    Some(best)
}

/// The period that "add next due" bills: the month after the latest of `periods`, or, where
/// the membership has none, its entry date (`NotFound` where there is no membership). A period
/// that is already billed is `DuplicatePeriod`; nothing is billed twice.
pub fn plan_next_due(periods: &Vec<Date>, entry: Option<Date>) -> (r: Result<Date, DuesError>)
    requires
        forall|i: int| 0 <= i < periods@.len() ==> (#[trigger] periods@[i]).wf(),
        entry matches Some(e) ==> e.wf(),
    ensures
        periods@.len() == 0 ==> r == match entry {
            Some(e) => Ok(e),
            None => Err::<Date, DuesError>(DuesError::NotFound),
        },
        periods@.len() > 0 ==> exists|d: Date| is_latest(periods@, d),
        forall|d: Date| #[trigger] is_latest(periods@, d) ==> r == next_after_latest(d, periods@),
        r matches Ok(p) ==> !periods@.contains(p) && p.wf(),
{
    match latest_period(periods) {
        None => match entry {
            Some(e) => Ok(e),
            None => Err(DuesError::NotFound),
        },
        Some(last) => {
            proof {
                assert forall|d: Date| #[trigger] is_latest(periods@, d) implies d == last by {
                    let i = choose|i: int| 0 <= i < periods@.len() && periods@[i] == d;
                    let k = choose|k: int| 0 <= k < periods@.len() && periods@[k] == last;
                    assert(periods@[i].key() <= last.key());
                    assert(periods@[k].key() <= d.key());
                    lemma_key_injective(d, last);
                }
            }
            if last.month_ordinal() >= MAX_MONTH_INDEX {
                return Err(DuesError::InvalidInput);
            }
            let target = next_month(&last);
            if has_period(periods, &target) {
                Err(DuesError::DuplicatePeriod)
            } else {
                Ok(target)
            }
        },
    }
}

/// The period of an extra due for `month` of `year`: that month's first day. A year outside
/// 0 to 9999 or a month outside 1 to 12 is `InvalidInput`.
pub fn extra_due_period(year: i32, month: i32) -> (r: Result<Date, DuesError>)
    ensures
        r is Ok <==> 0 <= year <= MAX_YEAR && 1 <= month <= 12,
        r matches Ok(p) ==> p == first_of_month(year as int, month as int) && p.wf(),
        r matches Err(e) ==> e == DuesError::InvalidInput,
{
    if year < 0 || year > MAX_YEAR || month < 1 || month > 12 {
        return Err(DuesError::InvalidInput);
    }
    Ok(Date { year, month: month as u32, day: 1 })
}

/// The first and last day of `year`, the inclusive range of periods that deleting a year's
/// dues removes. A year outside 0 to 9999 is `InvalidInput`.
pub fn year_bounds(year: i32) -> (r: Result<(Date, Date), DuesError>)
    ensures
        r is Ok <==> 0 <= year <= MAX_YEAR,
        r matches Ok((a, b)) ==> a == (Date { year, month: 1, day: 1 }) && b == (Date {
            year,
            month: 12,
            day: 31,
        }) && a.wf() && b.wf(),
        r matches Err(e) ==> e == DuesError::InvalidInput,
{
    if year < 0 || year > MAX_YEAR {
        return Err(DuesError::InvalidInput);
    }
    Ok((Date { year, month: 1, day: 1 }, Date { year, month: 12, day: 31 }))
}

} // verus!
