use coop_dues::date::{days_in_month_of, next_month, parse_date, Date};
use coop_dues::dues::{
    extra_due_period, latest_period, monthly_share_of, plan_next_due, plan_yearly_dues,
    record_payment, status_of, year_bounds, Due, DueStatus, YearlyStep,
};
use coop_dues::error::DuesError;
use coop_dues::period::{has_period, plan_generate_dues};

fn d(year: i32, month: u32, day: u32) -> Date {
    Date::from_ymd(year, month, day).unwrap()
}

#[test]
fn generation_from_mid_november_through_february() {
    let periods = plan_generate_dues(&d(2024, 11, 15), &d(2025, 2, 20), &Vec::new());
    assert_eq!(
        periods,
        vec![d(2024, 11, 15), d(2024, 12, 15), d(2025, 1, 15), d(2025, 2, 15)]
    );
    for (i, p) in periods.iter().enumerate() {
        let due = Due::unpaid(i as i64 + 1, 7, *p, 10000);
        assert_eq!(due.amount, 10000);
        assert_eq!(due.paid_amount, 0);
        assert_eq!(due.status, DueStatus::Unpaid);
        assert_eq!(due.status.as_text(), "unpaid");
    }
}

#[test]
fn generation_stops_before_the_day_of_the_last_month() {
    let periods = plan_generate_dues(&d(2024, 11, 15), &d(2025, 2, 14), &Vec::new());
    assert_eq!(periods, vec![d(2024, 11, 15), d(2024, 12, 15), d(2025, 1, 15)]);
}

#[test]
fn generation_with_entry_after_today_bills_nothing() {
    assert!(plan_generate_dues(&d(2025, 3, 1), &d(2025, 2, 20), &Vec::new()).is_empty());
}

#[test]
fn generation_skips_existing_periods() {
    let existing = vec![d(2024, 12, 15), d(2025, 2, 1)];
    let periods = plan_generate_dues(&d(2024, 11, 15), &d(2025, 2, 20), &existing);
    assert_eq!(periods, vec![d(2024, 11, 15), d(2025, 1, 15), d(2025, 2, 15)]);
}

#[test]
fn repeated_generation_calls_leave_each_month_once() {
    let entry = d(2024, 11, 15);
    let mut all = plan_generate_dues(&entry, &d(2025, 1, 3), &Vec::new());
    let again = plan_generate_dues(&entry, &d(2025, 1, 3), &all);
    assert!(again.is_empty());
    let later = plan_generate_dues(&entry, &d(2025, 3, 31), &all);
    assert_eq!(later, vec![d(2025, 1, 15), d(2025, 2, 15), d(2025, 3, 15)]);
    all.extend(later);
    assert_eq!(
        all,
        vec![d(2024, 11, 15), d(2024, 12, 15), d(2025, 1, 15), d(2025, 2, 15), d(2025, 3, 15)]
    );
}

#[test]
fn generation_clamps_to_short_months() {
    let periods = plan_generate_dues(&d(2024, 1, 31), &d(2024, 4, 30), &Vec::new());
    assert_eq!(periods, vec![d(2024, 1, 31), d(2024, 2, 29), d(2024, 3, 31), d(2024, 4, 30)]);
}

#[test]
fn next_month_rolls_december_into_january() {
    assert_eq!(next_month(&d(2024, 12, 15)), d(2025, 1, 15));
    assert_eq!(next_month(&d(2024, 12, 31)), d(2025, 1, 31));
    assert_eq!(next_month(&d(2025, 6, 30)), d(2025, 7, 30));
}

#[test]
fn next_month_clamps_a_missing_day() {
    assert_eq!(next_month(&d(2025, 1, 31)), d(2025, 2, 28));
    assert_eq!(next_month(&d(2024, 1, 31)), d(2024, 2, 29));
    assert_eq!(next_month(&d(2025, 3, 31)), d(2025, 4, 30));
}

#[test]
fn days_in_month_follows_the_gregorian_leap_rule() {
    assert_eq!(days_in_month_of(2024, 2), 29);
    assert_eq!(days_in_month_of(1900, 2), 28);
    assert_eq!(days_in_month_of(2000, 2), 29);
    assert_eq!(days_in_month_of(2025, 11), 30);
}

fn due(id: i64, period: Date, amount: u64, paid: u64, status: DueStatus) -> Due {
    Due { id, coop_member_id: 1, period, amount, paid_amount: paid, status, payment_date: None }
}

#[test]
fn two_half_payments_settle_a_due() {
    let mut x = Due::unpaid(1, 1, d(2025, 1, 1), 30000);
    assert_eq!(record_payment(&mut x, 15000, "2025-01-10".to_string()), Ok(()));
    assert_eq!(x.status, DueStatus::Partial);
    assert_eq!(x.paid_amount, 15000);
    assert_eq!(x.payment_date, Some("2025-01-10".to_string()));
    assert_eq!(record_payment(&mut x, 15000, "2025-02-10".to_string()), Ok(()));
    assert_eq!(x.status, DueStatus::Paid);
    assert_eq!(x.paid_amount, 30000);
    assert_eq!(x.payment_date, Some("2025-02-10".to_string()));
    assert_eq!(x.amount, 30000);
}

#[test]
fn payment_status_boundaries() {
    assert_eq!(status_of(30000, 30000), DueStatus::Paid);
    assert_eq!(status_of(30000, 30001), DueStatus::Paid);
    assert_eq!(status_of(30000, 29999), DueStatus::Partial);
    assert_eq!(status_of(30000, 0), DueStatus::Unpaid);
    let mut x = Due::unpaid(1, 1, d(2025, 1, 1), 30000);
    assert_eq!(record_payment(&mut x, 0, "2025-01-10".to_string()), Ok(()));
    assert_eq!(x.status, DueStatus::Unpaid);
    assert_eq!(record_payment(&mut x, 30000, "2025-01-11".to_string()), Ok(()));
    assert_eq!(x.status, DueStatus::Paid);
    assert_eq!(x.status.as_text(), "paid");
}

#[test]
fn overpayment_accumulates() {
    let mut x = due(1, d(2025, 1, 1), 10000, 8000, DueStatus::Partial);
    assert_eq!(record_payment(&mut x, 5000, "2025-03-01".to_string()), Ok(()));
    assert_eq!(x.paid_amount, 13000);
    assert_eq!(x.status, DueStatus::Paid);
}

#[test]
fn payment_overflow_is_invalid_input() {
    let mut x = due(1, d(2025, 1, 1), 10, u64::MAX - 1, DueStatus::Paid);
    assert_eq!(record_payment(&mut x, 2, "2025-03-01".to_string()), Err(DuesError::InvalidInput));
    assert_eq!(x.paid_amount, u64::MAX - 1);
    assert_eq!(x.payment_date, None);
}

#[test]
fn yearly_generation_for_twelve_hundred() {
    let steps = plan_yearly_dues(2025, 120000, &Vec::new()).unwrap();
    assert_eq!(steps.len(), 12);
    for (i, s) in steps.iter().enumerate() {
        assert_eq!(*s, YearlyStep::Insert { period: d(2025, i as u32 + 1, 1), amount: 10000 });
    }
}

#[test]
fn yearly_generation_keeps_paid_dues() {
    let existing = vec![
        due(10, d(2025, 1, 1), 10000, 10000, DueStatus::Paid),
        due(11, d(2025, 2, 1), 10000, 4000, DueStatus::Partial),
        due(12, d(2025, 2, 1), 5000, 0, DueStatus::Unpaid),
        due(13, d(2025, 3, 15), 10000, 0, DueStatus::Unpaid),
    ];
    let steps = plan_yearly_dues(2025, 240000, &existing).unwrap();
    assert_eq!(steps[0], YearlyStep::KeepPaid { id: 10 });
    assert_eq!(steps[1], YearlyStep::SetAmount { id: 11, amount: 20000 });
    assert_eq!(steps[2], YearlyStep::Insert { period: d(2025, 3, 1), amount: 20000 });
    for s in steps.iter() {
        assert_ne!(*s, YearlyStep::SetAmount { id: 10, amount: 20000 });
    }
}

#[test]
fn yearly_share_rounds_half_up() {
    assert_eq!(monthly_share_of(120000), 10000);
    assert_eq!(monthly_share_of(1000), 83);
    assert_eq!(monthly_share_of(1002), 84);
    assert_eq!(monthly_share_of(0), 0);
    assert_eq!(monthly_share_of(u64::MAX), u64::MAX / 12);
    assert_eq!(monthly_share_of(u64::MAX - 9), (u64::MAX - 9) / 12 + 1);
}

#[test]
fn yearly_generation_rejects_a_bad_year() {
    assert_eq!(plan_yearly_dues(-1, 1200, &Vec::new()), Err(DuesError::InvalidInput));
    assert_eq!(plan_yearly_dues(10000, 1200, &Vec::new()), Err(DuesError::InvalidInput));
}

#[test]
fn next_due_follows_the_latest_period() {
    let periods = vec![d(2024, 11, 15), d(2025, 1, 15), d(2024, 12, 15)];
    assert_eq!(latest_period(&periods), Some(d(2025, 1, 15)));
    assert_eq!(plan_next_due(&periods, Some(d(2024, 11, 15))), Ok(d(2025, 2, 15)));
    let december = vec![d(2024, 12, 15)];
    assert_eq!(plan_next_due(&december, None), Ok(d(2025, 1, 15)));
}

#[test]
fn next_due_without_dues_uses_the_entry_date() {
    assert_eq!(plan_next_due(&Vec::new(), Some(d(2024, 11, 15))), Ok(d(2024, 11, 15)));
    assert_eq!(plan_next_due(&Vec::new(), None), Err(DuesError::NotFound));
}

#[test]
fn next_due_beyond_the_last_year_is_invalid() {
    assert_eq!(plan_next_due(&vec![d(9999, 12, 1)], None), Err(DuesError::InvalidInput));
}

#[test]
fn parse_reads_a_date() {
    assert_eq!(parse_date("2024-11-15"), Ok(d(2024, 11, 15)));
    assert_eq!(parse_date("2024-02-29"), Ok(d(2024, 2, 29)));
}

#[test]
fn parse_rejects_what_is_not_a_date() {
    assert_eq!(parse_date("2025-02-29"), Err(DuesError::InvalidInput));
    assert_eq!(parse_date("15.11.2024"), Err(DuesError::InvalidInput));
    assert_eq!(parse_date(""), Err(DuesError::InvalidInput));
    assert_eq!(parse_date("10000-01-01"), Err(DuesError::InvalidInput));
}

#[test]
fn from_ymd_checks_the_calendar() {
    assert_eq!(Date::from_ymd(2025, 4, 31), Err(DuesError::InvalidInput));
    assert_eq!(Date::from_ymd(2025, 13, 1), Err(DuesError::InvalidInput));
    assert_eq!(Date::from_ymd(-5, 1, 1), Err(DuesError::InvalidInput));
    assert!(d(2025, 1, 1).on_or_before(&d(2025, 1, 2)));
    assert!(!d(2025, 2, 1).on_or_before(&d(2025, 1, 31)));
}

#[test]
fn extra_due_is_on_the_first_of_the_month() {
    assert_eq!(extra_due_period(2025, 3), Ok(d(2025, 3, 1)));
    assert_eq!(extra_due_period(2025, 0), Err(DuesError::InvalidInput));
    assert_eq!(extra_due_period(2025, 13), Err(DuesError::InvalidInput));
}

#[test]
fn year_bounds_cover_the_whole_year() {
    assert_eq!(year_bounds(2025), Ok((d(2025, 1, 1), d(2025, 12, 31))));
    assert_eq!(year_bounds(-3), Err(DuesError::InvalidInput));
}

#[test]
fn has_period_finds_equal_dates() {
    let v = vec![d(2025, 1, 15), d(2025, 2, 15)];
    assert!(has_period(&v, &d(2025, 2, 15)));
    assert!(!has_period(&v, &d(2025, 2, 1)));
}

#[test]
fn error_messages_are_distinct() {
    assert_ne!(DuesError::NotFound.message(), DuesError::DuplicatePeriod.message());
    assert_ne!(DuesError::InvalidInput.message(), DuesError::StoreFailure.message());
}

#[test]
fn today_is_a_valid_date() {
    let t = coop_dues::date::today().unwrap();
    assert!(Date::from_ymd(t.year, t.month, t.day).is_ok());
}
