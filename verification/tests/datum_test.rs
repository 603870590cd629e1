use zrapport::datum::{minus_dagar_exec, Datum};
use zrapport::easycashier::{lookback_start, DateRequest};

fn d(ar: u32, manad: u8, dag: u8) -> Datum {
    Datum { ar, manad, dag }
}

#[test]
fn minus_dagar_steps_within_a_month() {
    assert_eq!(minus_dagar_exec(&d(2024, 3, 20), 14), Some(d(2024, 3, 6)));
    assert_eq!(minus_dagar_exec(&d(2024, 3, 20), 0), Some(d(2024, 3, 20)));
}

#[test]
fn minus_dagar_crosses_month_and_leap_day() {
    assert_eq!(minus_dagar_exec(&d(2024, 3, 1), 14), Some(d(2024, 2, 16)));
    assert_eq!(minus_dagar_exec(&d(2023, 3, 1), 14), Some(d(2023, 2, 15)));
    assert_eq!(minus_dagar_exec(&d(1900, 3, 1), 14), Some(d(1900, 2, 15)));
    assert_eq!(minus_dagar_exec(&d(2000, 3, 1), 14), Some(d(2000, 2, 16)));
}

#[test]
fn minus_dagar_crosses_year() {
    assert_eq!(minus_dagar_exec(&d(2024, 1, 7), 14), Some(d(2023, 12, 24)));
}

#[test]
fn minus_dagar_stops_before_year_one() {
    assert_eq!(minus_dagar_exec(&d(1, 1, 7), 14), None);
}

#[test]
fn lookback_is_fourteen_days() {
    assert_eq!(lookback_start(&d(2024, 3, 20)), Some(d(2024, 3, 6)));
}

#[test]
fn resolver_uses_both_given_dates_as_is() {
    let idag = d(2024, 3, 7);
    let r = DateRequest::new(&Some(d(2024, 3, 1)), &Some(d(2024, 3, 5)), &idag);
    assert_eq!(r.start_date, d(2024, 3, 1));
    assert_eq!(r.end_date, d(2024, 3, 5));
    assert_eq!(r.date_type, "interval");
}

#[test]
fn resolver_ends_a_lone_start_today() {
    let idag = d(2024, 3, 7);
    let r = DateRequest::new(&Some(d(2024, 3, 1)), &None, &idag);
    assert_eq!(r.start_date, d(2024, 3, 1));
    assert_eq!(r.end_date, idag);
    assert_eq!(r.date_type, "interval");
}

#[test]
fn resolver_handles_a_lone_end_by_its_position_to_today() {
    let idag = d(2024, 3, 7);
    let framtid = DateRequest::new(&None, &Some(d(2024, 3, 20)), &idag);
    assert_eq!(framtid.start_date, idag);
    assert_eq!(framtid.end_date, d(2024, 3, 20));
    assert_eq!(framtid.date_type, "interval");
    let fortid = DateRequest::new(&None, &Some(d(2024, 3, 1)), &idag);
    assert_eq!(fortid.start_date, d(2024, 3, 1));
    assert_eq!(fortid.end_date, d(2024, 3, 1));
    assert_eq!(fortid.date_type, "date");
}

#[test]
fn resolver_defaults_to_today() {
    let idag = d(2024, 3, 7);
    let r = DateRequest::new(&None, &None, &idag);
    assert_eq!(r.start_date, idag);
    assert_eq!(r.end_date, idag);
    assert_eq!(r.date_type, "today");
}

#[test]
fn selection_type_today_needs_todays_single_day() {
    let idag = d(2024, 3, 7);
    let r = DateRequest::new(&Some(idag), &Some(idag), &idag);
    assert_eq!(r.date_type, "today");
    let r = DateRequest::new(&Some(d(2024, 3, 1)), &Some(d(2024, 3, 1)), &idag);
    assert_eq!(r.date_type, "date");
}
