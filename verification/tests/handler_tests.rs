use sozen_monitor::availability::selectable_days;
use sozen_monitor::handler::{origin_of, CalendarMode, CollectError, MonthScan, EXTRA_MONTHS_TO_CHECK};
use sozen_monitor::model::{CalendarData, CalendarResponse, DayCell, JsonScalar};

#[test]
fn origin_of_extracts_scheme_and_host() {
    assert_eq!(
        origin_of("https://reserva.be/sugamo401/reserve?mode=x"),
        "https://reserva.be"
    );
}

#[test]
fn origin_of_without_path() {
    assert_eq!(origin_of("https://reserva.be"), "https://reserva.be");
}

#[test]
fn origin_of_without_slashes() {
    assert_eq!(origin_of("reserva.be"), "reserva.be//");
    assert_eq!(origin_of("a/b"), "a//");
    assert_eq!(origin_of(""), "//");
}

fn day(date: &str, selectable: bool, full: i64) -> Option<DayCell> {
    Some(DayCell { reserve_date: date.to_string(), is_selectable: selectable, is_full: full })
}

fn response(year: &str, month: &str, errorno: JsonScalar, enabled: JsonScalar, cells: Vec<Option<DayCell>>) -> CalendarResponse {
    CalendarResponse {
        enabled,
        status: JsonScalar::Number(Some(1)),
        errorno,
        reserve_year: year.to_string(),
        reserve_month: month.to_string(),
        data: CalendarData { weekly_calendar: vec![cells] },
    }
}

#[test]
fn scan_starts_with_server_chosen_month() {
    let scan = MonthScan::new();
    let q = scan.next_query().expect("first query");
    assert_eq!(q.year, "");
    assert_eq!(q.month, "");
    assert_eq!(q.mode, CalendarMode::Initial);
    assert_eq!(q.mode.as_str(), "");
}

#[test]
fn scan_follows_months_and_stops_after_limit() {
    let mut scan = MonthScan::new();
    let months = [("2026", "09"), ("2026", "10"), ("2026", "11")];
    for (k, (y, m)) in months.iter().enumerate() {
        let q = scan.next_query().expect("query");
        if k == 0 {
            assert_eq!(q.mode, CalendarMode::Initial);
        } else {
            assert_eq!(q.mode.as_str(), "reserve_next");
            assert_eq!(q.year, months[k - 1].0);
            assert_eq!(q.month, months[k - 1].1);
        }
        let date = format!("{y}-{m}-20");
        let rec = scan
            .record(&response(y, m, JsonScalar::Number(Some(0)), JsonScalar::Number(Some(1)), vec![None, day(&date, true, 0)]))
            .expect("recorded");
        assert_eq!(rec.found, 1);
        assert!(!rec.enabled_mismatch);
    }
    assert_eq!(months.len(), EXTRA_MONTHS_TO_CHECK + 1);
    assert!(scan.next_query().is_none());
    let days = scan.into_days();
    let dates: Vec<&str> = days.iter().map(|d| d.date.as_str()).collect();
    assert_eq!(dates, vec!["2026-09-20", "2026-10-20", "2026-11-20"]);
}

#[test]
fn scan_stops_when_month_does_not_advance() {
    let mut scan = MonthScan::new();
    scan.record(&response("2026", "09", JsonScalar::Other, JsonScalar::Text("1".to_string()), vec![])).unwrap();
    assert!(scan.next_query().is_some());
    let rec = scan
        .record(&response("2026", "09", JsonScalar::Other, JsonScalar::Number(Some(0)), vec![day("2026-09-30", true, 0)]))
        .unwrap();
    assert_eq!(rec.found, 1);
    assert!(rec.enabled_mismatch);
    assert!(scan.next_query().is_none());
    assert_eq!(scan.into_days().len(), 1);
}

#[test]
fn scan_rejects_errorno_1001() {
    let mut scan = MonthScan::new();
    let r = scan.record(&response("2026", "09", JsonScalar::Text("1001".to_string()), JsonScalar::Number(Some(1)), vec![day("2026-09-20", true, 0)]));
    assert_eq!(r, Err(CollectError::InvalidParams));
    let q = scan.next_query().expect("state unchanged");
    assert_eq!(q.mode, CalendarMode::Initial);
    assert!(scan.into_days().is_empty());
}

#[test]
fn scan_records_same_days_as_selectable_days() {
    let res = response("2026", "09", JsonScalar::Number(None), JsonScalar::Number(Some(1)),
        vec![day("2026-09-01", true, 0), day("2026-09-02", true, 1), day("2026-09-03", false, 0), day("2026-09-04", true, 0)]);
    let expected: Vec<String> = selectable_days(&res.data).into_iter().map(|d| d.date).collect();
    let mut scan = MonthScan::new();
    let rec = scan.record(&res).unwrap();
    assert_eq!(rec.found, 2);
    let got: Vec<String> = scan.into_days().into_iter().map(|d| d.date).collect();
    assert_eq!(got, expected);
    assert_eq!(got, vec!["2026-09-01".to_string(), "2026-09-04".to_string()]);
}

/// The origin written with `str::splitn`.
fn origin_by_std(url: &str) -> String {
    let mut parts = url.splitn(4, '/');
    let scheme = parts.next().unwrap_or_default();
    let _ = parts.next();
    let host = parts.next().unwrap_or_default();
    format!("{scheme}//{host}")
}

#[test]
fn origin_of_agrees_with_std_splitting() {
    let urls = [
        "", "/", "//", "///", "a", "a/", "a//b", "a//b/", "https://h/p/q", "http://h:8080/x?y=/z",
        "https:///p", "//h/p", "ftp://ホスト/パス",
    ];
    for u in urls {
        assert_eq!(origin_of(u), origin_by_std(u), "url {u:?}");
    }
}
