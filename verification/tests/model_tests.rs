use sozen_monitor::model::{coerce_num, CalendarData, CalendarResponse, DayCell, JsonScalar};
use sozen_monitor::text::parse_i64;

#[test]
fn parses_calendar_response_fixture() {
    // The calendar answer for a closed month: enabled 0, year 2026, month 09.
    let res = CalendarResponse {
        enabled: JsonScalar::Number(Some(0)),
        status: JsonScalar::Text("1".to_string()),
        errorno: JsonScalar::Other,
        reserve_year: "2026".to_string(),
        reserve_month: "09".to_string(),
        data: CalendarData {
            weekly_calendar: vec![vec![None, Some(DayCell { reserve_date: "2026-09-01".to_string(), is_selectable: false, is_full: 0 })]],
        },
    };
    assert_eq!(res.enabled_num(), 0);
    assert_eq!(res.status_num(), 1);
    assert_eq!(res.errorno_num(), -1);
    assert_eq!(res.reserve_year, "2026");
    assert_eq!(res.reserve_month, "09");
    assert!(!res.data.weekly_calendar.is_empty());
}

#[test]
fn coerce_num_reads_numbers_and_text() {
    assert_eq!(coerce_num(&JsonScalar::Number(Some(1001))), 1001);
    assert_eq!(coerce_num(&JsonScalar::Number(None)), -1);
    assert_eq!(coerce_num(&JsonScalar::Text("1001".to_string())), 1001);
    assert_eq!(coerce_num(&JsonScalar::Text("".to_string())), -1);
    assert_eq!(coerce_num(&JsonScalar::Text("1.5".to_string())), -1);
    assert_eq!(coerce_num(&JsonScalar::Other), -1);
}

#[test]
fn number_and_its_text_agree() {
    for n in [0i64, 1, 7, 42, 1001, -1, -1001, i64::MAX, i64::MIN] {
        assert_eq!(coerce_num(&JsonScalar::Text(n.to_string())), coerce_num(&JsonScalar::Number(Some(n))));
    }
}

#[test]
fn parse_i64_matches_std() {
    let cases = [
        "", "+", "-", "0", "-0", "+12", "0012", "12a", " 1", "1 ", "9223372036854775807",
        "9223372036854775808", "-9223372036854775808", "-9223372036854775809",
        "99999999999999999999999", "１", "--1", "+-1",
    ];
    for s in cases {
        assert_eq!(parse_i64(s), s.parse::<i64>().ok(), "input {s:?}");
    }
}
