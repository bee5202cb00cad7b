use sozen_monitor::availability::selectable_days;
use sozen_monitor::model::{CalendarData, DayCell};

fn day(date: &str, selectable: bool, full: i64) -> Option<DayCell> {
    Some(DayCell { reserve_date: date.to_string(), is_selectable: selectable, is_full: full })
}

#[test]
fn no_selectable_days_in_closed_month() {
    // A month that takes no reservations: padding cells and days that
    // cannot be selected.
    let data = CalendarData {
        weekly_calendar: vec![
            vec![None, None, day("2026-09-01", false, 0), day("2026-09-02", false, 0), day("2026-09-03", false, 1), day("2026-09-04", false, 0), day("2026-09-05", false, 0)],
            vec![day("2026-09-27", false, 0), day("2026-09-28", false, 0), day("2026-09-29", false, 0), day("2026-09-30", false, 0), None, None, None],
        ],
    };
    assert!(selectable_days(&data).is_empty());
}

#[test]
fn detects_selectable_day() {
    // weeklyCalendar: [[ [], {2026-09-20, selectable, 0}, {2026-09-21, selectable, 1}, {2026-09-22, not selectable, 0} ]]
    let data = CalendarData {
        weekly_calendar: vec![vec![
            None,
            day("2026-09-20", true, 0),
            day("2026-09-21", true, 1),
            day("2026-09-22", false, 0),
        ]],
    };
    let days = selectable_days(&data);
    assert_eq!(days.len(), 1);
    assert_eq!(days[0].date, "2026-09-20");
}

#[test]
fn selectable_days_keep_calendar_order() {
    let data = CalendarData {
        weekly_calendar: vec![
            vec![day("a", true, 0), day("b", true, 0)],
            vec![],
            vec![day("c", true, 2), day("d", true, 0)],
        ],
    };
    let dates: Vec<String> = selectable_days(&data).into_iter().map(|d| d.date).collect();
    assert_eq!(dates, vec!["a", "b", "d"]);
}

#[test]
fn empty_calendar_has_no_days() {
    assert!(selectable_days(&CalendarData { weekly_calendar: vec![] }).is_empty());
}
