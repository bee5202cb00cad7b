use sozen_monitor::model::AvailableDay;
use sozen_monitor::notifier::{render, render_text};

fn days(ds: &[&str]) -> Vec<AvailableDay> {
    ds.iter().map(|d| AvailableDay { date: d.to_string() }).collect()
}

#[test]
fn render_lists_days_with_count() {
    let text = render(&days(&["2026-09-20", "2026-09-27"]), "https://reserva.be/x");
    assert_eq!(text, "[sozen-monitor] 予約可能日あり (2 日)\n- 2026-09-20\n- 2026-09-27\nhttps://reserva.be/x");
}

#[test]
fn render_counts_many_days() {
    let many: Vec<String> = (0..12).map(|i| format!("d{i}")).collect();
    let refs: Vec<&str> = many.iter().map(|s| s.as_str()).collect();
    let text = render(&days(&refs), "u");
    assert!(text.starts_with("[sozen-monitor] 予約可能日あり (12 日)\n- d0\n"));
    assert!(text.ends_with("- d11\nu"));
}

#[test]
fn render_text_lists_days_and_url() {
    let text = render_text(&days(&["2026-09-20"]), "https://reserva.be/x");
    assert_eq!(text, "院長担当メニューに予約可能な日があります:\n\n- 2026-09-20\n\nhttps://reserva.be/x\n");
}

#[test]
fn render_with_no_days() {
    assert_eq!(render(&[], "u"), "[sozen-monitor] 予約可能日あり (0 日)\nu");
    assert_eq!(render_text(&[], "u"), "院長担当メニューに予約可能な日があります:\n\n\nu\n");
}
