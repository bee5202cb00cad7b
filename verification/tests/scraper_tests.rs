use sozen_monitor::model::ReserveParams;
use sozen_monitor::page::{
    ajax_search_url, calendar_form_body, hidden_input_value, parse_reserve_params, session_value,
    ReserveField, ScrapeError, ScrapeErrorKind,
};

const RESERVE_PAGE: &str = r#"<!DOCTYPE html>
<html lang="ja">
<head>
<meta charset="utf-8">
<title>予約</title>
<script>
var ReserveSession = {
  'bus_reserve_flag': '3',
  'bus_interval': '15',
  'is_front': 'true'
};
</script>
</head>
<body>
<form id="reserve_form" method="post">
  <input type="hidden" name="reserve_bus_cd" id="reserve_bus_cd" value="277">
  <input type="hidden" name="reserve_evt_no" id="reserve_evt_no" value="739">
  <input type="hidden" name="reserve_stf_cd" id="reserve_stf_cd" value="">
  <input type="hidden" name="reserve_srv_time" id="reserve_srv_time" value="15">
</form>
</body>
</html>
"#;

#[test]
fn parses_reserve_params_from_fixture() {
    let html = RESERVE_PAGE;
    let p = parse_reserve_params(html).expect("should parse");
    assert_eq!(p.bus_cd, "277");
    assert_eq!(p.evt_no, "739");
    assert_eq!(p.stf_cd, "");
    assert_eq!(p.srv_time, "15");
    assert_eq!(p.bus_reserve_flag, "3");
    assert_eq!(p.bus_interval, "15");
}

#[test]
fn hidden_input_value_reads_first_match() {
    let html = r#"<p><input id="x" value="first"><input id="x" value="second"></p>"#;
    assert_eq!(hidden_input_value(html, "x"), Ok("first".to_string()));
    assert_eq!(hidden_input_value(html, "y"), Err(ScrapeErrorKind::HiddenInputNotFound));
}

#[test]
fn hidden_input_without_value_is_not_found() {
    let html = r#"<input id="x">"#;
    assert_eq!(hidden_input_value(html, "x"), Err(ScrapeErrorKind::HiddenInputNotFound));
}

#[test]
fn hidden_input_with_bad_id_is_invalid_selector() {
    assert_eq!(hidden_input_value("<input id=\"a\" value=\"1\">", ""), Err(ScrapeErrorKind::InvalidSelector));
}

#[test]
fn session_value_reads_after_key() {
    let html = "a\r\n  'k': 'v1',\r\n'k': 'v2'\n";
    assert_eq!(session_value(html, "k"), Ok("v1".to_string()));
}

#[test]
fn session_value_takes_third_quote_of_line() {
    // The value is the text between the third and fourth quotes of the line,
    // wherever the key stands on it.
    let html = "x = 'a', 'k': 'b'\n";
    assert_eq!(session_value(html, "k"), Ok("k".to_string()));
}

#[test]
fn session_value_to_end_of_line() {
    assert_eq!(session_value("'k': 'open", "k"), Ok("open".to_string()));
    assert_eq!(session_value("'k': 'open\r\nnext", "k"), Ok("open".to_string()));
    assert_eq!(session_value("'k': 'open\r", "k"), Ok("open\r".to_string()));
}

#[test]
fn session_value_errors() {
    assert_eq!(session_value("no key here\n", "k"), Err(ScrapeErrorKind::SessionKeyNotFound));
    assert_eq!(session_value("'k' = 1\n", "k"), Err(ScrapeErrorKind::NoSessionValue));
    assert_eq!(session_value("'k\n'\n", "k"), Err(ScrapeErrorKind::SessionKeyNotFound));
}

#[test]
fn parse_reserve_params_reports_first_missing_field() {
    let html = RESERVE_PAGE.replace("id=\"reserve_evt_no\"", "id=\"other\"");
    assert_eq!(
        parse_reserve_params(&html).map(|_| ()),
        Err(ScrapeError { field: ReserveField::EvtNo, kind: ScrapeErrorKind::HiddenInputNotFound })
    );
    let html = RESERVE_PAGE.replace("'bus_interval'", "'interval'");
    assert_eq!(
        parse_reserve_params(&html).map(|_| ()),
        Err(ScrapeError { field: ReserveField::BusInterval, kind: ScrapeErrorKind::SessionKeyNotFound })
    );
}

#[test]
fn field_names() {
    assert_eq!(ReserveField::BusCd.name(), "reserve_bus_cd");
    assert_eq!(ReserveField::BusInterval.name(), "bus_interval");
}

fn params() -> ReserveParams {
    ReserveParams {
        bus_cd: "277".to_string(),
        evt_no: "739".to_string(),
        stf_cd: "".to_string(),
        srv_time: "15".to_string(),
        bus_reserve_flag: "3".to_string(),
        bus_interval: "15".to_string(),
    }
}

#[test]
fn calendar_form_body_first_month() {
    assert_eq!(
        calendar_form_body(&params(), "", "", ""),
        "cmd=divmenu3_calendar&mode=&reserve_bus_cd=277&reserve_year=&reserve_month=&reserve_date=01&reserve_evt_no=739&reserve_stf_cd=&bus_reserve_flag=3&rsd_group_people=1&reserve_srv_time=15&bus_interval=15&is_front=true"
    );
}

#[test]
fn calendar_form_body_next_month() {
    assert_eq!(
        calendar_form_body(&params(), "2026", "09", "reserve_next"),
        "cmd=divmenu3_calendar&mode=reserve_next&reserve_bus_cd=277&reserve_year=2026&reserve_month=09&reserve_date=20260901&reserve_evt_no=739&reserve_stf_cd=&bus_reserve_flag=3&rsd_group_people=1&reserve_srv_time=15&bus_interval=15&is_front=true"
    );
}

#[test]
fn ajax_search_url_appends_path() {
    assert_eq!(ajax_search_url("https://reserva.be"), "https://reserva.be/AjaxSearch");
}

/// The session lookup written with `str::lines` and `str::split`.
fn session_by_std(html: &str, key: &str) -> Option<String> {
    let marker = format!("'{key}'");
    let line = html.lines().find(|l| l.contains(&marker))?;
    let after_key = line.splitn(3, '\'').nth(2)?;
    after_key.split('\'').nth(1).map(|v| v.to_string())
}

#[test]
fn session_value_agrees_with_std_splitting() {
    let pages = [
        "",
        "\n",
        "'k'",
        "'k'\n",
        "'k''",
        "'k': 'v'",
        "a\n'k': 'v'\r\n",
        "a\r\n'k': 'v\r\n",
        "'k': 'v\r",
        "'k': 'v\r\r\n",
        "x 'k' y 'z' 'w'",
        "'j': '1'\n'k': '2'\n'k': '3'",
        "  'kk': '1',\n  'k': '2',",
        "\r\n\r\n'k':'é'\n",
        "'k'\n'k': 'late'",
    ];
    for html in pages {
        let ours = session_value(html, "k").ok();
        assert_eq!(ours, session_by_std(html, "k"), "page {html:?}");
    }
}
