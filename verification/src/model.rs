//! The data the monitor reads from the reservation site and hands on.
use vstd::prelude::*;

use crate::text::{lemma_parse_signed_decimal, parse_i64, signed_decimal, spec_parse_i64};

verus! {

/// Settings of one monitor run: where to look and whom to tell.
#[derive(Debug, Clone)]
pub struct Config {
    pub target_url: String,
    pub email_from: String,
    pub email_to: String,
    pub user_agent: String,
    pub discord_webhook_url: Option<String>,
    pub slack_webhook_url: Option<String>,
    pub cf_clearance: Option<String>,
}

/// Parameters of the calendar search, read from the reservation page.
#[derive(Debug, Clone)]
pub struct ReserveParams {
    pub bus_cd: String,
    pub evt_no: String,
    pub stf_cd: String,
    pub srv_time: String,
    pub bus_reserve_flag: String,
    pub bus_interval: String,
}

/// The text of each field of [`ReserveParams`].
pub struct ReserveParamsView {
    pub bus_cd: Seq<char>,
    pub evt_no: Seq<char>,
    pub stf_cd: Seq<char>,
    pub srv_time: Seq<char>,
    pub bus_reserve_flag: Seq<char>,
    pub bus_interval: Seq<char>,
}

impl View for ReserveParams {
    type V = ReserveParamsView;

    open spec fn view(&self) -> ReserveParamsView {
        ReserveParamsView {
            bus_cd: self.bus_cd@,
            evt_no: self.evt_no@,
            stf_cd: self.stf_cd@,
            srv_time: self.srv_time@,
            bus_reserve_flag: self.bus_reserve_flag@,
            bus_interval: self.bus_interval@,
        }
    }
}

/// A field of the calendar response that the server sends either as a
/// number or as a string.
#[derive(Debug, Clone)]
pub enum JsonScalar {
    /// A JSON number, with its value when that is an `i64`.
    Number(Option<i64>),
    /// A JSON string.
    Text(String),
    /// Anything else, a missing field included.
    Other,
}

/// The integer that a [`JsonScalar`] stands for; -1 where it stands for none.
pub open spec fn spec_coerce_num(v: JsonScalar) -> int {
    match v {
        JsonScalar::Number(n) => match n {
            Some(x) => x as int,
            None => -1,
        },
        JsonScalar::Text(s) => match spec_parse_i64(s@) {
            Some(x) => x,
            None => -1,
        },
        JsonScalar::Other => -1,
    }
}

/// Reads a number that the server may send as a number or as a string;
/// -1 for anything that is no `i64`.
pub fn coerce_num(v: &JsonScalar) -> (r: i64)
    ensures
        r as int == spec_coerce_num(*v),
{
    match v {
        JsonScalar::Number(n) => match n {
            Some(x) => *x,
            None => -1,
        },
        JsonScalar::Text(s) => match parse_i64(s.as_str()) {
            Some(x) => x,
            None => -1,
        },
        JsonScalar::Other => -1,
    }
}

/// The server may send a number either as a JSON number or as its text;
/// both read as the same number.
pub proof fn law_number_text_reads_as_number(n: i64, text: String)
    requires
        text@ == signed_decimal(n as int),
    ensures
        spec_coerce_num(JsonScalar::Text(text)) == spec_coerce_num(JsonScalar::Number(Some(n))),
        spec_coerce_num(JsonScalar::Number(Some(n))) == n,
{
    lemma_parse_signed_decimal(n);
}

/// One day cell of the calendar.
#[derive(Debug, Clone)]
pub struct DayCell {
    pub reserve_date: String,
    pub is_selectable: bool,
    pub is_full: i64,
}

/// The calendar of one month: one entry per week, one cell per weekday.
/// A cell is `None` where it is no day (the padding before the first
/// and after the last day of the month).
#[derive(Debug, Clone)]
pub struct CalendarData {
    pub weekly_calendar: Vec<Vec<Option<DayCell>>>,
}

/// The answer of the calendar search.
#[derive(Debug, Clone)]
pub struct CalendarResponse {
    pub enabled: JsonScalar,
    pub status: JsonScalar,
    pub errorno: JsonScalar,
    pub reserve_year: String,
    pub reserve_month: String,
    pub data: CalendarData,
}

impl CalendarResponse {
    pub fn enabled_num(&self) -> (r: i64)
        ensures
            r as int == spec_coerce_num(self.enabled),
    {
        coerce_num(&self.enabled)
    }

    pub fn status_num(&self) -> (r: i64)
        ensures
            r as int == spec_coerce_num(self.status),
    {
        coerce_num(&self.status)
    }

    pub fn errorno_num(&self) -> (r: i64)
        ensures
            r as int == spec_coerce_num(self.errorno),
    {
        coerce_num(&self.errorno)
    }
}

/// A day with a free slot.
#[derive(Debug, Clone)]
pub struct AvailableDay {
    pub date: String,
}

/// The dates of `days`, in order.
pub open spec fn dates_of(days: Seq<AvailableDay>) -> Seq<Seq<char>> {
    days.map_values(|d: AvailableDay| d.date@)
}

} // verus!
