//! One monitor run: where the site lives, and the month-by-month scan of
//! its calendar.
use vstd::prelude::*;

use crate::availability::{calendar_dates, selectable_days};
use crate::model::{dates_of, spec_coerce_num, AvailableDay, CalendarResponse};
use crate::text::{after_nth, after_nth_pos, chars_of, find_from, lemma_first_index_bounds,
    string_of_range, take_until};

verus! {

// ---------------------------------------------------------------------------
// The site's origin
// ---------------------------------------------------------------------------

/// `scheme://host` of a URL `scheme://host/path`: the text before the first
/// `/`, then `//`, then the text between the second and the third `/` (or
/// the end); the host is empty when the URL has fewer than two `/`.
pub open spec fn spec_origin_of(url: Seq<char>) -> Seq<char> {
    let host = match after_nth(url, '/', 2) {
        Some(rest) => take_until(rest, '/'),
        None => Seq::empty(),
    };
    take_until(url, '/') + "//"@ + host
}

/// The text of `v` from `start` up to the next `c` (or the end).
fn segment_from(v: &Vec<char>, start: usize, c: char) -> (r: String)
    requires
        start <= v.len(),
    ensures
        r@ == take_until(v@.skip(start as int), c),
{
    let end = match find_from(v, start, c) {
        Some(e) => e,
        None => v.len(),
    };
    proof {
        lemma_first_index_bounds(v@.skip(start as int), c);
        assert(v@.skip(start as int).take(end - start) == v@.subrange(start as int, end as int));
        assert(v@.skip(start as int) == v@.subrange(start as int, v.len() as int));
    }
    string_of_range(v, start, end)
}

/// The origin (`scheme://host`) of a URL.
pub fn origin_of(url: &str) -> (r: String)
    ensures
        r@ == spec_origin_of(url@),
{
    let v = chars_of(url);
    assert(v@.skip(0) == v@);
    let mut r = segment_from(&v, 0, '/');
    r.append("//");
    match after_nth_pos(&v, '/', 2) {
        Some(p) => {
            let host = segment_from(&v, p, '/');
            r.append(host.as_str());
        },
        None => {},
    }
    r
}

// ---------------------------------------------------------------------------
// The month-by-month scan
// ---------------------------------------------------------------------------

/// How many months after the first one the scan looks at.
pub const EXTRA_MONTHS_TO_CHECK: usize = 2;

/// The value of `errorno` with which the server refuses the search
/// parameters.
pub const ERRORNO_INVALID_PARAMS: i64 = 1001;

/// Which month a calendar search asks for.
#[derive(Debug, Clone, Copy, PartialEq, Eq, Structural)]
pub enum CalendarMode {
    /// The first month that takes reservations (year and month left empty).
    Initial,
    /// The month after the year and month given.
    ReserveNext,
}

/// The `mode` text of the search form.
pub open spec fn mode_text(m: CalendarMode) -> Seq<char> {
    match m {
        CalendarMode::Initial => ""@,
        CalendarMode::ReserveNext => "reserve_next"@,
    }
}

impl CalendarMode {
    /// The `mode` text of the search form.
    pub fn as_str(&self) -> (r: &'static str)
        ensures
            r@ == mode_text(*self),
    {
        match self {
            CalendarMode::Initial => "",
            CalendarMode::ReserveNext => "reserve_next",
        }
    }
}

/// One calendar search to make.
#[derive(Debug, Clone)]
pub struct CalendarQuery {
    pub year: String,
    pub month: String,
    pub mode: CalendarMode,
}

/// Why a scan stopped with an error.
#[derive(Debug, Clone, Copy, PartialEq, Eq, Structural)]
pub enum CollectError {
    /// The server answered `errorno` 1001: it refused the search parameters.
    InvalidParams,
}

/// What recording one month found.
#[derive(Debug, Clone, Copy, PartialEq, Eq, Structural)]
pub struct MonthRecord {
    /// How many bookable days the month has.
    pub found: usize,
    /// The month has bookable days although the server does not report it
    /// as enabled (`enabled` is not 1).
    pub enabled_mismatch: bool,
}

/// The state of a scan over the months of the calendar.
pub struct MonthScan {
    days: Vec<AvailableDay>,
    year: String,
    month: String,
    mode: CalendarMode,
    fetched: usize,
    finished: bool,
}

/// The abstract state of a scan.
pub struct MonthScanView {
    /// Dates of the bookable days found so far, in the order of the months.
    pub days: Seq<Seq<char>>,
    /// Year and month of the next search.
    pub year: Seq<char>,
    pub month: Seq<char>,
    pub mode: CalendarMode,
    /// How many months were recorded.
    pub fetched: nat,
    /// No further search is to be made.
    pub finished: bool,
}

impl View for MonthScan {
    type V = MonthScanView;

    closed spec fn view(&self) -> MonthScanView {
        MonthScanView {
            days: dates_of(self.days@),
            year: self.year@,
            month: self.month@,
            mode: self.mode,
            fetched: self.fetched as nat,
            finished: self.finished,
        }
    }
}

impl MonthScan {
    /// The scan searches at most `1 + EXTRA_MONTHS_TO_CHECK` months and is
    /// finished once it has.
    pub open spec fn wf(&self) -> bool {
        &&& self@.fetched <= EXTRA_MONTHS_TO_CHECK + 1
        &&& self@.fetched == EXTRA_MONTHS_TO_CHECK + 1 ==> self@.finished
    }

    /// A scan that can still search has searched fewer than
    /// `1 + EXTRA_MONTHS_TO_CHECK` months, so at most that many are searched.
    pub proof fn law_scan_is_bounded(&self)
        requires
            self.wf(),
        ensures
            !self@.finished ==> self@.fetched < EXTRA_MONTHS_TO_CHECK + 1,
            self@.fetched <= EXTRA_MONTHS_TO_CHECK + 1,
    {
    }

    /// A scan that has searched nothing yet and first asks for the month
    /// that the server picks.
    pub fn new() -> (s: MonthScan)
        ensures
            s.wf(),
            s@.days == Seq::<Seq<char>>::empty(),
            s@.year == Seq::<char>::empty(),
            s@.month == Seq::<char>::empty(),
            s@.mode == CalendarMode::Initial,
            s@.fetched == 0,
            !s@.finished,
    {
        let s = MonthScan {
            days: Vec::new(),
            year: String::new(),
            month: String::new(),
            mode: CalendarMode::Initial,
            fetched: 0,
            finished: false,
        };
        assert(dates_of(s.days@) == Seq::<Seq<char>>::empty());
        s
    }

    /// The next search to make, or `None` when the scan is over.
    pub fn next_query(&self) -> (r: Option<CalendarQuery>)
        ensures
            r is Some <==> !self@.finished,
            r matches Some(q) ==> q.year@ == self@.year && q.month@ == self@.month && q.mode
                == self@.mode,
    {
        if self.finished {
            None
        } else {
            Some(CalendarQuery { year: self.year.clone(), month: self.month.clone(), mode: self.mode })
        }
    }

    /// Takes in the server's answer to the last search. An answer with
    /// `errorno` 1001 stops the scan with an error. Otherwise the month's
    /// bookable days are added; the next search asks for the month after
    /// the one the server sent, and the scan is over when the server sent
    /// the month it was asked for again (it has no later month) or when
    /// `1 + EXTRA_MONTHS_TO_CHECK` months have been searched.
    pub fn record(&mut self, res: &CalendarResponse) -> (r: Result<MonthRecord, CollectError>)
        requires
            old(self).wf(),
            !old(self)@.finished,
        ensures
            final(self).wf(),
            spec_coerce_num(res.errorno) == ERRORNO_INVALID_PARAMS ==> r == Err::<
                MonthRecord,
                CollectError,
            >(CollectError::InvalidParams) && final(self)@ == old(self)@,
            spec_coerce_num(res.errorno) != ERRORNO_INVALID_PARAMS ==> {
                let found = calendar_dates(res.data.weekly_calendar@);
                let same_month = res.reserve_year@ == old(self)@.year && res.reserve_month@ == old(
                    self,
                )@.month;
                &&& r is Ok
                &&& r->Ok_0.found == found.len()
                &&& r->Ok_0.enabled_mismatch == (found.len() > 0 && spec_coerce_num(res.enabled)
                    != 1)
                &&& final(self)@.days == old(self)@.days + found
                &&& final(self)@.fetched == old(self)@.fetched + 1
                &&& final(self)@.finished == (same_month || old(self)@.fetched + 1
                    == EXTRA_MONTHS_TO_CHECK + 1)
                &&& !same_month ==> {
                    &&& final(self)@.year == res.reserve_year@
                    &&& final(self)@.month == res.reserve_month@
                    &&& final(self)@.mode == CalendarMode::ReserveNext
                }
            },
    {
        if res.errorno_num() == ERRORNO_INVALID_PARAMS {
            return Err(CollectError::InvalidParams);
        }
        let mut month_days = selectable_days(&res.data);
        let found = month_days.len();
        let enabled_mismatch = found > 0 && res.enabled_num() != 1;
        let ghost old_days = self.days@;
        let ghost new_days = month_days@;
        self.days.append(&mut month_days);
        assert(dates_of(old_days + new_days) == dates_of(old_days) + dates_of(new_days));
        self.fetched = self.fetched + 1;
        let same_month = res.reserve_year == self.year && res.reserve_month == self.month;
        if same_month {
            self.finished = true;
        } else {
            self.year = res.reserve_year.clone();
            self.month = res.reserve_month.clone();
            self.mode = CalendarMode::ReserveNext;
            self.finished = self.fetched == EXTRA_MONTHS_TO_CHECK + 1;
        }
        Ok(MonthRecord { found, enabled_mismatch })
    }

    /// The bookable days found so far, in the order of the months.
    pub fn into_days(self) -> (r: Vec<AvailableDay>)
        ensures
            dates_of(r@) == self@.days,
    {
        self.days
    }
}

} // verus!
