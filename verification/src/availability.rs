//! Which days of a calendar can be booked.
use vstd::prelude::*;

use crate::model::{dates_of, AvailableDay, CalendarData, DayCell};

verus! {

/// A day counts as bookable when it can be selected and is not full: a
/// full day may offer only a waiting list.
pub open spec fn is_open_day(c: DayCell) -> bool {
    c.is_selectable && c.is_full == 0
}

/// The dates of the bookable days among `cells`, in order.
pub open spec fn week_dates(cells: Seq<Option<DayCell>>) -> Seq<Seq<char>>
    decreases cells.len(),
{
    if cells.len() == 0 {
        Seq::empty()
    } else {
        let prev = week_dates(cells.drop_last());
        match cells.last() {
            Some(c) => if is_open_day(c) {
                prev.push(c.reserve_date@)
            } else {
                prev
            },
            None => prev,
        }
    }
}

/// The dates of the bookable days of a calendar, week by week.
pub open spec fn calendar_dates(weeks: Seq<Vec<Option<DayCell>>>) -> Seq<Seq<char>>
    decreases weeks.len(),
{
    if weeks.len() == 0 {
        Seq::empty()
    } else {
        calendar_dates(weeks.drop_last()) + week_dates(weeks.last()@)
    }
}

/// `cell` is a bookable day with date `date`.
pub open spec fn cell_offers(cell: Option<DayCell>, date: Seq<char>) -> bool {
    match cell {
        Some(c) => is_open_day(c) && c.reserve_date@ == date,
        None => false,
    }
}

/// `cells` has a bookable day with date `date`.
pub open spec fn week_offers(cells: Seq<Option<DayCell>>, date: Seq<char>) -> bool {
    exists|j: int| 0 <= j < cells.len() && cell_offers(#[trigger] cells[j], date)
}

/// The calendar `weeks` has a bookable day with date `date`.
pub open spec fn calendar_offers(weeks: Seq<Vec<Option<DayCell>>>, date: Seq<char>) -> bool {
    exists|i: int| 0 <= i < weeks.len() && week_offers(#[trigger] weeks[i]@, date)
}

proof fn lemma_week_dates_offered(cells: Seq<Option<DayCell>>)
    ensures
        forall|k: int|
            0 <= k < week_dates(cells).len() ==> week_offers(cells, #[trigger] week_dates(cells)[k]),
    decreases cells.len(),
{
    if cells.len() > 0 {
        let p = cells.drop_last();
        lemma_week_dates_offered(p);
        let ds = week_dates(cells);
        assert forall|k: int| 0 <= k < ds.len() implies week_offers(cells, #[trigger] ds[k]) by {
            if k < week_dates(p).len() {
                assert(ds[k] == week_dates(p)[k]);
                let j = choose|j: int| 0 <= j < p.len() && cell_offers(#[trigger] p[j], ds[k]);
                assert(cells[j] == p[j]);
            } else {
                assert(cells[cells.len() - 1] == cells.last());
            }
        }
    }
}

/// Every day that the calendar reports as bookable is a day of the
/// calendar that can be selected and is not full.
pub proof fn law_reported_days_are_open(weeks: Seq<Vec<Option<DayCell>>>)
    ensures
        forall|k: int|
            0 <= k < calendar_dates(weeks).len() ==> calendar_offers(
                weeks,
                #[trigger] calendar_dates(weeks)[k],
            ),
    decreases weeks.len(),
{
    if weeks.len() > 0 {
        let p = weeks.drop_last();
        law_reported_days_are_open(p);
        lemma_week_dates_offered(weeks.last()@);
        let ds = calendar_dates(weeks);
        let n = calendar_dates(p).len();
        assert forall|k: int| 0 <= k < ds.len() implies calendar_offers(weeks, #[trigger] ds[k]) by {
            if k < n {
                assert(ds[k] == calendar_dates(p)[k]);
                let i = choose|i: int| 0 <= i < p.len() && week_offers(#[trigger] p[i]@, ds[k]);
                assert(weeks[i] == p[i]);
            } else {
                assert(ds[k] == week_dates(weeks.last()@)[k - n]);
                assert(weeks[weeks.len() - 1] == weeks.last());
            }
        }
    }
}

/// A calendar without a day that can be selected and is not full reports
/// no bookable day.
pub proof fn law_closed_calendar_reports_nothing(weeks: Seq<Vec<Option<DayCell>>>)
    requires
        forall|i: int, j: int|
            0 <= i < weeks.len() && 0 <= j < weeks[i]@.len() ==> match #[trigger] weeks[i]@[j] {
                Some(c) => !is_open_day(c),
                None => true,
            },
    ensures
        calendar_dates(weeks) == Seq::<Seq<char>>::empty(),
{
    law_reported_days_are_open(weeks);
    if calendar_dates(weeks).len() > 0 {
        let d = calendar_dates(weeks)[0];
        assert(calendar_offers(weeks, d));
        let i = choose|i: int| 0 <= i < weeks.len() && week_offers(#[trigger] weeks[i]@, d);
        let j = choose|j: int| 0 <= j < weeks[i]@.len() && cell_offers(#[trigger] weeks[i]@[j], d);
        assert(weeks[i]@[j] is Some);
    }
}

/// A cell is a day that can be selected and is not full.
pub open spec fn bookable_cell(c: Option<DayCell>) -> bool {
    c is Some && c->Some_0.is_selectable && c->Some_0.is_full == 0
}

/// The date of a day cell.
pub open spec fn cell_date(c: Option<DayCell>) -> Seq<char> {
    c->Some_0.reserve_date@
}

/// All cells of a calendar, week after week.
pub open spec fn all_cells(weeks: Seq<Vec<Option<DayCell>>>) -> Seq<Option<DayCell>> {
    weeks.map_values(|w: Vec<Option<DayCell>>| w@).flatten()
}

proof fn lemma_week_dates_filter(cells: Seq<Option<DayCell>>)
    ensures
        week_dates(cells) == cells.filter(|c: Option<DayCell>| bookable_cell(c)).map_values(
            |c: Option<DayCell>| cell_date(c),
        ),
    decreases cells.len(),
{
    reveal_with_fuel(Seq::filter, 1);
    if cells.len() > 0 {
        lemma_week_dates_filter(cells.drop_last());
        let p = |c: Option<DayCell>| bookable_cell(c);
        let f = |c: Option<DayCell>| cell_date(c);
        let prev = cells.drop_last().filter(p);
        if bookable_cell(cells.last()) {
            assert(prev.push(cells.last()).map_values(f) =~= prev.map_values(f).push(
                cell_date(cells.last()),
            ));
        }
    }
}

/// The bookable days that `selectable_days` reports are exactly the cells
/// of the whole calendar, week after week and in each week from first to
/// last cell, that can be selected and are not full, by their dates.
pub proof fn law_bookable_days_are_all_open_cells(weeks: Seq<Vec<Option<DayCell>>>)
    ensures
        calendar_dates(weeks) == all_cells(weeks).filter(|c: Option<DayCell>| bookable_cell(c)).map_values(
            |c: Option<DayCell>| cell_date(c),
        ),
    decreases weeks.len(),
{
    let p = |c: Option<DayCell>| bookable_cell(c);
    let f = |c: Option<DayCell>| cell_date(c);
    let g = |w: Vec<Option<DayCell>>| w@;
    if weeks.len() == 0 {
        assert(all_cells(weeks) =~= Seq::<Option<DayCell>>::empty());
        reveal_with_fuel(Seq::filter, 1);
        assert(all_cells(weeks).filter(p).map_values(f) =~= Seq::<Seq<char>>::empty());
    } else {
        let pre = weeks.drop_last();
        law_bookable_days_are_all_open_cells(pre);
        lemma_week_dates_filter(weeks.last()@);
        assert(weeks.map_values(g) =~= pre.map_values(g).push(weeks.last()@));
        pre.map_values(g).lemma_flatten_push(weeks.last()@);
        assert(all_cells(weeks) == all_cells(pre) + weeks.last()@);
        Seq::filter_distributes_over_add(all_cells(pre), weeks.last()@, p);
        let a = all_cells(pre).filter(p);
        let b = weeks.last()@.filter(p);
        assert((a + b).map_values(f) =~= a.map_values(f) + b.map_values(f));
    }
}

/// The bookable days of a calendar, in calendar order.
pub fn selectable_days(data: &CalendarData) -> (r: Vec<AvailableDay>)
    ensures
        dates_of(r@) == calendar_dates(data.weekly_calendar@),
        dates_of(r@) == all_cells(data.weekly_calendar@).filter(|c: Option<DayCell>| bookable_cell(c)).map_values(
            |c: Option<DayCell>| cell_date(c),
        ),
{
    proof {
        law_bookable_days_are_all_open_cells(data.weekly_calendar@);
    }
    let weeks = &data.weekly_calendar;
    let mut r: Vec<AvailableDay> = Vec::new();
    let mut i: usize = 0;
    assert(weeks@.take(0) == Seq::<Vec<Option<DayCell>>>::empty());
    while i < weeks.len()
        invariant
            i <= weeks.len(),
            dates_of(r@) == calendar_dates(weeks@.take(i as int)),
        decreases weeks.len() - i,
    {
        let week = &weeks[i];
        let ghost base = dates_of(r@);
        let mut j: usize = 0;
        assert(week@.take(0) == Seq::<Option<DayCell>>::empty());
        while j < week.len()
            invariant
                j <= week.len(),
                dates_of(r@) == base + week_dates(week@.take(j as int)),
            decreases week.len() - j,
        {
            let ghost prev = r@;
            let ghost cells = week@.take(j + 1);
            assert(cells.drop_last() == week@.take(j as int));
            assert(cells.last() == week@[j as int]);
            match &week[j] {
                Some(cell) => {
                    if cell.is_selectable && cell.is_full == 0 {
                        r.push(AvailableDay { date: cell.reserve_date.clone() });
                        assert(dates_of(r@) == dates_of(prev).push(cell.reserve_date@));
                    }
                },
                None => {},
            }
            j = j + 1;
        }
        assert(week@.take(j as int) == week@);
        assert(weeks@.take(i + 1).drop_last() == weeks@.take(i as int));
        assert(weeks@.take(i + 1).last() == weeks@[i as int]);
        i = i + 1;
    }
    assert(weeks@.take(i as int) == weeks@);
    r
}

} // verus!
