//! Reading the search parameters out of the reservation page, and writing
//! the calendar search request.
use vstd::prelude::*;

use crate::model::{ReserveParams, ReserveParamsView};
use crate::text::{
    after_nth, after_nth_pos, chars_of, contains_in_range, contains_seq, find_from,
    first_index, first_line_containing, lemma_first_index_bounds, lemma_first_line_contains, strip_cr, string_of_range,
    take_until,
};

verus! {

// ---------------------------------------------------------------------------
// The HTML parser
// ---------------------------------------------------------------------------

/// Whether scraper's `Selector::parse` accepts `selector`.
pub uninterp spec fn css_selector_parses(selector: Seq<char>) -> bool;

/// What scraper gives for the HTML document `html`: the `attr` attribute
/// of the first element, in document order, that `selector` matches;
/// `None` when no element matches or the first has no such attribute.
pub uninterp spec fn first_match_attr(
    html: Seq<char>,
    selector: Seq<char>,
    attr: Seq<char>,
) -> Option<Seq<char>>;

/// Parses `html` with scraper's `Html::parse_document`, parses `selector`
/// with `Selector::parse`, and reads the attribute `attr` of the first
/// element that `Html::select` yields. The contract claims that the
/// selector is refused exactly when `css_selector_parses` says so, and
/// that otherwise the result is `first_match_attr` of the three texts.
#[verifier::external_body]
fn select_first_attr(html: &str, selector: &str, attr: &str) -> (r: Result<Option<String>, ()>)
    ensures
        r is Ok <==> css_selector_parses(selector@),
        r matches Ok(Some(v)) ==> first_match_attr(html@, selector@, attr@) == Some(v@),
        r matches Ok(None) ==> first_match_attr(html@, selector@, attr@) is None,
{
    let doc = ::scraper::Html::parse_document(html);
    match ::scraper::Selector::parse(selector) {
        Ok(sel) => match doc.select(&sel).next() {
            Some(el) => Ok(el.value().attr(attr).map(String::from)),
            None => Ok(None),
        },
        Err(_) => Err(()),
    }
}

// ---------------------------------------------------------------------------
// Fields of the page
// ---------------------------------------------------------------------------

/// The parameters that the calendar search needs, each read from the page.
#[derive(Debug, Clone, Copy, PartialEq, Eq, Structural)]
pub enum ReserveField {
    BusCd,
    EvtNo,
    StfCd,
    SrvTime,
    BusReserveFlag,
    BusInterval,
}

/// Why a field could not be read.
#[derive(Debug, Clone, Copy, PartialEq, Eq, Structural)]
pub enum ScrapeErrorKind {
    /// The CSS selector for the hidden input was refused.
    InvalidSelector,
    /// No hidden input with that id, or it has no `value`.
    HiddenInputNotFound,
    /// No line of the page names the session key.
    SessionKeyNotFound,
    /// No quote after the key's closing quote.
    NoSessionValue,
}

/// A field of the page that could not be read, and why.
#[derive(Debug, Clone, Copy, PartialEq, Eq, Structural)]
pub struct ScrapeError {
    pub field: ReserveField,
    pub kind: ScrapeErrorKind,
}

/// The field is a hidden `<input>`; the others are keys of the page's
/// `ReserveSession` script object.
pub open spec fn is_hidden_field(f: ReserveField) -> bool {
    match f {
        ReserveField::BusCd | ReserveField::EvtNo | ReserveField::StfCd
        | ReserveField::SrvTime => true,
        _ => false,
    }
}

/// The input id or session key of a field.
pub open spec fn field_name(f: ReserveField) -> Seq<char> {
    match f {
        ReserveField::BusCd => "reserve_bus_cd"@,
        ReserveField::EvtNo => "reserve_evt_no"@,
        ReserveField::StfCd => "reserve_stf_cd"@,
        ReserveField::SrvTime => "reserve_srv_time"@,
        ReserveField::BusReserveFlag => "bus_reserve_flag"@,
        ReserveField::BusInterval => "bus_interval"@,
    }
}

impl ReserveField {
    /// The input id or session key of the field.
    pub fn name(&self) -> (r: &'static str)
        ensures
            r@ == field_name(*self),
    {
        match self {
            ReserveField::BusCd => "reserve_bus_cd",
            ReserveField::EvtNo => "reserve_evt_no",
            ReserveField::StfCd => "reserve_stf_cd",
            ReserveField::SrvTime => "reserve_srv_time",
            ReserveField::BusReserveFlag => "bus_reserve_flag",
            ReserveField::BusInterval => "bus_interval",
        }
    }
}

/// The view of a lookup's result.
pub open spec fn text_result<E>(r: Result<String, E>) -> Result<Seq<char>, E> {
    match r {
        Ok(s) => Ok(s@),
        Err(e) => Err(e),
    }
}

/// The selector of the hidden input with id `id`.
pub open spec fn hidden_selector(id: Seq<char>) -> Seq<char> {
    "input#"@ + id
}

/// The `value` of the first `<input>` whose id is `id`.
pub open spec fn spec_hidden_value(html: Seq<char>, id: Seq<char>) -> Result<
    Seq<char>,
    ScrapeErrorKind,
> {
    let sel = hidden_selector(id);
    if !css_selector_parses(sel) {
        Err(ScrapeErrorKind::InvalidSelector)
    } else {
        match first_match_attr(html, sel, "value"@) {
            Some(v) => Ok(v),
            None => Err(ScrapeErrorKind::HiddenInputNotFound),
        }
    }
}

/// The key `key` between single quotes, as the script writes it.
pub open spec fn session_marker(key: Seq<char>) -> Seq<char> {
    seq!['\''] + key + seq!['\'']
}

/// The value of `key` in the page's session script: on the first line
/// that holds `'key'`, the text after that line's third single quote, up
/// to the next single quote or the end of the line. (Such a line always
/// has two quotes, those around the key: see `lemma_marked_line_has_two_quotes`.)
pub open spec fn spec_session_value(html: Seq<char>, key: Seq<char>) -> Result<
    Seq<char>,
    ScrapeErrorKind,
> {
    match first_line_containing(html, session_marker(key)) {
        None => Err(ScrapeErrorKind::SessionKeyNotFound),
        Some(line) => {
            let after_key = after_nth(line, '\'', 2)->Some_0;
            match after_nth(after_key, '\'', 1) {
                None => Err(ScrapeErrorKind::NoSessionValue),
                Some(rest) => Ok(take_until(rest, '\'')),
            }
        },
    }
}

/// `s` holds `c` somewhere at or before `j`, so its first `c` is found.
proof fn lemma_first_index_found(s: Seq<char>, c: char, j: int)
    requires
        0 <= j < s.len(),
        s[j] == c,
    ensures
        first_index(s, c) matches Some(a) && 0 <= a <= j,
{
    lemma_first_index_bounds(s, c);
}

/// A line that holds `'key'` has at least two single quotes.
pub proof fn lemma_marked_line_has_two_quotes(line: Seq<char>, key: Seq<char>)
    requires
        contains_seq(line, session_marker(key)),
    ensures
        after_nth(line, '\'', 2) is Some,
{
    let m = session_marker(key);
    let i = choose|i: int|
        0 <= i && i + m.len() <= line.len() && #[trigger] line.subrange(i, i + m.len()) == m;
    let j = i + key.len() + 1;
    assert(line.subrange(i, i + m.len())[0] == line[i]);
    assert(line.subrange(i, i + m.len())[key.len() + 1int] == line[j]);
    assert(m[0] == '\'');
    assert(m[key.len() + 1int] == '\'');
    lemma_first_index_found(line, '\'', i);
    let a = first_index(line, '\'')->Some_0;
    assert(m.len() == key.len() + 2);
    assert(a <= i && j < line.len());
    let r = line.skip(a + 1);
    assert(r[j - (a + 1)] == line[j]);
    lemma_first_index_found(r, '\'', j - (a + 1));
    reveal_with_fuel(after_nth, 3);
}

/// The value of one field of the page.
pub open spec fn spec_field_value(html: Seq<char>, f: ReserveField) -> Result<
    Seq<char>,
    ScrapeErrorKind,
> {
    if is_hidden_field(f) {
        spec_hidden_value(html, field_name(f))
    } else {
        spec_session_value(html, field_name(f))
    }
}

/// The parameters of a page: every field read in the order of
/// [`ReserveParams`], the first field that cannot be read giving the error.
pub open spec fn spec_parse_reserve_params(html: Seq<char>) -> Result<
    ReserveParamsView,
    ScrapeError,
> {
    let v = |f: ReserveField| spec_field_value(html, f);
    let fail = |f: ReserveField| Err(ScrapeError { field: f, kind: v(f)->Err_0 });
    if v(ReserveField::BusCd) is Err {
        fail(ReserveField::BusCd)
    } else if v(ReserveField::EvtNo) is Err {
        fail(ReserveField::EvtNo)
    } else if v(ReserveField::StfCd) is Err {
        fail(ReserveField::StfCd)
    } else if v(ReserveField::SrvTime) is Err {
        fail(ReserveField::SrvTime)
    } else if v(ReserveField::BusReserveFlag) is Err {
        fail(ReserveField::BusReserveFlag)
    } else if v(ReserveField::BusInterval) is Err {
        fail(ReserveField::BusInterval)
    } else {
        Ok(
            ReserveParamsView {
                bus_cd: v(ReserveField::BusCd)->Ok_0,
                evt_no: v(ReserveField::EvtNo)->Ok_0,
                stf_cd: v(ReserveField::StfCd)->Ok_0,
                srv_time: v(ReserveField::SrvTime)->Ok_0,
                bus_reserve_flag: v(ReserveField::BusReserveFlag)->Ok_0,
                bus_interval: v(ReserveField::BusInterval)->Ok_0,
            },
        )
    }
}

/// Reading the parameters of a page succeeds exactly when its four hidden
/// inputs (`reserve_bus_cd`, `reserve_evt_no`, `reserve_stf_cd`,
/// `reserve_srv_time`) and its two session keys (`bus_reserve_flag`,
/// `bus_interval`) can all be read; then each field holds the value read
/// under its own name. An error names a field that cannot be read, and why.
pub proof fn law_params_are_read_by_name(html: Seq<char>)
    ensures
        spec_parse_reserve_params(html) is Ok <==> {
            &&& spec_hidden_value(html, "reserve_bus_cd"@) is Ok
            &&& spec_hidden_value(html, "reserve_evt_no"@) is Ok
            &&& spec_hidden_value(html, "reserve_stf_cd"@) is Ok
            &&& spec_hidden_value(html, "reserve_srv_time"@) is Ok
            &&& spec_session_value(html, "bus_reserve_flag"@) is Ok
            &&& spec_session_value(html, "bus_interval"@) is Ok
        },
        spec_parse_reserve_params(html) matches Ok(p) ==> {
            &&& spec_hidden_value(html, "reserve_bus_cd"@) == Ok::<Seq<char>, ScrapeErrorKind>(p.bus_cd)
            &&& spec_hidden_value(html, "reserve_evt_no"@) == Ok::<Seq<char>, ScrapeErrorKind>(p.evt_no)
            &&& spec_hidden_value(html, "reserve_stf_cd"@) == Ok::<Seq<char>, ScrapeErrorKind>(p.stf_cd)
            &&& spec_hidden_value(html, "reserve_srv_time"@) == Ok::<Seq<char>, ScrapeErrorKind>(p.srv_time)
            &&& spec_session_value(html, "bus_reserve_flag"@) == Ok::<Seq<char>, ScrapeErrorKind>(p.bus_reserve_flag)
            &&& spec_session_value(html, "bus_interval"@) == Ok::<Seq<char>, ScrapeErrorKind>(p.bus_interval)
        },
        spec_parse_reserve_params(html) matches Err(e) ==> spec_field_value(html, e.field) == Err::<
            Seq<char>,
            ScrapeErrorKind,
        >(e.kind),
{
}

/// The view of the result of [`parse_reserve_params`].
pub open spec fn params_result(r: Result<ReserveParams, ScrapeError>) -> Result<
    ReserveParamsView,
    ScrapeError,
> {
    match r {
        Ok(p) => Ok(p@),
        Err(e) => Err(e),
    }
}

/// The `value` of the hidden input with id `id`.
pub fn hidden_input_value(html: &str, id: &str) -> (r: Result<String, ScrapeErrorKind>)
    ensures
        text_result(r) == spec_hidden_value(html@, id@),
{
    let mut sel = "input#".to_owned();
    sel.append(id);
    match select_first_attr(html, sel.as_str(), "value") {
        Ok(Some(v)) => Ok(v),
        Ok(None) => Err(ScrapeErrorKind::HiddenInputNotFound),
        Err(()) => Err(ScrapeErrorKind::InvalidSelector),
    }
}

/// Where the first line of `text` that contains `marker` starts and ends.
fn find_line_containing(text: &Vec<char>, marker: &Vec<char>) -> (r: Option<(usize, usize)>)
    ensures
        match r {
            Some((a, b)) => a <= b <= text.len() && first_line_containing(text@, marker@) == Some(
                text@.subrange(a as int, b as int),
            ),
            None => first_line_containing(text@, marker@) is None,
        },
{
    let mut pos: usize = 0;
    assert(text@.skip(0) == text@);
    while pos < text.len()
        invariant
            pos <= text.len(),
            first_line_containing(text@, marker@) == first_line_containing(
                text@.skip(pos as int),
                marker@,
            ),
        decreases text.len() - pos,
    {
        let ghost rest = text@.skip(pos as int);
        match find_from(text, pos, '\n') {
            Some(q) => {
                let mut e = q;
                if e > pos && text[e - 1] == '\r' {
                    e = e - 1;
                }
                assert(rest.take(q - pos) == text@.subrange(pos as int, q as int));
                assert(strip_cr(rest.take(q - pos)) == text@.subrange(pos as int, e as int));
                if contains_in_range(text, pos, e, marker) {
                    return Some((pos, e));
                }
                assert(rest.skip(q - pos + 1) == text@.skip(q + 1));
                pos = q + 1;
            },
            None => {
                assert(rest == text@.subrange(pos as int, text.len() as int));
                if contains_in_range(text, pos, text.len(), marker) {
                    return Some((pos, text.len()));
                }
                return None;
            },
        }
    }
    assert(text@.skip(pos as int).len() == 0);
    None
}

/// The value of `key` in the page's session script.
pub fn session_value(html: &str, key: &str) -> (r: Result<String, ScrapeErrorKind>)
    ensures
        text_result(r) == spec_session_value(html@, key@),
{
    let text = chars_of(html);
    let key_chars = chars_of(key);
    let mut marker: Vec<char> = Vec::new();
    marker.push('\'');
    let mut i: usize = 0;
    while i < key_chars.len()
        invariant
            i <= key_chars.len(),
            marker@ == seq!['\''] + key_chars@.take(i as int),
        decreases key_chars.len() - i,
    {
        marker.push(key_chars[i]);
        assert(key_chars@.take(i + 1) == key_chars@.take(i as int).push(key_chars@[i as int]));
        i = i + 1;
    }
    marker.push('\'');
    assert(key_chars@.take(i as int) == key@);
    assert(marker@ == session_marker(key@));
    let (a, b) = match find_line_containing(&text, &marker) {
        Some(ab) => ab,
        None => {
            return Err(ScrapeErrorKind::SessionKeyNotFound);
        },
    };
    let line = chars_of(string_of_range(&text, a, b).as_str());
    proof {
        lemma_first_line_contains(text@, marker@);
        lemma_marked_line_has_two_quotes(line@, key@);
    }
    let p = match after_nth_pos(&line, '\'', 2) {
        Some(p) => p,
        None => unreached(),
    };
    let after_key = chars_of(string_of_range(&line, p, line.len()).as_str());
    assert(after_key@ == line@.skip(p as int));
    let q = match after_nth_pos(&after_key, '\'', 1) {
        Some(q) => q,
        None => {
            return Err(ScrapeErrorKind::NoSessionValue);
        },
    };
    let end = match find_from(&after_key, q, '\'') {
        Some(e) => e,
        None => after_key.len(),
    };
    proof {
        lemma_first_index_bounds(after_key@.skip(q as int), '\'');
        assert(after_key@.skip(q as int).take(end - q) == after_key@.subrange(
            q as int,
            end as int,
        ));
        assert(after_key@.skip(q as int) == after_key@.subrange(q as int, after_key.len() as int));
    }
    Ok(string_of_range(&after_key, q, end))
}

/// The value of one field of the page.
pub fn field_value(html: &str, f: ReserveField) -> (r: Result<String, ScrapeErrorKind>)
    ensures
        text_result(r) == spec_field_value(html@, f),
{
    match f {
        ReserveField::BusCd | ReserveField::EvtNo | ReserveField::StfCd
        | ReserveField::SrvTime => hidden_input_value(html, f.name()),
        _ => session_value(html, f.name()),
    }
}

/// Reads the calendar search parameters from the reservation page: four
/// hidden inputs and two keys of the `ReserveSession` script.
pub fn parse_reserve_params(html: &str) -> (r: Result<ReserveParams, ScrapeError>)
    ensures
        params_result(r) == spec_parse_reserve_params(html@),
        r matches Ok(p) ==> {
            &&& spec_hidden_value(html@, "reserve_bus_cd"@) == Ok::<Seq<char>, ScrapeErrorKind>(p.bus_cd@)
            &&& spec_hidden_value(html@, "reserve_evt_no"@) == Ok::<Seq<char>, ScrapeErrorKind>(p.evt_no@)
            &&& spec_hidden_value(html@, "reserve_stf_cd"@) == Ok::<Seq<char>, ScrapeErrorKind>(p.stf_cd@)
            &&& spec_hidden_value(html@, "reserve_srv_time"@) == Ok::<Seq<char>, ScrapeErrorKind>(p.srv_time@)
            &&& spec_session_value(html@, "bus_reserve_flag"@) == Ok::<Seq<char>, ScrapeErrorKind>(
                p.bus_reserve_flag@,
            )
            &&& spec_session_value(html@, "bus_interval"@) == Ok::<Seq<char>, ScrapeErrorKind>(p.bus_interval@)
        },
{
    proof {
        law_params_are_read_by_name(html@);
    }
    let bus_cd = match field_value(html, ReserveField::BusCd) {
        Ok(v) => v,
        Err(kind) => {
            return Err(ScrapeError { field: ReserveField::BusCd, kind });
        },
    };
    let evt_no = match field_value(html, ReserveField::EvtNo) {
        Ok(v) => v,
        Err(kind) => {
            return Err(ScrapeError { field: ReserveField::EvtNo, kind });
        },
    };
    let stf_cd = match field_value(html, ReserveField::StfCd) {
        Ok(v) => v,
        Err(kind) => {
            return Err(ScrapeError { field: ReserveField::StfCd, kind });
        },
    };
    let srv_time = match field_value(html, ReserveField::SrvTime) {
        Ok(v) => v,
        Err(kind) => {
            return Err(ScrapeError { field: ReserveField::SrvTime, kind });
        },
    };
    let bus_reserve_flag = match field_value(html, ReserveField::BusReserveFlag) {
        Ok(v) => v,
        Err(kind) => {
            return Err(ScrapeError { field: ReserveField::BusReserveFlag, kind });
        },
    };
    let bus_interval = match field_value(html, ReserveField::BusInterval) {
        Ok(v) => v,
        Err(kind) => {
            return Err(ScrapeError { field: ReserveField::BusInterval, kind });
        },
    };
    Ok(ReserveParams { bus_cd, evt_no, stf_cd, srv_time, bus_reserve_flag, bus_interval })
}

// ---------------------------------------------------------------------------
// The calendar search request
// ---------------------------------------------------------------------------

/// `fields` written as `key=value` pairs joined by `&`, as the search form
/// posts them (nothing is escaped).
pub open spec fn form_encode(fields: Seq<(Seq<char>, Seq<char>)>) -> Seq<char>
    decreases fields.len(),
{
    if fields.len() == 0 {
        Seq::empty()
    } else if fields.len() == 1 {
        fields[0].0 + seq!['='] + fields[0].1
    } else {
        form_encode(fields.drop_last()) + seq!['&'] + fields.last().0 + seq!['='] + fields.last().1
    }
}

/// The form fields of a calendar search for `year`/`month` in `mode`.
pub open spec fn calendar_form_fields(
    p: ReserveParamsView,
    year: Seq<char>,
    month: Seq<char>,
    mode: Seq<char>,
) -> Seq<(Seq<char>, Seq<char>)> {
    seq![
        ("cmd"@, "divmenu3_calendar"@),
        ("mode"@, mode),
        ("reserve_bus_cd"@, p.bus_cd),
        ("reserve_year"@, year),
        ("reserve_month"@, month),
        ("reserve_date"@, year + month + "01"@),
        ("reserve_evt_no"@, p.evt_no),
        ("reserve_stf_cd"@, p.stf_cd),
        ("bus_reserve_flag"@, p.bus_reserve_flag),
        ("rsd_group_people"@, "1"@),
        ("reserve_srv_time"@, p.srv_time),
        ("bus_interval"@, p.bus_interval),
        ("is_front"@, "true"@),
    ]
}

/// Encoding one more field adds `&key=value` (or just `key=value` to
/// nothing).
proof fn lemma_form_encode_take(fs: Seq<(Seq<char>, Seq<char>)>, k: int)
    requires
        0 <= k < fs.len(),
    ensures
        k == 0 ==> form_encode(fs.take(1)) == fs[0].0 + seq!['='] + fs[0].1,
        k > 0 ==> form_encode(fs.take(k + 1)) == form_encode(fs.take(k)) + seq!['&'] + fs[k].0
            + seq!['='] + fs[k].1,
{
    let t = fs.take(k + 1);
    assert(t.drop_last() == fs.take(k));
    assert(t.last() == fs[k]);
    if k == 0 {
        assert(t.len() == 1 && t[0] == fs[0]);
    }
}

/// The calendar search body, written out: each form key is followed by
/// `=` and the value of the same name (the parameter fields by their own
/// names, `reserve_date` the year, the month and `01`), in this order,
/// joined by `&`.
pub proof fn law_calendar_body_pairs_keys_with_values(
    p: ReserveParamsView,
    year: Seq<char>,
    month: Seq<char>,
    mode: Seq<char>,
)
    ensures
        form_encode(calendar_form_fields(p, year, month, mode)) == "cmd"@ + seq!['=']
            + "divmenu3_calendar"@ + seq!['&'] + "mode"@ + seq!['='] + mode + seq!['&']
            + "reserve_bus_cd"@ + seq!['='] + p.bus_cd + seq!['&'] + "reserve_year"@ + seq!['=']
            + year + seq!['&'] + "reserve_month"@ + seq!['='] + month + seq!['&']
            + "reserve_date"@ + seq!['='] + (year + month + "01"@) + seq!['&']
            + "reserve_evt_no"@ + seq!['='] + p.evt_no + seq!['&'] + "reserve_stf_cd"@ + seq!['=']
            + p.stf_cd + seq!['&'] + "bus_reserve_flag"@ + seq!['='] + p.bus_reserve_flag + seq!['&']
            + "rsd_group_people"@ + seq!['='] + "1"@ + seq!['&'] + "reserve_srv_time"@ + seq!['=']
            + p.srv_time + seq!['&'] + "bus_interval"@ + seq!['='] + p.bus_interval + seq!['&']
            + "is_front"@ + seq!['='] + "true"@,
{
    let fs = calendar_form_fields(p, year, month, mode);
    lemma_form_encode_take(fs, 0);
    lemma_form_encode_take(fs, 1);
    lemma_form_encode_take(fs, 2);
    lemma_form_encode_take(fs, 3);
    lemma_form_encode_take(fs, 4);
    lemma_form_encode_take(fs, 5);
    lemma_form_encode_take(fs, 6);
    lemma_form_encode_take(fs, 7);
    lemma_form_encode_take(fs, 8);
    lemma_form_encode_take(fs, 9);
    lemma_form_encode_take(fs, 10);
    lemma_form_encode_take(fs, 11);
    lemma_form_encode_take(fs, 12);
    assert(fs.take(13) == fs);
}

/// The texts of a list of form fields.
pub open spec fn fields_view(fields: Seq<(&str, &str)>) -> Seq<(Seq<char>, Seq<char>)> {
    fields.map_values(|f: (&str, &str)| (f.0@, f.1@))
}

/// Writes form fields as `key=value` pairs joined by `&`.
pub fn encode_form(fields: &Vec<(&str, &str)>) -> (r: String)
    ensures
        r@ == form_encode(fields_view(fields@)),
{
    let ghost fv = fields_view(fields@);
    let mut r = String::new();
    let mut i: usize = 0;
    assert(fv.take(0) == Seq::<(Seq<char>, Seq<char>)>::empty());
    while i < fields.len()
        invariant
            i <= fields.len(),
            fv == fields_view(fields@),
            r@ == form_encode(fv.take(i as int)),
        decreases fields.len() - i,
    {
        let (k, v) = fields[i];
        let ghost prev = fv.take(i as int);
        let ghost next = fv.take(i + 1);
        assert(next.drop_last() == prev);
        assert(next.last() == (k@, v@));
        if i > 0 {
            r.append("&");
            proof {
                reveal_strlit("&");
            }
        }
        r.append(k);
        r.append("=");
        proof {
            reveal_strlit("=");
        }
        r.append(v);
        if i == 0 {
            assert(next.len() == 1);
            assert(r@ == next[0].0 + seq!['='] + next[0].1);
        } else {
            assert(r@ == form_encode(prev) + seq!['&'] + next.last().0 + seq!['='] + next.last().1);
        }
        i = i + 1;
    }
    assert(fv.take(i as int) == fv);
    r
}

/// The body of the calendar search for `year`/`month` in `mode`. An empty
/// year, month and mode ask the server for the first month that takes
/// reservations; `reserve_next` with the year and month it last sent asks
/// for the month after.
pub fn calendar_form_body(params: &ReserveParams, year: &str, month: &str, mode: &str) -> (r:
    String)
    ensures
        r@ == form_encode(calendar_form_fields(params@, year@, month@, mode@)),
        r@ == "cmd"@ + seq!['='] + "divmenu3_calendar"@ + seq!['&'] + "mode"@ + seq!['='] + mode@
            + seq!['&'] + "reserve_bus_cd"@ + seq!['='] + params.bus_cd@ + seq!['&']
            + "reserve_year"@ + seq!['='] + year@ + seq!['&'] + "reserve_month"@ + seq!['=']
            + month@ + seq!['&'] + "reserve_date"@ + seq!['='] + (year@ + month@ + "01"@)
            + seq!['&'] + "reserve_evt_no"@ + seq!['='] + params.evt_no@ + seq!['&']
            + "reserve_stf_cd"@ + seq!['='] + params.stf_cd@ + seq!['&'] + "bus_reserve_flag"@
            + seq!['='] + params.bus_reserve_flag@ + seq!['&'] + "rsd_group_people"@ + seq!['=']
            + "1"@ + seq!['&'] + "reserve_srv_time"@ + seq!['='] + params.srv_time@ + seq!['&']
            + "bus_interval"@ + seq!['='] + params.bus_interval@ + seq!['&'] + "is_front"@
            + seq!['='] + "true"@,
{
    proof {
        law_calendar_body_pairs_keys_with_values(params@, year@, month@, mode@);
    }
    let mut date = year.to_owned();
    date.append(month);
    date.append("01");
    let fields: Vec<(&str, &str)> = vec![
        ("cmd", "divmenu3_calendar"),
        ("mode", mode),
        ("reserve_bus_cd", params.bus_cd.as_str()),
        ("reserve_year", year),
        ("reserve_month", month),
        ("reserve_date", date.as_str()),
        ("reserve_evt_no", params.evt_no.as_str()),
        ("reserve_stf_cd", params.stf_cd.as_str()),
        ("bus_reserve_flag", params.bus_reserve_flag.as_str()),
        ("rsd_group_people", "1"),
        ("reserve_srv_time", params.srv_time.as_str()),
        ("bus_interval", params.bus_interval.as_str()),
        ("is_front", "true"),
    ];
    assert(fields_view(fields@) == calendar_form_fields(params@, year@, month@, mode@));
    encode_form(&fields)
}

/// The address of the calendar search on the site at `base_url`.
pub fn ajax_search_url(base_url: &str) -> (r: String)
    ensures
        r@ == base_url@ + "/AjaxSearch"@,
{
    let mut r = base_url.to_owned();
    r.append("/AjaxSearch");
    r
}

} // verus!
