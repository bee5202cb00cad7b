//! The texts of the notifications.
use vstd::prelude::*;

use crate::model::AvailableDay;
use crate::text::{decimal, push_decimal};

verus! {

/// One line `- <date>` per day, in order.
pub open spec fn day_lines(days: Seq<AvailableDay>) -> Seq<char>
    decreases days.len(),
{
    if days.len() == 0 {
        Seq::empty()
    } else {
        day_lines(days.drop_last()) + "- "@ + days.last().date@ + seq!['\n']
    }
}

/// The e-mail text: a heading, a blank line, the day lines, a blank line
/// and the reservation page's URL.
pub open spec fn spec_render_text(days: Seq<AvailableDay>, url: Seq<char>) -> Seq<char> {
    "院長担当メニューに予約可能な日があります:\n\n"@ + day_lines(days) + seq!['\n'] + url + seq!['\n']
}

/// The webhook text: a heading with the number of days, the day lines and
/// the reservation page's URL.
pub open spec fn spec_render(days: Seq<AvailableDay>, target_url: Seq<char>) -> Seq<char> {
    "[sozen-monitor] 予約可能日あり ("@ + decimal(days.len()) + " 日)\n"@ + day_lines(days)
        + target_url
}

/// The line of one day: `- `, its date, and a line break.
pub open spec fn day_line(d: AvailableDay) -> Seq<char> {
    "- "@ + d.date@ + seq!['\n']
}

/// The day lines are one line per day, for every day, in order.
pub proof fn lemma_day_lines_list_every_day(days: Seq<AvailableDay>)
    ensures
        day_lines(days) == days.map_values(|d: AvailableDay| day_line(d)).flatten(),
    decreases days.len(),
{
    let f = |d: AvailableDay| day_line(d);
    if days.len() == 0 {
        assert(days.map_values(f) =~= Seq::<Seq<char>>::empty());
    } else {
        let pre = days.drop_last();
        lemma_day_lines_list_every_day(pre);
        assert(days.map_values(f) =~= pre.map_values(f).push(day_line(days.last())));
        pre.map_values(f).lemma_flatten_push(day_line(days.last()));
        assert(day_lines(days) =~= day_lines(pre) + day_line(days.last()));
    }
}

/// The e-mail text lists every day, in order, one `- <date>` line each,
/// between its heading and the page's URL.
pub proof fn law_email_text_lists_every_day(days: Seq<AvailableDay>, url: Seq<char>)
    ensures
        spec_render_text(days, url) == "院長担当メニューに予約可能な日があります:\n\n"@ + days.map_values(
            |d: AvailableDay| day_line(d),
        ).flatten() + seq!['\n'] + url + seq!['\n'],
{
    lemma_day_lines_list_every_day(days);
}

/// The webhook text counts the days in its heading and then lists every
/// one of them, in order, one `- <date>` line each, before the page's URL.
pub proof fn law_webhook_text_lists_every_day(days: Seq<AvailableDay>, target_url: Seq<char>)
    ensures
        spec_render(days, target_url) == "[sozen-monitor] 予約可能日あり ("@ + decimal(days.len())
            + " 日)\n"@ + days.map_values(|d: AvailableDay| day_line(d)).flatten() + target_url,
{
    lemma_day_lines_list_every_day(days);
}

/// Appends the day lines of `days` to `s`.
fn push_day_lines(s: &mut String, days: &[AvailableDay])
    ensures
        final(s)@ == old(s)@ + day_lines(days@),
{
    let ghost start = s@;
    let mut i: usize = 0;
    assert(days@.take(0) == Seq::<AvailableDay>::empty());
    while i < days.len()
        invariant
            i <= days.len(),
            s@ == start + day_lines(days@.take(i as int)),
        decreases days.len() - i,
    {
        s.append("- ");
        s.append(days[i].date.as_str());
        s.append("\n");
        proof {
            reveal_strlit("\n");
            let next = days@.take(i + 1);
            assert(next.drop_last() == days@.take(i as int));
            assert(next.last() == days@[i as int]);
        }
        i = i + 1;
    }
    assert(days@.take(i as int) == days@);
}

/// The text of the notification e-mail.
pub fn render_text(days: &[AvailableDay], url: &str) -> (r: String)
    ensures
        r@ == spec_render_text(days@, url@),
        r@ == "院長担当メニューに予約可能な日があります:\n\n"@ + days@.map_values(
            |d: AvailableDay| day_line(d),
        ).flatten() + seq!['\n'] + url@ + seq!['\n'],
{
    proof {
        law_email_text_lists_every_day(days@, url@);
    }
    let mut s = "院長担当メニューに予約可能な日があります:\n\n".to_owned();
    push_day_lines(&mut s, days);
    s.append("\n");
    s.append(url);
    s.append("\n");
    proof {
        reveal_strlit("\n");
    }
    s
}

/// The text of the Discord and Slack messages.
pub fn render(days: &[AvailableDay], target_url: &str) -> (r: String)
    ensures
        r@ == spec_render(days@, target_url@),
        r@ == "[sozen-monitor] 予約可能日あり ("@ + decimal(days@.len()) + " 日)\n"@ + days@.map_values(
            |d: AvailableDay| day_line(d),
        ).flatten() + target_url@,
{
    proof {
        law_webhook_text_lists_every_day(days@, target_url@);
    }
    let mut s = "[sozen-monitor] 予約可能日あり (".to_owned();
    push_decimal(&mut s, days.len());
    s.append(" 日)\n");
    push_day_lines(&mut s, days);
    s.append(target_url);
    s
}

} // verus!
