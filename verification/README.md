# sozen_monitor

Watches the reservation calendar of a clinic's booking site and reports the
days that can still be booked, by e-mail (SES) and Discord/Slack webhooks.

- `src/` is the verified library:
  - `text.rs`: searching and splitting character sequences, line handling,
    decimal numerals and `i64` parsing, with their specifications.
  - `page.rs`: reading the search parameters from the reservation page
    (hidden inputs through the `scraper` HTML parser, session keys from the
    page's script) and writing the calendar search request.
  - `model.rs`: the data read from the site; numbers sent as JSON numbers or
    strings.
  - `availability.rs`: which days of a month's calendar can be booked.
  - `handler.rs`: the site's origin, and the month-by-month scan of the
    calendar (which month to ask for next, when to stop).
  - `notifier.rs`: the texts of the notifications.
- `app/` is the Lambda program around it: configuration from the
  environment and SSM, HTTP requests, JSON decoding, SES and webhooks.
- `tests/` runs the library on concrete pages, calendars and texts.
