use vstd::prelude::*;

use crate::decimal::{decimal_u64, parse_decimal_u64};
use crate::timestamp::{iso8601_utc, Timestamp};

verus! {

/// Seconds between two fetches when the server does not say otherwise.
pub const DEFAULT_POLL_INTERVAL: u64 = 60;

/// Response header in which the server asks for a polling cadence.
pub const POLL_INTERVAL_HEADER: &'static str = "X-Poll-Interval";

/// Query parameter that bounds a fetch to notifications updated after a time.
pub const SINCE_PARAMETER: &'static str = "since";

/// One item of the notifications feed.
pub struct Notification {
    pub subject_title: String,
    pub subject_type: String,
    pub repository_full_name: String,
    pub comment_url: Option<String>,
}

/// The text of an optional header value.
pub open spec fn header_text(header: Option<&str>) -> Option<Seq<char>> {
    match header {
        Some(h) => Some(h@),
        None => None,
    }
}

/// The cadence a poll-interval header asks for: its decimal value, or the
/// default when the header is absent or not a decimal number of seconds.
pub open spec fn poll_interval_of(header: Option<Seq<char>>) -> u64 {
    match header {
        Some(h) => match decimal_u64(h) {
            Some(v) => v,
            None => DEFAULT_POLL_INTERVAL,
        },
        None => DEFAULT_POLL_INTERVAL,
    }
}

/// Seconds to sleep before the next fetch, from the value of the poll-interval
/// header if the response had one that could be read as text.
pub fn extract_poll_interval(header: Option<&str>) -> (r: u64)
    ensures
        r == poll_interval_of(header_text(header)),
{
    match header {
        Some(h) => match parse_decimal_u64(h) {
            Some(v) => v,
            None => DEFAULT_POLL_INTERVAL,
        },
        None => DEFAULT_POLL_INTERVAL,
    }
}

/// The query of a fetch: empty without a cursor, else the cursor as `since`.
pub open spec fn query_for(cursor: Option<Timestamp>, query: Seq<(String, String)>) -> bool {
    match cursor {
        None => query.len() == 0,
        Some(t) => {
            &&& query.len() == 1
            &&& query[0].0@ == SINCE_PARAMETER@
            &&& query[0].1@ == iso8601_utc(t.seconds())
        },
    }
}

/// What a fetch cycle ends with: how long to sleep, and the items to hand out.
pub struct CyclePlan {
    pub sleep_seconds: u64,
    pub dispatch: Vec<Notification>,
}

/// Ends a fetch cycle: every fetched notification is handed out once, in the
/// order received, and the next fetch waits for the cadence the header asks for.
pub fn plan_cycle(header: Option<&str>, notifications: Vec<Notification>) -> (r: CyclePlan)
    ensures
        r.sleep_seconds == poll_interval_of(header_text(header)),
        r.dispatch@ == notifications@,
        header is None ==> r.sleep_seconds == DEFAULT_POLL_INTERVAL,
{
    CyclePlan { sleep_seconds: extract_poll_interval(header), dispatch: notifications }
}

/// The time cursor of the notification feed.
pub struct NotificationPoller {
    since: Option<Timestamp>,
}

impl NotificationPoller {
    /// Notifications updated after this time are the ones not seen yet;
    /// `None` before the first fetch.
    pub closed spec fn cursor(&self) -> Option<Timestamp> {
        self.since
    }

    /// A poller that has not fetched yet.
    pub fn new() -> (r: NotificationPoller)
        ensures
            r.cursor() is None,
    {
        NotificationPoller { since: None }
    }

    /// The current cursor.
    pub fn since(&self) -> (r: Option<Timestamp>)
        ensures
            r == self.cursor(),
    {
        self.since
    }

    /// Starts a fetch at time `now`: the query carries the cursor as it was,
    /// and the cursor moves to `now` before the request goes out.
    pub fn begin_cycle_at(&mut self, now: Timestamp) -> (query: Vec<(String, String)>)
        ensures
            query_for(old(self).cursor(), query@),
            final(self).cursor() == Some(now),
    {
        let mut query: Vec<(String, String)> = Vec::new();
        match self.since {
            Some(t) => {
                query.push((SINCE_PARAMETER.to_owned(), t.to_iso8601()));
            },
            None => {},
        }
        self.since = Some(now);
        query
    }

    /// Starts a fetch at the current time.
    pub fn begin_cycle(&mut self) -> (query: Vec<(String, String)>)
        ensures
            query_for(old(self).cursor(), query@),
            final(self).cursor() is Some,
    {
        let now = Timestamp::now();
        self.begin_cycle_at(now)
    }
}

/// A desktop alert for one notification.
pub struct Alert {
    pub summary: String,
    pub body: String,
}

/// The body of the alert: the subject's type in brackets, then its title on
/// the next line.
pub open spec fn alert_body(n: Notification) -> Seq<char> {
    "["@ + n.subject_type@ + "]\n"@ + n.subject_title@
}

/// The alert for a notification, headed by the repository's full name.
pub fn alert_for(n: &Notification) -> (r: Alert)
    ensures
        r.summary@ == n.repository_full_name@,
        r.body@ == alert_body(*n),
{
    let mut body = "[".to_owned();
    body.append(n.subject_type.as_str());
    body.append("]\n");
    body.append(n.subject_title.as_str());
    Alert { summary: n.repository_full_name.clone(), body }
}

/// The page to open when the user acts on an alert: the address looked up
/// for its comment, unless there is none or it is empty.
pub fn link_to_open(html_url: Option<String>) -> (r: Option<String>)
    ensures
        r == (match html_url {
            Some(u) => if u@.len() > 0 {
                Some(u)
            } else {
                None
            },
            None => None,
        }),
{
    match html_url {
        Some(u) => if u.as_str().is_empty() {
            None
        } else {
            Some(u)
        },
        None => None,
    }
}

} // verus!
