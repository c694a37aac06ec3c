//! Waiting for a page: when to look again, and when to give up.
//!
//! Time is told by the caller, in nanoseconds since the wait began.

use vstd::prelude::*;

use crate::decimal::{decimal, digits, signed_decimal, signed_digits};
use crate::error::{Error, ErrorView};
use crate::page::answer::{debug_list, debug_text};
use crate::text::{concat3, contains, holds, same, views};

verus! {

/// Milliseconds between two looks.
pub const POLL_INTERVAL_MS: u64 = 100;

/// Milliseconds for a page to settle after something was done to it.
pub const SETTLE_MS: u64 = 100;

/// Milliseconds between two small steps, such as pressing and releasing.
pub const INTERACTION_DELAY_MS: u64 = 50;

/// More than `limit_ms` milliseconds are `elapsed` nanoseconds.
pub open spec fn is_past(elapsed: u128, limit_ms: u64) -> bool {
    elapsed > limit_ms * 1_000_000
}

/// Whether more than `limit_ms` milliseconds have passed.
pub fn past(elapsed: u128, limit_ms: u64) -> (r: bool)
    ensures
        r == is_past(elapsed, limit_ms),
{
    elapsed > limit_ms as u128 * 1_000_000
}

/// What to do after a look.
pub enum PollStep<T> {
    /// Nothing: this is what was waited for.
    Done(T),
    /// Give up.
    GiveUp(Error),
    /// Look again after so many milliseconds.
    Sleep(u64),
}

/// What to do after a look that found `found`, `elapsed` nanoseconds into a wait of
/// `timeout_ms` milliseconds.
pub fn poll_until<T>(found: Option<T>, elapsed: u128, timeout_ms: u64, error_msg: String) -> (step:
    PollStep<T>)
    ensures
        match found {
            Some(value) => step == PollStep::Done(value),
            None => if is_past(elapsed, timeout_ms) {
                step matches PollStep::GiveUp(e) && e@ == ErrorView::Timeout(error_msg@)
            } else {
                step == PollStep::<T>::Sleep(POLL_INTERVAL_MS)
            },
        },
{
    match found {
        Some(value) => PollStep::Done(value),
        None => if past(elapsed, timeout_ms) {
            PollStep::GiveUp(Error::Timeout(error_msg))
        } else {
            PollStep::Sleep(POLL_INTERVAL_MS)
        },
    }
}

/// `before`, `what`, `between`, the milliseconds and "ms".
pub open spec fn timed(before: Seq<char>, what: Seq<char>, between: Seq<char>, ms: u64) -> Seq<
    char,
> {
    before + what + between + digits(ms as nat) + "ms"@
}

fn timed_text(before: &str, what: &str, between: &str, ms: u64) -> (out: String)
    ensures
        out@ == timed(before@, what@, between@, ms),
{
    let mut out = concat3(before, what, between);
    out.append(decimal(ms).as_str());
    out.append("ms");
    out
}

/// What is said when an element does not appear.
pub fn not_found_text(selector: &str, timeout_ms: u64) -> (out: String)
    ensures
        out@ == timed("Element '"@, selector@, "' not found within "@, timeout_ms),
{
    timed_text("Element '", selector, "' not found within ", timeout_ms)
}

/// What is said when an element does not become visible.
pub fn not_visible_text(selector: &str, timeout_ms: u64) -> (out: String)
    ensures
        out@ == timed("Element '"@, selector@, "' not visible within "@, timeout_ms),
{
    timed_text("Element '", selector, "' not visible within ", timeout_ms)
}

/// What is said when an element does not disappear.
pub fn still_visible_text(selector: &str, timeout_ms: u64) -> (out: String)
    ensures
        out@ == timed("Element '"@, selector@, "' still visible after "@, timeout_ms),
{
    timed_text("Element '", selector, "' still visible after ", timeout_ms)
}

/// What is said when no element with a text appears.
pub fn text_not_found_text(text: &str, timeout_ms: u64) -> (out: String)
    ensures
        out@ == timed("Element with text '"@, text@, "' not found within "@, timeout_ms),
{
    timed_text("Element with text '", text, "' not found within ", timeout_ms)
}

/// What is said when the URL does not come to hold something.
pub fn url_text(pattern: &str, timeout_ms: u64) -> (out: String)
    ensures
        out@ == timed("URL did not contain '"@, pattern@, "' within "@, timeout_ms),
{
    timed_text("URL did not contain '", pattern, "' within ", timeout_ms)
}

/// What is said when the URL does not change.
pub fn url_unchanged_text(url: &str, timeout_ms: u64) -> (out: String)
    ensures
        out@ == timed("URL did not change from '"@, url@, "' within "@, timeout_ms),
{
    timed_text("URL did not change from '", url, "' within ", timeout_ms)
}

/// What is said when none of several elements appears.
pub fn none_found_text(selectors: &Vec<&str>, timeout_ms: u64) -> (out: String)
    ensures
        out@ == "None of selectors found within "@ + digits(timeout_ms as nat) + "ms: "@
            + debug_text(views(selectors@)),
{
    let mut out = concat3("None of selectors found within ", decimal(timeout_ms).as_str(), "ms: ");
    out.append(debug_list(selectors).as_str());
    out
}

/// Whether the URL holds `pattern`, where the browser told it.
pub fn url_contains(url: Option<&str>, pattern: &str) -> (r: Option<()>)
    ensures
        r is Some <==> (url matches Some(u) && contains(u@, pattern@)),
{
    match url {
        Some(u) => if holds(u, pattern) {
            Some(())
        } else {
            None
        },
        None => None,
    }
}

/// The URL, where the browser told it and it is another than `original`.
pub fn url_changed(url: Option<String>, original: &str) -> (r: Option<String>)
    ensures
        match url {
            Some(u) => if u@ == original@ {
                r is None
            } else {
                r == Some(u)
            },
            None => r is None,
        },
{
    match url {
        Some(u) => if same(u.as_str(), original) {
            None
        } else {
            Some(u)
        },
        None => None,
    }
}

/// What to do after a look at the requests that have not been answered.
pub enum IdleStep {
    /// Nothing: there have been none for long enough.
    Idle,
    /// Give up.
    GiveUp(Error),
    /// Look again after so many milliseconds.
    Sleep(u64),
}

/// What is said when requests keep coming.
pub open spec fn not_idle(timeout_ms: u64, pending: i32) -> Seq<char> {
    "Network not idle after "@ + digits(timeout_ms as nat) + "ms ("@ + signed_digits(pending as int)
        + " pending requests)"@
}

/// The nanoseconds from `since` to `now`; none where the clock went back.
pub open spec fn passed(since: u128, now: u128) -> int {
    if now >= since {
        now - since
    } else {
        0
    }
}

/// A wait for a page without unanswered requests.
pub struct IdleWait {
    /// For how many milliseconds there must be none.
    pub idle_time_ms: u64,
    /// For how many milliseconds to wait.
    pub timeout_ms: u64,
    /// Since when there have been none, in nanoseconds since the wait began.
    pub idle_since: Option<u128>,
}

impl IdleWait {
    /// A wait that begins now.
    pub fn new(idle_time_ms: u64, timeout_ms: u64) -> (w: IdleWait)
        ensures
            w == (IdleWait { idle_time_ms, timeout_ms, idle_since: None }),
    {
        IdleWait { idle_time_ms, timeout_ms, idle_since: None }
    }

    /// There have been no unanswered requests for long enough, at `now`.
    pub open spec fn long_enough(&self, pending: i32, now: u128) -> bool {
        pending == 0 && (self.idle_since matches Some(since) && passed(since, now)
            >= self.idle_time_ms * 1_000_000)
    }

    /// Since when there have been no unanswered requests, as of `now`.
    pub open spec fn since(&self, pending: i32, now: u128) -> Option<u128> {
        if pending == 0 {
            match self.idle_since {
                Some(since) => Some(since),
                None => Some(now),
            }
        } else {
            None
        }
    }

    /// What to do, `now` nanoseconds into the wait, with so many unanswered
    /// requests.
    pub fn wait_for_network_idle(&mut self, pending: i32, now: u128) -> (step: IdleStep)
        ensures
            *final(self) == (IdleWait {
                idle_since: if old(self).long_enough(pending, now) {
                    old(self).idle_since
                } else {
                    old(self).since(pending, now)
                },
                ..*old(self)
            }),
            if old(self).long_enough(pending, now) {
                step is Idle
            } else if is_past(now, old(self).timeout_ms) {
                step matches IdleStep::GiveUp(e) && e@ == ErrorView::Timeout(
                    not_idle(old(self).timeout_ms, pending),
                )
            } else {
                step == IdleStep::Sleep(INTERACTION_DELAY_MS)
            },
    {
        if pending == 0 {
            match self.idle_since {
                Some(since) => {
                    let quiet: u128 = if now >= since {
                        now - since
                    } else {
                        0
                    };
                    if quiet >= self.idle_time_ms as u128 * 1_000_000 {
                        return IdleStep::Idle;
                    }
                },
                None => {
                    self.idle_since = Some(now);
                },
            }
        } else {
            self.idle_since = None;
        }
        if past(now, self.timeout_ms) {
            let mut message = concat3(
                "Network not idle after ",
                decimal(self.timeout_ms).as_str(),
                "ms (",
            );
            message.append(signed_decimal(pending as i64).as_str());
            message.append(" pending requests)");
            return IdleStep::GiveUp(Error::Timeout(message));
        }
        IdleStep::Sleep(INTERACTION_DELAY_MS)
    }
}

/// What to do about something that is tried several times.
pub enum RetryStep {
    /// Try it.
    Try,
    /// Try it again after so many milliseconds.
    SleepThenTry(u64),
    /// Give up.
    GiveUp(Error),
}

/// Something that is tried several times.
pub struct Retry {
    /// How often to try it.
    pub attempts: u32,
    /// Milliseconds between two attempts.
    pub delay_ms: u64,
    /// How often it was tried.
    pub made: u32,
}

impl Retry {
    /// Something that was not tried yet.
    pub fn new(attempts: u32, delay_ms: u64) -> (r: Retry)
        ensures
            r == (Retry { attempts, delay_ms, made: 0 }),
    {
        Retry { attempts, delay_ms, made: 0 }
    }

    /// What to do first: without any attempt, give up at once.
    pub fn begin(&self) -> (step: RetryStep)
        ensures
            if self.attempts > 0 {
                step is Try
            } else {
                step matches RetryStep::GiveUp(e) && e@ == (ErrorView::RetryExhausted {
                    attempts: 0,
                    last_error: Seq::empty(),
                })
            },
    {
        if self.attempts > 0 {
            RetryStep::Try
        } else {
            RetryStep::GiveUp(Error::RetryExhausted { attempts: 0, last_error: String::new() })
        }
    }

    /// With one attempt more behind it.
    pub open spec fn once_more(self) -> Retry {
        Retry { made: (self.made + 1) as u32, ..self }
    }

    /// There is an attempt left after the one that is being made.
    pub open spec fn goes_on(self) -> bool {
        self.made + 1 < self.attempts
    }

    /// What to do after an attempt that failed with the given error.
    pub fn failed(&mut self, error: String) -> (step: RetryStep)
        requires
            old(self).made < old(self).attempts,
        ensures
            *final(self) == old(self).once_more(),
            if old(self).goes_on() {
                step == RetryStep::SleepThenTry(old(self).delay_ms)
            } else {
                step matches RetryStep::GiveUp(e) && e@ == (ErrorView::RetryExhausted {
                    attempts: old(self).attempts,
                    last_error: error@,
                })
            },
    {
        self.made = self.made + 1;
        if self.made < self.attempts {
            RetryStep::SleepThenTry(self.delay_ms)
        } else {
            RetryStep::GiveUp(Error::RetryExhausted { attempts: self.attempts, last_error: error })
        }
    }
}

/// How often something is tried in all, from here on, if every attempt fails.
pub open spec fn attempts_left(r: Retry) -> nat
    decreases r.attempts - r.made,
{
    if r.goes_on() {
        1 + attempts_left(r.once_more())
    } else {
        1
    }
}

/// What keeps failing is tried exactly as often as was asked for.
pub proof fn law_tried_as_often_as_asked(r: Retry)
    requires
        r.made < r.attempts,
    ensures
        attempts_left(r) == r.attempts - r.made,
    decreases r.attempts - r.made,
{
    if r.goes_on() {
        law_tried_as_often_as_asked(r.once_more());
    }
}

/// A page that stays without unanswered requests counts as idle once that has
/// lasted long enough, and not before.
pub proof fn law_quiet_page_becomes_idle(w: IdleWait, first: u128, later: u128)
    requires
        w.idle_since is None,
        first <= later,
    ensures
        !w.long_enough(0, first),
        ({
            let quiet = IdleWait { idle_since: w.since(0, first), ..w };
            quiet.long_enough(0, later) <==> later - first >= w.idle_time_ms * 1_000_000
        }),
{
}

/// What is said of a wait that took too long: what was waited for, and for how many
/// milliseconds.
pub proof fn law_wait_texts(before: Seq<char>, what: Seq<char>, between: Seq<char>, ms: u64)
    ensures
        timed(before, what, between, ms) == before + what + between + digits(ms as nat) + "ms"@,
        not_idle(ms, 0) == "Network not idle after "@ + digits(ms as nat) + "ms ("@ + digits(0)
            + " pending requests)"@,
{
}

/// A wait is over once more time than its limit has passed: a millisecond is a million
/// nanoseconds. Until then there is another look after a tenth of a second.
pub proof fn law_waiting_times(elapsed: u128, limit_ms: u64)
    ensures
        is_past(elapsed, limit_ms) <==> elapsed > limit_ms * 1_000_000,
        POLL_INTERVAL_MS == 100,
        SETTLE_MS == 100,
        INTERACTION_DELAY_MS == 50,
{
}

/// A request that is not answered begins the wait for quiet anew; a quiet that has
/// begun goes on from where it began.
pub proof fn law_quiet_begins_anew(w: IdleWait, pending: i32, now: u128)
    ensures
        pending != 0 ==> w.since(pending, now) is None && !w.long_enough(pending, now),
        pending == 0 && w.idle_since is None ==> w.since(pending, now) == Some(now),
        pending == 0 && w.idle_since is Some ==> w.since(pending, now) == w.idle_since,
        w.idle_since matches Some(since) ==> (now < since && w.long_enough(pending, now)
            ==> w.idle_time_ms == 0),
{
}

} // verus!
