//! Politeness towards the origin of the books: which hosts are throttled,
//! when the next request may go out, and what a response status means.
//!
//! Time is counted in milliseconds from a moment that the caller picks.
//! The caller holds one `RateLimiter` behind a lock, calls `reserve`
//! under the lock with the present time, and sleeps for the delay that
//! comes back after it has let go of the lock.

use crate::types::same_text;
use crate::text::{chars_match_at, chars_of};
use vstd::prelude::*;
use vstd::string::StringExecFns;

verus! {

/// Least time between two requests to a throttled host, in milliseconds.
pub const MIN_INTERVAL_MS: u64 = 2000;

/// Whether a host is the throttled origin `gutenberg.org` or one of its
/// subdomains.
pub open spec fn is_gutenberg_host(host: Seq<char>) -> bool {
    host == "gutenberg.org"@ || (".gutenberg.org"@.len() <= host.len() && host.subrange(
        host.len() - ".gutenberg.org"@.len(),
        host.len() as int,
    ) == ".gutenberg.org"@)
}

/// Tests whether a host is throttled.
pub fn gutenberg_host(host: &str) -> (r: bool)
    ensures
        r == is_gutenberg_host(host@),
{
    if same_text(host, "gutenberg.org") {
        return true;
    }
    let hay = chars_of(host);
    let tail = chars_of(".gutenberg.org");
    if tail.len() > hay.len() {
        return false;
    }
    chars_match_at(hay.as_slice(), tail.as_slice(), hay.len() - tail.len())
}

/// The host of an address as `url::Url::parse` and `url::Url::host_str`
/// give it; `None` where the address does not parse or has no host.
pub uninterp spec fn url_host(url: Seq<char>) -> Option<Seq<char>>;

/// Parses an address with `url::Url::parse` and hands out its host, as
/// `url::Url::host_str` gives it.
#[verifier::external_body]
pub(crate) fn host_of(url: &str) -> (r: Option<String>)
    ensures
        match r {
            Some(host) => url_host(url@) == Some(host@),
            None => url_host(url@) is None,
        },
{
    match url::Url::parse(url) {
        Ok(parsed) => parsed.host_str().map(|host| host.to_string()),
        Err(_) => None,
    }
}

/// Whether requests to an address are throttled: its host is a throttled
/// one.
pub open spec fn is_throttled(url: Seq<char>) -> bool {
    match url_host(url) {
        Some(host) => is_gutenberg_host(host),
        None => false,
    }
}

/// Tests whether requests to an address are throttled.
pub fn needs_throttle(url: &str) -> (r: bool)
    ensures
        r == is_throttled(url@),
{
    match host_of(url) {
        Some(host) => gutenberg_host(host.as_str()),
        None => false,
    }
}

/// The moment from which the next request to a throttled host may go out.
#[derive(Debug, Clone, Copy, PartialEq, Eq, Structural)]
pub struct RateLimiter {
    pub next_allowed: u64,
}

/// The moment at which a caller that asks at `now` may go: at once, or at
/// the moment reserved for it.
pub open spec fn wake_time(next_allowed: u64, now: u64) -> u64 {
    if now >= next_allowed {
        now
    } else {
        next_allowed
    }
}

/// The moment reserved for the caller after one that wakes at `wake`; it
/// stops at the largest moment that can be counted.
pub open spec fn slot_after(wake: u64) -> u64 {
    if wake <= u64::MAX - 2000 {
        (wake + 2000) as u64
    } else {
        u64::MAX
    }
}

/// The moments at which callers wake that ask, one after the other, at
/// the moments `nows` of a limiter whose next allowed moment is
/// `next_allowed`.
pub open spec fn wake_times(next_allowed: u64, nows: Seq<u64>) -> Seq<u64>
    decreases nows.len(),
{
    if nows.len() == 0 {
        Seq::empty()
    } else {
        seq![wake_time(next_allowed, nows[0])] + wake_times(
            slot_after(wake_time(next_allowed, nows[0])),
            nows.drop_first(),
        )
    }
}

impl RateLimiter {
    /// A limiter that lets the first caller go at once.
    pub fn new(now: u64) -> (r: RateLimiter)
        ensures
            r.next_allowed == now,
    {
        RateLimiter { next_allowed: now }
    }

    /// Reserves the next slot for a caller that asks at `now`. Returns how
    /// long the caller has to wait.
    pub fn reserve(&mut self, now: u64) -> (delay: u64)
        ensures
            now + delay == wake_time(old(self).next_allowed, now),
            final(self).next_allowed == slot_after(wake_time(old(self).next_allowed, now)),
    {
        let delay: u64 = if self.next_allowed > now {
            self.next_allowed - now
        } else {
            0
        };
        let wake: u64 = now + delay;
        self.next_allowed = if wake <= u64::MAX - MIN_INTERVAL_MS {
            wake + MIN_INTERVAL_MS
        } else {
            u64::MAX
        };
        delay
    }

    /// Reserves a slot only where requests to the address are throttled.
    pub fn throttle_if_needed(&mut self, url: &str, now: u64) -> (delay: u64)
        ensures
            is_throttled(url@) ==> now + delay == wake_time(old(self).next_allowed, now)
                && final(self).next_allowed == slot_after(
                wake_time(old(self).next_allowed, now),
            ),
            !is_throttled(url@) ==> delay == 0 && *final(self) == *old(self),
    {
        if needs_throttle(url) {
            self.reserve(now)
        } else {
            0
        }
    }
}

/// No caller wakes before it asks, nor before the moment reserved for it.
pub proof fn lemma_wake_not_early(next_allowed: u64, now: u64)
    ensures
        wake_time(next_allowed, now) >= now,
        wake_time(next_allowed, now) >= next_allowed,
{
}

/// Of two callers that reserve one after the other, the second wakes at
/// least the minimum interval after the first, whenever each of them
/// asks. The one exception is the end of the clock: a caller may wake at
/// the last moment that can be counted.
pub proof fn lemma_two_callers_are_spaced(next_allowed: u64, now1: u64, now2: u64)
    ensures
        wake_time(slot_after(wake_time(next_allowed, now1)), now2) >= wake_time(next_allowed, now1)
            + 2000 || wake_time(slot_after(wake_time(next_allowed, now1)), now2) == u64::MAX,
{
}

/// Any number of callers that reserve one after the other, whenever each
/// of them asks, wake at moments that are pairwise at least the minimum
/// interval apart: no two of them wake together. None wakes before it
/// asks. The one exception is the end of the clock: a caller may wake at
/// the last moment that can be counted.
pub proof fn lemma_callers_are_spaced(next_allowed: u64, nows: Seq<u64>)
    ensures
        wake_times(next_allowed, nows).len() == nows.len(),
        forall|i: int|
            0 <= i < nows.len() ==> #[trigger] wake_times(next_allowed, nows)[i] >= nows[i]
                && wake_times(next_allowed, nows)[i] >= next_allowed,
        forall|i: int, j: int|
            0 <= i < j < nows.len() ==> #[trigger] wake_times(next_allowed, nows)[j]
                >= #[trigger] wake_times(next_allowed, nows)[i] + 2000 * (j - i) || wake_times(
                next_allowed,
                nows,
            )[j] == u64::MAX,
    decreases nows.len(),
{
    if nows.len() > 0 {
        let first = wake_time(next_allowed, nows[0]);
        let rest = wake_times(slot_after(first), nows.drop_first());
        let all = wake_times(next_allowed, nows);
        lemma_callers_are_spaced(slot_after(first), nows.drop_first());
        assert(all =~= seq![first] + rest);
        assert(all[0] == first);
        assert forall|i: int| 0 <= i < nows.len() implies #[trigger] all[i] >= nows[i] && all[i]
            >= next_allowed by {
            if i > 0 {
                assert(all[i] == rest[i - 1]);
                assert(nows.drop_first()[i - 1] == nows[i]);
            }
        }
        assert forall|i: int, j: int| 0 <= i < j < nows.len() implies #[trigger] all[j]
            >= #[trigger] all[i] + 2000 * (j - i) || all[j] == u64::MAX by {
            assert(all[j] == rest[j - 1]);
            if i == 0 {
                assert(rest[j - 1] >= slot_after(first));
                assert(rest[0] >= slot_after(first));
                if j - 1 > 0 {
                    assert(rest[j - 1] >= rest[0] + 2000 * (j - 1) || rest[j - 1] == u64::MAX);
                }
            } else {
                assert(all[i] == rest[i - 1]);
                assert(rest[j - 1] >= rest[i - 1] + 2000 * ((j - 1) - (i - 1)) || rest[j - 1]
                    == u64::MAX);
            }
        }
    }
}

/// What the status of a response means for a download.
#[derive(Debug, Clone, Copy, PartialEq, Eq, Structural)]
pub enum ResponseKind {
    /// The body is the container.
    Success,
    /// The origin blocks or throttles the caller: status 403 or 429.
    Blocked,
    /// Any other status outside `200..=299`.
    Failed,
}

/// The meaning of a status code.
pub open spec fn response_kind(status: u16) -> ResponseKind {
    if status == 403 || status == 429 {
        ResponseKind::Blocked
    } else if 200 <= status && status <= 299 {
        ResponseKind::Success
    } else {
        ResponseKind::Failed
    }
}

/// What the user is told when the origin blocks or throttles a request.
/// `status` is the status line of the response, such as `429 Too Many
/// Requests`.
pub open spec fn blocked_message_of(status: Seq<char>) -> Seq<char> {
    "Project Gutenberg blocked/rate-limited this request (HTTP "@ + status
        + "). Try pausing/resuming, or download fewer books / set up a local mirror per https://www.gutenberg.org/policy/robot"@
}

/// Makes the message for a blocked request.
pub fn blocked_message(status: &str) -> (r: String)
    ensures
        r@ == blocked_message_of(status@),
{
    let mut r = String::from_str("Project Gutenberg blocked/rate-limited this request (HTTP ");
    r.append(status);
    r.append(
        "). Try pausing/resuming, or download fewer books / set up a local mirror per https://www.gutenberg.org/policy/robot",
    );
    r
}

/// Tells what the status of a response means for a download.
pub fn classify_status(status: u16) -> (r: ResponseKind)
    ensures
        r == response_kind(status),
{
    if status == 403 || status == 429 {
        ResponseKind::Blocked
    } else if 200 <= status && status <= 299 {
        ResponseKind::Success
    } else {
        ResponseKind::Failed
    }
}

} // verus!
