//! A single API key together with its usage window.
use vstd::prelude::*;

verus! {

/// Default length of a usage window, in seconds.
pub const DEFAULT_WINDOW_SIZE: u64 = 60;

/// Default number of uses allowed in one window.
pub const DEFAULT_WINDOW_LIMIT: usize = 120;

/// Whole seconds elapsed from `start` to `now`, both in milliseconds since the
/// Unix epoch. A clock that went backwards counts as no time elapsed.
pub open spec fn elapsed_secs(start: int, now: int) -> int {
    if now >= start {
        (now - start) / 1000
    } else {
        0
    }
}

/// The mathematical model of a [`Key`].
pub struct KeyState {
    pub secret: Seq<char>,
    /// Start of the current window, in milliseconds since the Unix epoch.
    pub window: int,
    pub uses: int,
    pub window_size: int,
    pub window_limit: int,
}

impl KeyState {
    pub open spec fn expired_at(self, now: int) -> bool {
        elapsed_secs(self.window, now) >= self.window_size
    }

    pub open spec fn admits_at(self, now: int) -> bool {
        self.uses < self.window_limit || self.expired_at(now)
    }

    /// The key after the expiry check of a consumption at `now`.
    pub open spec fn refreshed_at(self, now: int) -> KeyState {
        if self.expired_at(now) {
            KeyState { window: now, uses: 0, ..self }
        } else {
            self
        }
    }

    /// The key after a consumption attempt at `now`, and whether it succeeded.
    pub open spec fn consumed_at(self, now: int) -> (KeyState, bool) {
        let fresh = self.refreshed_at(now);
        if fresh.admits_at(now) {
            (KeyState { uses: fresh.uses + 1, ..fresh }, true)
        } else {
            (fresh, false)
        }
    }

    /// Uses stay within the limit, unless every window is expired at once.
    pub open spec fn wf(self) -> bool {
        &&& 0 <= self.uses
        &&& 0 <= self.window_size
        &&& 0 <= self.window_limit
        &&& (self.uses <= self.window_limit || self.window_size == 0)
    }
}

/// The successive outcomes of consumption attempts on a key at the given times,
/// and the key after the last of them.
pub open spec fn consume_run(k: KeyState, times: Seq<int>) -> (KeyState, Seq<bool>)
    decreases times.len(),
{
    if times.len() == 0 {
        (k, Seq::empty())
    } else {
        let (next, ok) = k.consumed_at(times[0]);
        let (last, rest) = consume_run(next, times.drop_first());
        (last, seq![ok] + rest)
    }
}

/// A key whose window lasts zero seconds admits every consumption, whatever its
/// limit and usage: the window restarts on each call.
pub proof fn lemma_zero_window_always_admits(k: KeyState, now: int)
    requires
        k.window_size == 0,
    ensures
        k.consumed_at(now).1,
{
}

/// Within one window that does not run out, a key with `u` of `L` uses spent
/// admits exactly the next `L - u` consumptions and refuses every one after.
pub proof fn lemma_window_admits_its_limit(k: KeyState, times: Seq<int>)
    requires
        0 <= k.uses <= k.window_limit,
        forall|j: int| 0 <= j < times.len() ==> !k.expired_at(#[trigger] times[j]),
    ensures
        consume_run(k, times).1.len() == times.len(),
        forall|j: int|
            0 <= j < times.len() ==> (#[trigger] consume_run(k, times).1[j] <==> j < k.window_limit
                - k.uses),
    decreases times.len(),
{
    if times.len() > 0 {
        let (next, ok) = k.consumed_at(times[0]);
        let rest = times.drop_first();
        assert forall|j: int| 0 <= j < rest.len() implies !next.expired_at(#[trigger] rest[j]) by {
            assert(rest[j] == times[j + 1]);
        }
        lemma_window_admits_its_limit(next, rest);
        let outs = consume_run(k, times).1;
        assert forall|j: int| 0 <= j < times.len() implies (#[trigger] outs[j] <==> j
            < k.window_limit - k.uses) by {
            if j > 0 {
                assert(outs[j] == consume_run(next, rest).1[j - 1]);
            }
        }
    }
}

/// A consumption attempt keeps a well-formed key well formed.
pub proof fn lemma_consume_keeps_wf(k: KeyState, now: int)
    requires
        k.wf(),
    ensures
        k.consumed_at(now).0.wf(),
{
}

/// Once its window has run out, a key with a positive limit admits the next
/// consumption and restarts its window at that moment with one use counted.
pub proof fn lemma_expired_window_restarts(k: KeyState, now: int)
    requires
        k.window_limit > 0,
        k.expired_at(now),
    ensures
        k.consumed_at(now).1,
        k.consumed_at(now).0.uses == 1,
        k.consumed_at(now).0.window == now,
{
}

/// Relies on `SystemTime::now` and `SystemTime::duration_since(UNIX_EPOCH)`:
/// the wall-clock time in milliseconds since the Unix epoch (0 before it).
/// Nothing is promised of the value: the clock may go backwards.
#[verifier::external_body]
pub(crate) fn now_millis() -> (r: u128) {
    match std::time::SystemTime::now().duration_since(std::time::UNIX_EPOCH) {
        Ok(d) => d.as_millis(),
        Err(_) => 0,
    }
}

/// An API key with a fixed quota of uses per time window.
#[derive(Debug)]
pub struct Key<'a> {
    key: &'a str,
    window: u128,
    uses: usize,
    window_size: u64,
    window_limit: usize,
}

impl<'a> View for Key<'a> {
    type V = KeyState;

    closed spec fn view(&self) -> KeyState {
        KeyState {
            secret: self.key@,
            window: self.window as int,
            uses: self.uses as int,
            window_size: self.window_size as int,
            window_limit: self.window_limit as int,
        }
    }
}

impl<'a> Key<'a> {
    /// A key whose first window starts at `now` (milliseconds since the epoch).
    pub fn new_at(key: &'a str, window_limit: usize, window_size: u64, now: u128) -> (r: Key<'a>)
        ensures
            r@ == (KeyState {
                secret: key@,
                window: now as int,
                uses: 0,
                window_size: window_size as int,
                window_limit: window_limit as int,
            }),
            r@.wf(),
    {
        Key { key, window: now, uses: 0, window_size, window_limit }
    }

    /// A key whose first window starts now.
    pub fn new(key: &'a str, window_limit: usize, window_size: u64) -> (r: Key<'a>)
        ensures
            r@.secret == key@,
            r@.uses == 0,
            r@.window_size == window_size,
            r@.window_limit == window_limit,
            r@.wf(),
    {
        Key::new_at(key, window_limit, window_size, now_millis())
    }

    /// Whether the current window has run out at time `now`.
    pub fn timeout_at(&self, now: u128) -> (r: bool)
        ensures
            r == self@.expired_at(now as int),
    {
        let elapsed: u128 = if now >= self.window {
            (now - self.window) / 1000
        } else {
            0
        };
        elapsed >= self.window_size as u128
    }

    /// Whether the current window has run out.
    pub fn timeout(&self) -> (r: bool)
        ensures
            exists|now: int| now >= 0 && r == self@.expired_at(now),
            self@.window_size == 0 ==> r,
    {
        self.timeout_at(now_millis())
    }

    /// Whether a use would be admitted at time `now`, without consuming it.
    pub fn can_use_at(&self, now: u128) -> (r: bool)
        ensures
            r == self@.admits_at(now as int),
    {
        self.uses < self.window_limit || self.timeout_at(now)
    }

    /// Whether a use would be admitted now, without consuming it.
    pub fn can_use(&mut self) -> (r: bool)
        ensures
            *final(self) == *old(self),
            exists|now: int| now >= 0 && r == old(self)@.admits_at(now),
            old(self)@.uses < old(self)@.window_limit || old(self)@.window_size == 0 ==> r,
    {
        self.can_use_at(now_millis())
    }

    /// Consumes one use at time `now`: an expired window is restarted at `now`
    /// first; then the use is counted and the key handed out if it is admitted.
    pub fn consume_at(&mut self, now: u128) -> (r: Option<&'a str>)
        ensures
            (final(self)@, r is Some) == old(self)@.consumed_at(now as int),
            r matches Some(k) ==> k@ == old(self)@.secret,
            old(self)@.wf() ==> final(self)@.wf(),
    {
        if self.timeout_at(now) {
            self.window = now;
            self.uses = 0;
        }
        if self.can_use_at(now) {
            self.uses = self.uses + 1;
            Some(self.key)
        } else {
            None
        }
    }

    /// Consumes one use now; see [`Key::consume_at`].
    pub fn consume(&mut self) -> (r: Option<&'a str>)
        ensures
            exists|now: int| now >= 0 && (final(self)@, r is Some) == old(self)@.consumed_at(now),
            r matches Some(k) ==> k@ == old(self)@.secret,
            old(self)@.window_size == 0 ==> r is Some,
            old(self)@.wf() ==> final(self)@.wf(),
    {
        self.consume_at(now_millis())
    }
}

} // verus!
