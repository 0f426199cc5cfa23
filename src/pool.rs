//! A pool of API keys scanned in a stable order.
use vstd::prelude::*;
use crate::key::{Key, KeyState, DEFAULT_WINDOW_LIMIT, DEFAULT_WINDOW_SIZE, lemma_consume_keeps_wf, now_millis};

verus! {

/// Index `i` holds the first key of `keys` that a consumption at `now` succeeds on.
pub open spec fn first_admitting(keys: Seq<KeyState>, now: int, i: int) -> bool {
    &&& 0 <= i < keys.len()
    &&& keys[i].consumed_at(now).1
    &&& forall|j: int| 0 <= j < i ==> !(#[trigger] keys[j]).consumed_at(now).1
}

/// The keys after one scan at `now`, and whether the scan handed out a key:
/// consumption is tried on each key in order up to the first that succeeds;
/// the keys after it are untouched.
pub open spec fn scan_at(keys: Seq<KeyState>, now: int) -> (Seq<KeyState>, bool) {
    if exists|i: int| first_admitting(keys, now, i) {
        let i = choose|i: int| first_admitting(keys, now, i);
        (
            Seq::new(
                keys.len(),
                |j: int|
                    if j <= i {
                        keys[j].consumed_at(now).0
                    } else {
                        keys[j]
                    },
            ),
            true,
        )
    } else {
        (keys.map_values(|k: KeyState| k.consumed_at(now).0), false)
    }
}

/// Uses that the keys have left in their current windows.
pub open spec fn spare(keys: Seq<KeyState>) -> int
    decreases keys.len(),
{
    if keys.len() == 0 {
        0
    } else {
        spare(keys.drop_last()) + (keys.last().window_limit - keys.last().uses)
    }
}

/// Whether each scan at the given times handed out a key.
pub open spec fn scan_run(keys: Seq<KeyState>, times: Seq<int>) -> Seq<bool>
    decreases times.len(),
{
    if times.len() == 0 {
        Seq::empty()
    } else {
        let (next, ok) = scan_at(keys, times[0]);
        seq![ok] + scan_run(next, times.drop_first())
    }
}

/// No key's window runs out at any of the given times.
pub open spec fn within_windows(keys: Seq<KeyState>, times: Seq<int>) -> bool {
    forall|i: int, t: int|
        0 <= i < keys.len() && 0 <= t < times.len() ==> !(#[trigger] keys[i]).expired_at(
            #[trigger] times[t],
        )
}

/// Every key has spent between none and all of its quota.
pub open spec fn within_quota(keys: Seq<KeyState>) -> bool {
    forall|i: int| 0 <= i < keys.len() ==> 0 <= (#[trigger] keys[i]).uses <= keys[i].window_limit
}

proof fn lemma_first_exists(keys: Seq<KeyState>, now: int, k: int)
    requires
        0 <= k < keys.len(),
        keys[k].consumed_at(now).1,
    ensures
        exists|i: int| first_admitting(keys, now, i),
    decreases k,
{
    if exists|j: int| 0 <= j < k && (#[trigger] keys[j]).consumed_at(now).1 {
        let j = choose|j: int| 0 <= j < k && (#[trigger] keys[j]).consumed_at(now).1;
        lemma_first_exists(keys, now, j);
    } else {
        assert(first_admitting(keys, now, k));
    }
}

proof fn lemma_spare_bounds(keys: Seq<KeyState>)
    requires
        within_quota(keys),
    ensures
        spare(keys) >= 0,
        spare(keys) == 0 ==> forall|i: int|
            0 <= i < keys.len() ==> (#[trigger] keys[i]).uses == keys[i].window_limit,
        spare(keys) > 0 ==> exists|i: int|
            0 <= i < keys.len() && (#[trigger] keys[i]).uses < keys[i].window_limit,
    decreases keys.len(),
{
    if keys.len() > 0 {
        let init = keys.drop_last();
        assert forall|i: int| 0 <= i < init.len() implies 0 <= (#[trigger] init[i]).uses
            <= init[i].window_limit by {
            assert(init[i] == keys[i]);
        }
        lemma_spare_bounds(init);
        assert(keys.last() == keys[keys.len() - 1]);
        if spare(keys) == 0 {
            assert forall|i: int| 0 <= i < keys.len() implies (#[trigger] keys[i]).uses
                == keys[i].window_limit by {
                if i < keys.len() - 1 {
                    assert(init[i] == keys[i]);
                }
            }
        }
        if spare(init) > 0 {
            let i = choose|i: int| 0 <= i < init.len() && (#[trigger] init[i]).uses < init[i].window_limit;
            assert(keys[i] == init[i]);
        }
    }
}

proof fn lemma_spare_after_use(keys: Seq<KeyState>, i: int, k: KeyState)
    requires
        0 <= i < keys.len(),
        k.uses == keys[i].uses + 1,
        k.window_limit == keys[i].window_limit,
    ensures
        spare(keys.update(i, k)) == spare(keys) - 1,
    decreases keys.len(),
{
    let after = keys.update(i, k);
    if i == keys.len() - 1 {
        assert(after.drop_last() =~= keys.drop_last());
    } else {
        lemma_spare_after_use(keys.drop_last(), i, k);
        assert(after.drop_last() =~= keys.drop_last().update(i, k));
    }
}

proof fn lemma_spare_of_fresh(keys: Seq<KeyState>, limit: int)
    requires
        forall|i: int|
            0 <= i < keys.len() ==> (#[trigger] keys[i]).uses == 0 && keys[i].window_limit
                == limit,
    ensures
        spare(keys) == keys.len() * limit,
    decreases keys.len(),
{
    if keys.len() > 0 {
        let init = keys.drop_last();
        assert forall|i: int| 0 <= i < init.len() implies (#[trigger] init[i]).uses == 0
            && init[i].window_limit == limit by {
            assert(init[i] == keys[i]);
        }
        lemma_spare_of_fresh(init, limit);
        assert(keys.last() == keys[keys.len() - 1]);
        assert(keys.len() * limit == (keys.len() - 1) * limit + limit) by (nonlinear_arith);
    }
}

/// While no window runs out, successive scans hand out a key exactly as many
/// times as the keys have uses to spare, and find none after that.
pub proof fn lemma_scans_use_up_spare(keys: Seq<KeyState>, times: Seq<int>)
    requires
        within_quota(keys),
        within_windows(keys, times),
    ensures
        scan_run(keys, times).len() == times.len(),
        forall|j: int|
            0 <= j < times.len() ==> (#[trigger] scan_run(keys, times)[j] <==> j < spare(keys)),
    decreases times.len(),
{
    if times.len() > 0 {
        let now = times[0];
        let rest = times.drop_first();
        lemma_spare_bounds(keys);
        assert forall|i: int| 0 <= i < keys.len() implies !(#[trigger] keys[i]).expired_at(now) by {
            assert(!keys[i].expired_at(times[0]));
        }
        let (next, ok) = scan_at(keys, now);
        if spare(keys) > 0 {
            let i0 = choose|i: int| 0 <= i < keys.len() && (#[trigger] keys[i]).uses < keys[i].window_limit;
            assert(keys[i0].consumed_at(now).1);
            lemma_first_exists(keys, now, i0);
            let f = choose|i: int| first_admitting(keys, now, i);
            let used = keys[f].consumed_at(now).0;
            assert forall|j: int| 0 <= j < f implies (#[trigger] keys[j]).consumed_at(now).0 == keys[j] by {
                assert(!keys[j].consumed_at(now).1);
            }
            assert(next =~= keys.update(f, used));
            lemma_spare_after_use(keys, f, used);
            assert forall|i: int| 0 <= i < next.len() implies 0 <= (#[trigger] next[i]).uses
                <= next[i].window_limit by {}
            assert forall|i: int, t: int|
                0 <= i < next.len() && 0 <= t < rest.len() implies !(#[trigger] next[i]).expired_at(
                #[trigger] rest[t],
            ) by {
                assert(rest[t] == times[t + 1]);
                assert(!keys[i].expired_at(times[t + 1]));
            }
            lemma_scans_use_up_spare(next, rest);
        } else {
            assert forall|i: int| !first_admitting(keys, now, i) by {
                if 0 <= i < keys.len() {
                    assert(keys[i].uses == keys[i].window_limit);
                }
            }
            assert forall|i: int| 0 <= i < keys.len() implies (#[trigger] keys[i]).consumed_at(now).0 == keys[i] by {
                assert(keys[i].uses == keys[i].window_limit);
            }
            assert(next =~= keys);
            assert forall|i: int, t: int|
                0 <= i < next.len() && 0 <= t < rest.len() implies !(#[trigger] next[i]).expired_at(
                #[trigger] rest[t],
            ) by {
                assert(rest[t] == times[t + 1]);
                assert(!keys[i].expired_at(times[t + 1]));
            }
            lemma_scans_use_up_spare(next, rest);
        }
        let outs = scan_run(keys, times);
        assert forall|j: int| 0 <= j < times.len() implies (#[trigger] outs[j] <==> j < spare(keys)) by {
            if j > 0 {
                assert(outs[j] == scan_run(next, rest)[j - 1]);
            }
        }
    }
}

/// A pool of `n` keys, each with `limit` uses and none spent, hands out a key
/// on exactly the first `n * limit` scans while no window runs out.
pub proof fn lemma_fresh_pool_admits_n_times_limit(keys: Seq<KeyState>, limit: int, times: Seq<int>)
    requires
        limit >= 0,
        forall|i: int|
            0 <= i < keys.len() ==> (#[trigger] keys[i]).uses == 0 && keys[i].window_limit
                == limit,
        within_windows(keys, times),
    ensures
        scan_run(keys, times).len() == times.len(),
        forall|j: int|
            0 <= j < times.len() ==> (#[trigger] scan_run(keys, times)[j] <==> j < keys.len()
                * limit),
{
    lemma_spare_of_fresh(keys, limit);
    lemma_scans_use_up_spare(keys, times);
}

/// The client state: the keys that requests are charged to, in scan order.
pub struct SkyblockApi<'a> {
    keys: Vec<Key<'a>>,
}

impl<'a> View for SkyblockApi<'a> {
    type V = Seq<KeyState>;

    closed spec fn view(&self) -> Seq<KeyState> {
        self.keys@.map_values(|k: Key<'a>| k@)
    }
}

proof fn lemma_first_is_unique(keys: Seq<KeyState>, now: int, i: int, k: int)
    requires
        first_admitting(keys, now, i),
        first_admitting(keys, now, k),
    ensures
        i == k,
{
    if i < k {
        assert(!keys[i].consumed_at(now).1);
    } else if k < i {
        assert(!keys[k].consumed_at(now).1);
    }
}

impl<'a> SkyblockApi<'a> {
    /// A pool of the given keys, each allowed the default quota per window.
    pub fn pooled(keys: Vec<&'a str>) -> (r: SkyblockApi<'a>)
        requires
            keys@.len() > 0,
        ensures
            r@.len() == keys@.len(),
            forall|i: int|
                0 <= i < keys@.len() ==> {
                    &&& (#[trigger] r@[i]).secret == keys@[i]@
                    &&& r@[i].uses == 0
                    &&& r@[i].window_size == DEFAULT_WINDOW_SIZE
                    &&& r@[i].window_limit == DEFAULT_WINDOW_LIMIT
                },
            r.wf(),
    {
        let mut pool: Vec<Key<'a>> = Vec::new();
        let mut i: usize = 0;
        while i < keys.len()
            invariant
                i <= keys@.len(),
                pool@.len() == i,
                forall|j: int|
                    0 <= j < i ==> {
                        &&& (#[trigger] pool@[j])@.secret == keys@[j]@
                        &&& pool@[j]@.uses == 0
                        &&& pool@[j]@.window_size == DEFAULT_WINDOW_SIZE
                        &&& pool@[j]@.window_limit == DEFAULT_WINDOW_LIMIT
                    },
            decreases keys@.len() - i,
        {
            pool.push(Key::new(keys[i], DEFAULT_WINDOW_LIMIT, DEFAULT_WINDOW_SIZE));
            i = i + 1;
        }
        let r = SkyblockApi { keys: pool };
        assert forall|j: int| 0 <= j < r@.len() implies (#[trigger] r@[j]).wf() by {
            assert(r@[j] == pool@[j]@);
        }
        r
    }

    /// A pool of one key.
    pub fn singleton(key: &'a str) -> (r: SkyblockApi<'a>)
        ensures
            r@.len() == 1,
            r@[0].secret == key@,
            r@[0].uses == 0,
            r@[0].window_size == DEFAULT_WINDOW_SIZE,
            r@[0].window_limit == DEFAULT_WINDOW_LIMIT,
            r.wf(),
    {
        let keys: Vec<&'a str> = vec![key];
        SkyblockApi::pooled(keys)
    }

    /// The pool holds at least one key, and each key is well formed.
    pub open spec fn wf(&self) -> bool {
        &&& self@.len() > 0
        &&& forall|i: int| 0 <= i < self@.len() ==> (#[trigger] self@[i]).wf()
    }

    /// Scans the keys in order at time `now` and hands out the first one that
    /// admits a use, charging that use to it; `None` when no key admits one.
    pub fn next_key_at(&mut self, now: u128) -> (r: Option<&'a str>)
        ensures
            (final(self)@, r is Some) == scan_at(old(self)@, now as int),
            r matches Some(k) ==> exists|i: int|
                first_admitting(old(self)@, now as int, i) && k@ == old(self)@[i].secret,
            old(self).wf() ==> final(self).wf(),
    {
        let ghost before = self@;
        let mut i: usize = 0;
        while i < self.keys.len()
            invariant
                i <= self.keys@.len(),
                before == old(self)@,
                self@.len() == before.len(),
                forall|j: int|
                    0 <= j < i ==> {
                        &&& (#[trigger] self@[j]) == before[j].consumed_at(now as int).0
                        &&& !before[j].consumed_at(now as int).1
                    },
                forall|j: int| i <= j < before.len() ==> (#[trigger] self@[j]) == before[j],
                old(self).wf() ==> forall|j: int|
                    0 <= j < before.len() ==> (#[trigger] before[j]).wf(),
            decreases self.keys@.len() - i,
        {
            let ghost prev = self@;
            let ghost prev_keys = self.keys@;
            assert(prev_keys[i as int]@ == prev[i as int]);
            assert(prev[i as int] == before[i as int]);
            let r = self.keys[i].consume_at(now);
            proof {
                assert(self.keys@ =~= prev_keys.update(i as int, self.keys@[i as int]));
                assert(self.keys@[i as int]@ == before[i as int].consumed_at(now as int).0);
                assert(self@ =~= prev.update(i as int, before[i as int].consumed_at(now as int).0));
            }
            if r.is_some() {
                proof {
                    assert forall|j: int| 0 <= j < i implies !(#[trigger] before[j]).consumed_at(
                        now as int,
                    ).1 by {
                        assert(prev[j] == before[j].consumed_at(now as int).0);
                    }
                    assert(first_admitting(before, now as int, i as int));
                    let c = choose|c: int| first_admitting(before, now as int, c);
                    lemma_first_is_unique(before, now as int, i as int, c);
                    assert(self@ =~= scan_at(before, now as int).0);
                    assert(scan_at(before, now as int).1);
                    assert(r->0@ == before[i as int].secret);
                    if old(self).wf() {
                        assert forall|j: int| 0 <= j < self@.len() implies (#[trigger] self@[j]).wf() by {
                            lemma_consume_keeps_wf(before[j], now as int);
                        }
                    }
                }
                return r;
            }
            i = i + 1;
        }
        proof {
            assert forall|c: int| !first_admitting(before, now as int, c) by {
                if 0 <= c < before.len() {
                    assert(self@[c] == before[c].consumed_at(now as int).0);
                    assert(!before[c].consumed_at(now as int).1);
                }
            }
            assert(self@ =~= scan_at(before, now as int).0);
            if old(self).wf() {
                assert forall|j: int| 0 <= j < self@.len() implies (#[trigger] self@[j]).wf() by {
                    lemma_consume_keeps_wf(before[j], now as int);
                }
            }
        }
        None
    }

    /// Scans the keys once, now; see [`SkyblockApi::next_key_at`].
    pub fn next_key(&mut self) -> (r: Option<&'a str>)
        ensures
            exists|now: int| now >= 0 && (final(self)@, r is Some) == scan_at(old(self)@, now),
            r matches Some(k) ==> exists|i: int|
                0 <= i < old(self)@.len() && k@ == old(self)@[i].secret,
            old(self).wf() ==> final(self).wf(),
    {
        self.next_key_at(now_millis())
    }
}

} // verus!
