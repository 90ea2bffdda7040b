//! Per-remote-address sliding-window admission control. Each address keeps
//! its recorded request instants, most recent first; on every request the
//! stale instants (a full day old or older) are lazily evicted, the request
//! is recorded, and the cumulative minute/hour/day counts decide admission.
//! Windows of different addresses are fully independent.
use vstd::prelude::*;

verus! {

pub const MINUTE_WINDOW_SECS: u64 = 60;

pub const HOUR_WINDOW_SECS: u64 = 3600;

pub const DAY_WINDOW_SECS: u64 = 86400;

/// Default limits: two requests per second sustained over a minute, half
/// that rate over an hour, a quarter of it over a day.
pub const MINUTE_RATE_LIMIT: usize = 120;

pub const HOUR_RATE_LIMIT: usize = 120 * 30;

pub const DAY_RATE_LIMIT: usize = 120 * 30 * 12;

/// Age of a recorded instant at `now`; an instant recorded ahead of `now`
/// (a clock observed to step backwards) counts as age zero.
pub open spec fn age_of(now: u64, t: u64) -> int {
    if t <= now {
        now - t
    } else {
        0
    }
}

/// Number of recorded instants whose age is under `bound`. The three
/// window counts are nested ranges of the same sequence, so they are
/// cumulative by construction: everything inside the minute window also
/// counts toward the hour and day windows.
pub open spec fn count_within(s: Seq<u64>, now: u64, bound: int) -> nat
    decreases s.len(),
{
    if s.len() == 0 {
        0
    } else {
        count_within(s.drop_last(), now, bound) + (if age_of(now, s.last()) < bound {
            1nat
        } else {
            0nat
        })
    }
}

/// The window after lazy eviction: instants aged a full day or more drop
/// out, the rest keep their order.
pub open spec fn prune(s: Seq<u64>, now: u64) -> Seq<u64>
    decreases s.len(),
{
    if s.len() == 0 {
        s
    } else if age_of(now, s.last()) >= DAY_WINDOW_SECS {
        prune(s.drop_last(), now)
    } else {
        prune(s.drop_last(), now).push(s.last())
    }
}

/// Most-recent-first: recorded instants never increase along the window.
pub open spec fn sorted_desc(s: Seq<u64>) -> bool {
    forall|i: int, j: int| #![trigger s[i], s[j]] 0 <= i <= j < s.len() ==> s[i] >= s[j]
}

/// The instant a request is recorded at: `now`, unless the clock stepped
/// backwards past the newest recorded instant, which is then reused so
/// recency order is kept.
pub open spec fn recorded_instant(w: Seq<u64>, now: u64) -> u64 {
    if w.len() > 0 && w[0] > now {
        w[0]
    } else {
        now
    }
}

/// One request's effect on a window: stale instants evicted, the request's
/// instant recorded in front. The instant stays recorded whether or not
/// the request is admitted.
pub open spec fn next_window(w: Seq<u64>, now: u64) -> Seq<u64> {
    prune(w, now).insert(0, recorded_instant(w, now))
}

/// The admission decision over a window: admitted exactly when every
/// cumulative count stays within its limit.
pub open spec fn admit_decision(
    w: Seq<u64>,
    now: u64,
    minute_limit: int,
    hour_limit: int,
    day_limit: int,
) -> bool {
    &&& count_within(w, now, MINUTE_WINDOW_SECS as int) <= minute_limit
    &&& count_within(w, now, HOUR_WINDOW_SECS as int) <= hour_limit
    &&& count_within(w, now, DAY_WINDOW_SECS as int) <= day_limit
}

/// Eviction removes nothing from a recency-ordered window whose oldest
/// entry is still fresh.
proof fn lemma_prune_fresh(s: Seq<u64>, now: u64)
    requires
        sorted_desc(s),
        s.len() > 0 ==> age_of(now, s.last()) < DAY_WINDOW_SECS,
    ensures
        prune(s, now) == s,
    decreases s.len(),
{
    if s.len() > 0 {
        assert forall|i: int, j: int|
            #![trigger s.drop_last()[i], s.drop_last()[j]]
            0 <= i <= j < s.drop_last().len() implies s.drop_last()[i] >= s.drop_last()[j] by {
            assert(s.drop_last()[i] == s[i]);
            assert(s.drop_last()[j] == s[j]);
        }
        if s.len() > 1 {
            assert(s.drop_last().last() == s[s.len() - 2]);
            assert(s[s.len() - 2] >= s[s.len() - 1]);
        }
        lemma_prune_fresh(s.drop_last(), now);
        assert(s.drop_last().push(s.last()) =~= s);
    }
}

/// Counts add over concatenation.
proof fn lemma_count_within_add(a: Seq<u64>, b: Seq<u64>, now: u64, bound: int)
    ensures
        count_within(a + b, now, bound) == count_within(a, now, bound) + count_within(
            b,
            now,
            bound,
        ),
    decreases b.len(),
{
    if b.len() == 0 {
        assert(a + b =~= a);
    } else {
        assert((a + b).drop_last() =~= a + b.drop_last());
        assert((a + b).last() == b.last());
        lemma_count_within_add(a, b.drop_last(), now, bound);
    }
}

/// Cumulative-window law: a request aged into the hour bucket (at least a
/// minute, less than an hour old) contributes to the hour and day counts
/// but not to the minute count, wherever it stands in the window.
pub proof fn lemma_hour_bucket_is_cumulative(a: Seq<u64>, b: Seq<u64>, t: u64, now: u64)
    requires
        MINUTE_WINDOW_SECS <= age_of(now, t) < HOUR_WINDOW_SECS,
    ensures
        count_within(a + seq![t] + b, now, MINUTE_WINDOW_SECS as int) == count_within(
            a + b,
            now,
            MINUTE_WINDOW_SECS as int,
        ),
        count_within(a + seq![t] + b, now, HOUR_WINDOW_SECS as int) == count_within(
            a + b,
            now,
            HOUR_WINDOW_SECS as int,
        ) + 1,
        count_within(a + seq![t] + b, now, DAY_WINDOW_SECS as int) == count_within(
            a + b,
            now,
            DAY_WINDOW_SECS as int,
        ) + 1,
{
    let single = seq![t];
    assert(single.len() == 1);
    assert(single.drop_last() =~= Seq::<u64>::empty());
    assert(single.drop_last() == Seq::<u64>::empty());
    assert(count_within(Seq::<u64>::empty(), now, MINUTE_WINDOW_SECS as int) == 0);
    assert(count_within(Seq::<u64>::empty(), now, HOUR_WINDOW_SECS as int) == 0);
    assert(count_within(Seq::<u64>::empty(), now, DAY_WINDOW_SECS as int) == 0);
    assert(single.last() == t);
    assert(age_of(now, single.last()) >= MINUTE_WINDOW_SECS);
    assert(count_within(single, now, MINUTE_WINDOW_SECS as int) == 0);
    assert(count_within(single, now, HOUR_WINDOW_SECS as int) == 1);
    assert(count_within(single, now, DAY_WINDOW_SECS as int) == 1);
    assert(a + seq![t] + b == (a + single) + b);
    lemma_count_within_add(a, single, now, MINUTE_WINDOW_SECS as int);
    lemma_count_within_add(a + single, b, now, MINUTE_WINDOW_SECS as int);
    lemma_count_within_add(a, b, now, MINUTE_WINDOW_SECS as int);
    lemma_count_within_add(a, single, now, HOUR_WINDOW_SECS as int);
    lemma_count_within_add(a + single, b, now, HOUR_WINDOW_SECS as int);
    lemma_count_within_add(a, b, now, HOUR_WINDOW_SECS as int);
    lemma_count_within_add(a, single, now, DAY_WINDOW_SECS as int);
    lemma_count_within_add(a + single, b, now, DAY_WINDOW_SECS as int);
    lemma_count_within_add(a, b, now, DAY_WINDOW_SECS as int);
}

fn age_of_exec(now: u64, t: u64) -> (a: u64)
    ensures
        a == age_of(now, t),
{
    if t <= now {
        now - t
    } else {
        0
    }
}

/// One address's recorded request instants, most recent first.
pub struct RateWindow {
    times: Vec<u64>,
}

impl View for RateWindow {
    type V = Seq<u64>;

    closed spec fn view(&self) -> Seq<u64> {
        self.times@
    }
}

/// The sliding-window rate limiter: a window per remote address, created
/// on the first request from that address and never deleted.
pub struct RateLimiter {
    addrs: Vec<u128>,
    windows: Vec<RateWindow>,
}

impl RateLimiter {
    pub closed spec fn addr_seq(&self) -> Seq<u128> {
        self.addrs@
    }

    pub closed spec fn window_seq(&self) -> Seq<Seq<u64>> {
        self.windows@.map_values(|w: RateWindow| w@)
    }

    /// One window per address, no address twice, every window in recency
    /// order.
    pub open spec fn wf(&self) -> bool {
        &&& self.addr_seq().len() == self.window_seq().len()
        &&& forall|i: int, j: int|
            #![trigger self.addr_seq()[i], self.addr_seq()[j]]
            0 <= i < j < self.addr_seq().len() ==> self.addr_seq()[i] != self.addr_seq()[j]
        &&& forall|i: int|
            0 <= i < self.window_seq().len() ==> sorted_desc(#[trigger] self.window_seq()[i])
    }

    /// The address has sent a request before.
    pub open spec fn has_addr(&self, a: u128) -> bool {
        self.addr_seq().contains(a)
    }

    /// The window the limiter keeps for an address; empty before its first
    /// request.
    pub open spec fn window_of(&self, a: u128) -> Seq<u64> {
        if self.has_addr(a) {
            self.window_seq()[self.addr_seq().index_of(a)]
        } else {
            Seq::empty()
        }
    }

    pub fn new() -> (r: RateLimiter)
        ensures
            r.wf(),
            forall|a: u128| !r.has_addr(a) && r.window_of(a) == Seq::<u64>::empty(),
    {
        RateLimiter { addrs: Vec::new(), windows: Vec::new() }
    }

    /// The admission check: evicts the address's stale instants, records
    /// the request, and admits it exactly when all three cumulative counts
    /// stay within their limits. Only this address's window changes;
    /// windows of other addresses are untouched and fully independent.
    pub fn check_limit(
        &mut self,
        addr: u128,
        now: u64,
        minute_limit: usize,
        hour_limit: usize,
        day_limit: usize,
    ) -> (admitted: bool)
        requires
            old(self).wf(),
        ensures
            final(self).wf(),
            final(self).has_addr(addr),
            final(self).window_of(addr) == next_window(old(self).window_of(addr), now),
            forall|a: u128|
                a != addr ==> #[trigger] final(self).window_of(a) == old(self).window_of(a)
                    && final(self).has_addr(a) == old(self).has_addr(a),
            admitted == admit_decision(
                next_window(old(self).window_of(addr), now),
                now,
                minute_limit as int,
                hour_limit as int,
                day_limit as int,
            ),
    {
        let n = self.addrs.len();
        let mut idx: usize = 0;
        while idx < n && self.addrs[idx] != addr
            invariant
                n == self.addr_seq().len(),
                0 <= idx <= n,
                forall|j: int| 0 <= j < idx ==> self.addr_seq()[j] != addr,
                *self == *old(self),
            decreases n - idx,
        {
            idx = idx + 1;
        }
        let found = idx < n;
        if !found {
            // first request from this address: create its window
            self.addrs.push(addr);
            self.windows.push(RateWindow { times: Vec::new() });
            idx = n;
            proof {
                assert(self.window_seq() =~= old(self).window_seq().push(Seq::<u64>::empty()));
                assert(!old(self).has_addr(addr));
            }
        }
        proof {
            assert(self.addr_seq()[idx as int] == addr);
            assert(self.has_addr(addr));
            lemma_unique_index_of(self.addr_seq(), addr, idx as int);
            assert(self.window_of(addr) == self.window_seq()[idx as int]);
            if found {
                assert(*self == *old(self));
            } else {
                assert(self.window_seq()[idx as int] == Seq::<u64>::empty());
                assert(self.window_of(addr) == old(self).window_of(addr));
            }
        }
        let ghost w0 = self.window_seq()[idx as int];
        let ghost w_orig = old(self).window_of(addr);
        proof {
            assert(w0 == w_orig);
            assert(sorted_desc(w0));
        }
        // take the window out, mutate it, put it back
        let mut w = RateWindow { times: Vec::new() };
        self.windows.set_and_swap(idx, &mut w);
        // the instant this request is recorded at
        let ins: u64 = if w.times.len() > 0 {
            let h = w.times[0];
            if h > now {
                h
            } else {
                now
            }
        } else {
            now
        };
        proof {
            assert(ins == recorded_instant(w0, now));
        }
        // lazy eviction of instants a day old or older, oldest first
        while w.times.len() > 0 && age_of_exec(now, w.times[w.times.len() - 1])
            >= DAY_WINDOW_SECS
            invariant
                prune(w.times@, now) == prune(w0, now),
                w.times@.len() <= w0.len(),
                w.times@ == w0.subrange(0, w.times@.len() as int),
            decreases w.times@.len(),
        {
            proof {
                assert(w.times@.drop_last() =~= w0.subrange(0, w.times@.len() - 1));
            }
            w.times.pop();
        }
        proof {
            assert forall|i: int, j: int|
                #![trigger w.times@[i], w.times@[j]]
                0 <= i <= j < w.times@.len() implies w.times@[i] >= w.times@[j] by {
                assert(w.times@[i] == w0[i]);
                assert(w.times@[j] == w0[j]);
            }
            lemma_prune_fresh(w.times@, now);
            assert(w.times@ == prune(w0, now));
        }
        w.times.insert(0, ins);
        proof {
            assert(w.times@ == next_window(w0, now));
        }
        // cumulative counts over the updated window
        let len = w.times.len();
        let mut cm: usize = 0;
        let mut ch: usize = 0;
        let mut cd: usize = 0;
        let mut i: usize = 0;
        proof {
            assert(w.times@.subrange(0, 0) =~= Seq::<u64>::empty());
        }
        while i < len
            invariant
                len == w.times@.len(),
                0 <= i <= len,
                cm <= i,
                ch <= i,
                cd <= i,
                cm == count_within(w.times@.subrange(0, i as int), now, MINUTE_WINDOW_SECS as int),
                ch == count_within(w.times@.subrange(0, i as int), now, HOUR_WINDOW_SECS as int),
                cd == count_within(w.times@.subrange(0, i as int), now, DAY_WINDOW_SECS as int),
            decreases len - i,
        {
            let a = age_of_exec(now, w.times[i]);
            proof {
                assert(w.times@.subrange(0, i + 1).drop_last() =~= w.times@.subrange(0, i as int));
                assert(w.times@.subrange(0, i + 1).last() == w.times@[i as int]);
            }
            if a < MINUTE_WINDOW_SECS {
                cm = cm + 1;
            }
            if a < HOUR_WINDOW_SECS {
                ch = ch + 1;
            }
            if a < DAY_WINDOW_SECS {
                cd = cd + 1;
            }
            i = i + 1;
        }
        proof {
            assert(w.times@.subrange(0, len as int) =~= w.times@);
        }
        let admitted = cm <= minute_limit && ch <= hour_limit && cd <= day_limit;
        // put the window back
        self.windows.set_and_swap(idx, &mut w);
        proof {
            let fin = *self;
            assert(fin.addr_seq() == old(self).addr_seq() || fin.addr_seq() == old(
                self,
            ).addr_seq().push(addr));
            // the updated slot holds the new window
            assert(fin.window_seq()[idx as int] == next_window(w0, now));
            lemma_unique_index_of(fin.addr_seq(), addr, idx as int);
            assert(fin.window_of(addr) == next_window(w_orig, now));
            // well-formedness: only slot idx changed, to a recency-ordered window
            assert(sorted_desc(next_window(w0, now))) by {
                lemma_next_window_sorted(w0, now);
            }
            assert forall|k: int|
                0 <= k < fin.window_seq().len() implies sorted_desc(
                #[trigger] fin.window_seq()[k],
            ) by {
                if k != idx as int {
                    if k < old(self).window_seq().len() {
                        assert(fin.window_seq()[k] == old(self).window_seq()[k]);
                    }
                }
            }
            // independence: other addresses resolve to the same window
            assert forall|a: u128| a != addr implies #[trigger] fin.window_of(a) == old(
                self,
            ).window_of(a) && fin.has_addr(a) == old(self).has_addr(a) by {
                lemma_other_addr_unchanged(*old(self), fin, addr, a, idx as int);
            }
        }
        admitted
    }
}

/// In a duplicate-free address list, `index_of` gives exactly the position
/// the address stands at.
proof fn lemma_unique_index_of(s: Seq<u128>, a: u128, i: int)
    requires
        0 <= i < s.len(),
        s[i] == a,
        forall|p: int, q: int| #![trigger s[p], s[q]] 0 <= p < q < s.len() ==> s[p] != s[q],
    ensures
        s.contains(a),
        s.index_of(a) == i,
{
    assert(s.contains(a));
    let c = s.index_of(a);
    assert(0 <= c < s.len() && s[c] == a);
    if c < i {
        assert(s[c] != s[i]);
        assert(false);
    } else if c > i {
        assert(s[i] != s[c]);
        assert(false);
    }
}

/// A freshly updated window is still in recency order: the recorded
/// instant is at least as recent as everything eviction kept.
proof fn lemma_next_window_sorted(w: Seq<u64>, now: u64)
    requires
        sorted_desc(w),
    ensures
        sorted_desc(next_window(w, now)),
{
    let p = prune(w, now);
    lemma_prune_sorted_and_bounded(w, now);
    let nw = next_window(w, now);
    assert forall|i: int, j: int|
        #![trigger nw[i], nw[j]]
        0 <= i <= j < nw.len() implies nw[i] >= nw[j] by {
        if i == 0 {
            if j > 0 {
                assert(nw[j] == p[j - 1]);
                assert(p[j - 1] <= w[0]);
                assert(nw[0] == recorded_instant(w, now));
            }
        } else {
            assert(nw[i] == p[i - 1]);
            assert(nw[j] == p[j - 1]);
        }
    }
}

/// What eviction keeps sits, in order, under the newest recorded instant:
/// the pruned window is element-wise bounded by the head.
proof fn lemma_prune_sorted_and_bounded(w: Seq<u64>, now: u64)
    requires
        sorted_desc(w),
    ensures
        sorted_desc(prune(w, now)),
        forall|i: int| 0 <= i < prune(w, now).len() ==> #[trigger] prune(w, now)[i] <= w[0],
    decreases w.len(),
{
    if w.len() > 0 {
        assert forall|i: int, j: int|
            #![trigger w.drop_last()[i], w.drop_last()[j]]
            0 <= i <= j < w.drop_last().len() implies w.drop_last()[i] >= w.drop_last()[j] by {
            assert(w.drop_last()[i] == w[i]);
            assert(w.drop_last()[j] == w[j]);
        }
        lemma_prune_sorted_and_bounded(w.drop_last(), now);
        let p = prune(w, now);
        let pd = prune(w.drop_last(), now);
        if age_of(now, w.last()) >= DAY_WINDOW_SECS {
            if w.len() > 1 {
                assert(w.drop_last()[0] == w[0]);
            }
            assert forall|i: int| 0 <= i < p.len() implies #[trigger] p[i] <= w[0] by {
                assert(p == pd);
                if w.len() > 1 {
                    assert(pd[i] <= w.drop_last()[0]);
                }
            }
        } else {
            assert(p == pd.push(w.last()));
            assert forall|i: int| 0 <= i < p.len() implies #[trigger] p[i] <= w[0] by {
                if i < pd.len() {
                    assert(p[i] == pd[i]);
                    if w.len() > 1 {
                        assert(pd[i] <= w.drop_last()[0]);
                        assert(w.drop_last()[0] == w[0]);
                    } else {
                        assert(pd.len() == 0);
                    }
                } else {
                    assert(p[i] == w.last());
                    assert(w.last() <= w[0]);
                }
            }
            assert forall|i: int, j: int|
                #![trigger p[i], p[j]]
                0 <= i <= j < p.len() implies p[i] >= p[j] by {
                if j < pd.len() {
                } else {
                    if i < pd.len() {
                        assert(p[j] == w.last());
                        lemma_prune_member_ge_last(w, now, i);
                    }
                }
            }
        }
    }
}

/// Every kept instant is at least as recent as the window's oldest entry.
proof fn lemma_prune_member_ge_last(w: Seq<u64>, now: u64, i: int)
    requires
        sorted_desc(w),
        w.len() > 0,
        0 <= i < prune(w, now).len(),
    ensures
        prune(w, now)[i] >= w.last(),
    decreases w.len(),
{
    let p = prune(w, now);
    let pd = prune(w.drop_last(), now);
    assert forall|a: int, b: int|
        #![trigger w.drop_last()[a], w.drop_last()[b]]
        0 <= a <= b < w.drop_last().len() implies w.drop_last()[a] >= w.drop_last()[b] by {
        assert(w.drop_last()[a] == w[a]);
        assert(w.drop_last()[b] == w[b]);
    }
    if age_of(now, w.last()) >= DAY_WINDOW_SECS {
        assert(p == pd);
        assert(w.len() > 1);
        lemma_prune_member_ge_last(w.drop_last(), now, i);
        assert(w.drop_last().last() == w[w.len() - 2]);
        assert(w[w.len() - 2] >= w.last());
    } else {
        if i < pd.len() {
            assert(w.len() > 1);
            assert(p[i] == pd[i]);
            lemma_prune_member_ge_last(w.drop_last(), now, i);
            assert(w.drop_last().last() == w[w.len() - 2]);
            assert(w[w.len() - 2] >= w.last());
        } else {
            assert(p[i] == w.last());
        }
    }
}

/// An untouched slot resolves to the same window before and after one
/// address's update.
proof fn lemma_other_addr_unchanged(
    pre: RateLimiter,
    post: RateLimiter,
    addr: u128,
    a: u128,
    idx: int,
)
    requires
        a != addr,
        pre.wf(),
        0 <= idx < post.addr_seq().len(),
        post.addr_seq() == pre.addr_seq() || (!pre.has_addr(addr) && post.addr_seq()
            == pre.addr_seq().push(addr) && idx == pre.addr_seq().len()),
        post.addr_seq()[idx] == addr,
        post.window_seq().len() == post.addr_seq().len(),
        forall|k: int|
            0 <= k < post.window_seq().len() && k != idx && k < pre.window_seq().len()
                ==> #[trigger] post.window_seq()[k] == pre.window_seq()[k],
        pre.window_seq().len() == pre.addr_seq().len(),
        forall|p: int, q: int|
            #![trigger post.addr_seq()[p], post.addr_seq()[q]]
            0 <= p < q < post.addr_seq().len() ==> post.addr_seq()[p] != post.addr_seq()[q],
    ensures
        post.window_of(a) == pre.window_of(a),
        post.has_addr(a) == pre.has_addr(a),
{
    if pre.has_addr(a) {
        let i = choose|i: int| 0 <= i < pre.addr_seq().len() && pre.addr_seq()[i] == a;
        assert(post.addr_seq()[i] == a);
        lemma_unique_index_of(post.addr_seq(), a, i);
        assert forall|p: int, q: int|
            #![trigger pre.addr_seq()[p], pre.addr_seq()[q]]
            0 <= p < q < pre.addr_seq().len() implies pre.addr_seq()[p] != pre.addr_seq()[q] by {
            assert(post.addr_seq()[p] == pre.addr_seq()[p]);
            assert(post.addr_seq()[q] == pre.addr_seq()[q]);
        }
        lemma_unique_index_of(pre.addr_seq(), a, i);
        assert(i != idx);
        assert(post.window_of(a) == post.window_seq()[i]);
        assert(pre.window_of(a) == pre.window_seq()[i]);
    } else {
        if post.has_addr(a) {
            let i = choose|i: int| 0 <= i < post.addr_seq().len() && post.addr_seq()[i] == a;
            if i < pre.addr_seq().len() {
                assert(pre.addr_seq()[i] == a);
                assert(false);
            } else {
                assert(post.addr_seq()[i] == addr);
                assert(false);
            }
        }
    }
}

/// The middleware's default limits, applied before any request reaches
/// application logic.
pub fn rate_limit_basic(limiter: &mut RateLimiter, addr: u128, now: u64) -> (admitted: bool)
    requires
        old(limiter).wf(),
    ensures
        final(limiter).wf(),
        final(limiter).has_addr(addr),
        final(limiter).window_of(addr) == next_window(old(limiter).window_of(addr), now),
        forall|a: u128|
            a != addr ==> #[trigger] final(limiter).window_of(a) == old(limiter).window_of(a)
                && final(limiter).has_addr(a) == old(limiter).has_addr(a),
        admitted == admit_decision(
            next_window(old(limiter).window_of(addr), now),
            now,
            MINUTE_RATE_LIMIT as int,
            HOUR_RATE_LIMIT as int,
            DAY_RATE_LIMIT as int,
        ),
{
    limiter.check_limit(addr, now, MINUTE_RATE_LIMIT, HOUR_RATE_LIMIT, DAY_RATE_LIMIT)
}

} // verus!
