//! A bounded sliding window of `u64` observations with order statistics.
//!
//! The window keeps the most recent `WINDOW_SIZE` values in arrival order.
//! Percentiles are nearest-rank order statistics: the value that would sit
//! at position `round(p * (n - 1) / 100)` of the window sorted ascending.
use std::collections::VecDeque;
use vstd::prelude::*;

verus! {

/// Capacity of every sliding window.
pub const WINDOW_SIZE: usize = 200;

/// Number of elements of `s` strictly below `v`.
pub open spec fn count_below(s: Seq<u64>, v: u64) -> nat
    decreases s.len(),
{
    if s.len() == 0 {
        0
    } else {
        count_below(s.drop_last(), v) + if s.last() < v { 1nat } else { 0nat }
    }
}

/// Number of elements of `s` that are at most `v`.
pub open spec fn count_at_most(s: Seq<u64>, v: u64) -> nat
    decreases s.len(),
{
    if s.len() == 0 {
        0
    } else {
        count_at_most(s.drop_last(), v) + if s.last() <= v { 1nat } else { 0nat }
    }
}

/// `v` is the element at 0-based position `k` of `s` sorted ascending:
/// it occurs in `s`, at most `k` elements are smaller, and more than `k`
/// elements are not larger.
pub open spec fn is_rank_value(s: Seq<u64>, k: int, v: u64) -> bool {
    &&& s.contains(v)
    &&& count_below(s, v) <= k
    &&& k < count_at_most(s, v)
}

/// Position `round(p * (n - 1) / 100)` (halves rounded up) for a percentile
/// `p` of a window of `n > 0` values, clamped to the last position when `p`
/// is above 100.
pub open spec fn rank_index(n: nat, p: nat) -> int {
    let k = (p * (n - 1) + 50) / 100;
    if k < n - 1 {
        k
    } else {
        n - 1
    }
}

/// The percentile `p` of `s`: `0` for an empty window, otherwise the value at
/// position `rank_index(|s|, p)` of `s` sorted ascending.
pub open spec fn percentile_of(s: Seq<u64>, p: nat, r: u64) -> bool {
    if s.len() == 0 {
        r == 0
    } else {
        is_rank_value(s, rank_index(s.len(), p), r)
    }
}

/// The `p`-th percentile of `s` as a value: the `r` with
/// `percentile_of(s, p, r)` (which exists and is unique).
pub open spec fn pct(s: Seq<u64>, p: nat) -> u64 {
    choose|r: u64| percentile_of(s, p, r)
}

/// What a push does to the window's contents: append, dropping the oldest
/// value when the window is full.
pub open spec fn window_push(s: Seq<u64>, v: u64) -> Seq<u64> {
    if s.len() >= WINDOW_SIZE {
        s.drop_first().push(v)
    } else {
        s.push(v)
    }
}

/// Contents of a window that started empty and received the values of `h`
/// in order.
pub open spec fn window_after(h: Seq<u64>) -> Seq<u64>
    decreases h.len(),
{
    if h.len() == 0 {
        Seq::empty()
    } else {
        window_push(window_after(h.drop_last()), h.last())
    }
}

pub proof fn lemma_counts_bounded(s: Seq<u64>, v: u64)
    ensures
        count_below(s, v) <= count_at_most(s, v) <= s.len(),
    decreases s.len(),
{
    if s.len() > 0 {
        lemma_counts_bounded(s.drop_last(), v);
    }
}

/// An element of `s` is counted by `count_at_most` but not by `count_below`.
pub proof fn lemma_member_counted(s: Seq<u64>, v: u64)
    requires
        s.contains(v),
    ensures
        count_below(s, v) < count_at_most(s, v),
    decreases s.len(),
{
    let i = choose|i: int| 0 <= i < s.len() && s[i] == v;
    lemma_counts_bounded(s.drop_last(), v);
    if i < s.len() - 1 {
        assert(s.drop_last()[i] == v);
        lemma_member_counted(s.drop_last(), v);
    }
}

/// With no element strictly between `v` and `w`, the elements below `w` are
/// exactly those at most `v`.
pub proof fn lemma_adjacent_counts(s: Seq<u64>, v: u64, w: u64)
    requires
        v < w,
        forall|i: int| 0 <= i < s.len() ==> !(v < #[trigger] s[i] && s[i] < w),
    ensures
        count_below(s, w) == count_at_most(s, v),
    decreases s.len(),
{
    if s.len() > 0 {
        let t = s.drop_last();
        assert forall|i: int| 0 <= i < t.len() implies !(v < #[trigger] t[i] && t[i] < w) by {
            assert(t[i] == s[i]);
        }
        lemma_adjacent_counts(t, v, w);
        assert(!(v < s[s.len() - 1] && s[s.len() - 1] < w));
    }
}

/// When no element is below `v`, `count_below` is zero.
pub proof fn lemma_none_below(s: Seq<u64>, v: u64)
    requires
        forall|i: int| 0 <= i < s.len() ==> v <= #[trigger] s[i],
    ensures
        count_below(s, v) == 0,
    decreases s.len(),
{
    if s.len() > 0 {
        let t = s.drop_last();
        assert forall|i: int| 0 <= i < t.len() implies v <= #[trigger] t[i] by {
            assert(t[i] == s[i]);
        }
        lemma_none_below(t, v);
        assert(v <= s[s.len() - 1]);
    }
}

/// When every element is at most `v`, all of them are counted.
pub proof fn lemma_all_at_most(s: Seq<u64>, v: u64)
    requires
        forall|i: int| 0 <= i < s.len() ==> #[trigger] s[i] <= v,
    ensures
        count_at_most(s, v) == s.len(),
    decreases s.len(),
{
    if s.len() > 0 {
        let t = s.drop_last();
        assert forall|i: int| 0 <= i < t.len() implies #[trigger] t[i] <= v by {
            assert(t[i] == s[i]);
        }
        lemma_all_at_most(t, v);
        assert(s[s.len() - 1] <= v);
    }
}

/// Counting against a smaller bound counts no more elements.
pub proof fn lemma_count_monotone(s: Seq<u64>, v: u64, w: u64)
    requires
        v < w,
    ensures
        count_at_most(s, v) <= count_below(s, w),
    decreases s.len(),
{
    if s.len() > 0 {
        lemma_count_monotone(s.drop_last(), v, w);
    }
}

/// Order statistics are unique and ordered by rank: the value at a lower
/// rank is never larger than the value at a higher rank.
pub proof fn lemma_rank_value_monotone(s: Seq<u64>, k1: int, k2: int, v1: u64, v2: u64)
    requires
        k1 <= k2,
        is_rank_value(s, k1, v1),
        is_rank_value(s, k2, v2),
    ensures
        v1 <= v2,
{
    if v2 < v1 {
        lemma_count_monotone(s, v2, v1);
    }
}

/// The rank position of a percentile never decreases as `p` grows and stays
/// inside the window.
pub proof fn lemma_rank_index_monotone(n: nat, p1: nat, p2: nat)
    requires
        n > 0,
        p1 <= p2,
    ensures
        0 <= rank_index(n, p1) <= rank_index(n, p2) < n,
{
    assert(0 <= p1 * (n - 1) <= p2 * (n - 1)) by (nonlinear_arith)
        requires
            p1 <= p2,
            n > 0,
    ;
}

/// Percentiles are monotone in `p`: for any window and any
/// `p1 <= p2`, the `p1` percentile is at most the `p2` percentile
/// (so in particular p50 <= p95 <= p99).
pub proof fn lemma_percentile_monotone(s: Seq<u64>, p1: nat, p2: nat, r1: u64, r2: u64)
    requires
        p1 <= p2,
        percentile_of(s, p1, r1),
        percentile_of(s, p2, r2),
    ensures
        r1 <= r2,
{
    if s.len() > 0 {
        lemma_rank_index_monotone(s.len(), p1, p2);
        lemma_rank_value_monotone(s, rank_index(s.len(), p1), rank_index(s.len(), p2), r1, r2);
    }
}

/// The smallest element of `s` above `v`, which exists when some element
/// is above `v`.
pub proof fn lemma_min_above(s: Seq<u64>, v: u64) -> (w: u64)
    requires
        exists|i: int| 0 <= i < s.len() && v < #[trigger] s[i],
    ensures
        s.contains(w),
        v < w,
        forall|i: int| 0 <= i < s.len() && v < #[trigger] s[i] ==> w <= s[i],
    decreases s.len(),
{
    let t = s.drop_last();
    let x = s.last();
    if exists|i: int| 0 <= i < t.len() && v < #[trigger] t[i] {
        let w1 = lemma_min_above(t, v);
        let j = choose|j: int| 0 <= j < t.len() && t[j] == w1;
        assert(s[j] == t[j]);
        assert forall|i: int| 0 <= i < s.len() && v < #[trigger] s[i] implies (if v < x && x < w1 {
            x
        } else {
            w1
        }) <= s[i] by {
            if i < t.len() {
                assert(s[i] == t[i]);
            }
        }
        if v < x && x < w1 {
            assert(s[s.len() - 1] == x);
            x
        } else {
            w1
        }
    } else {
        let i0 = choose|i: int| 0 <= i < s.len() && v < #[trigger] s[i];
        if i0 < t.len() {
            assert(t[i0] == s[i0]);
        }
        assert forall|i: int| 0 <= i < s.len() && v < #[trigger] s[i] implies x <= s[i] by {
            if i < t.len() {
                assert(s[i] == t[i]);
            }
        }
        assert(s[s.len() - 1] == x);
        x
    }
}

/// The smallest element of a non-empty `s`.
pub proof fn lemma_min_elem(s: Seq<u64>) -> (m: u64)
    requires
        s.len() > 0,
    ensures
        s.contains(m),
        forall|i: int| 0 <= i < s.len() ==> m <= #[trigger] s[i],
    decreases s.len(),
{
    let t = s.drop_last();
    let x = s.last();
    assert(s[s.len() - 1] == x);
    if t.len() == 0 {
        x
    } else {
        let m1 = lemma_min_elem(t);
        let j = choose|j: int| 0 <= j < t.len() && t[j] == m1;
        assert(s[j] == t[j]);
        assert forall|i: int| 0 <= i < s.len() implies (if x < m1 {
            x
        } else {
            m1
        }) <= #[trigger] s[i] by {
            if i < t.len() {
                assert(s[i] == t[i]);
            }
        }
        if x < m1 {
            x
        } else {
            m1
        }
    }
}

/// From any element with at most `k` smaller elements, climbing to the next
/// larger value reaches the value at rank `k`.
pub proof fn lemma_rank_from(s: Seq<u64>, k: int, v: u64)
    requires
        s.contains(v),
        count_below(s, v) <= k < s.len(),
    ensures
        exists|w: u64| is_rank_value(s, k, w),
    decreases s.len() - count_below(s, v),
{
    lemma_counts_bounded(s, v);
    if count_at_most(s, v) > k {
        assert(is_rank_value(s, k, v));
    } else {
        if forall|i: int| 0 <= i < s.len() ==> #[trigger] s[i] <= v {
            lemma_all_at_most(s, v);
        }
        let w = lemma_min_above(s, v);
        lemma_adjacent_counts(s, v, w);
        lemma_member_counted(s, v);
        lemma_rank_from(s, k, w);
    }
}

/// Every percentile exists: `pct` names a value satisfying
/// `percentile_of`, and for a non-empty window it is one of its elements.
pub proof fn lemma_percentile_exists(s: Seq<u64>, p: nat)
    ensures
        percentile_of(s, p, pct(s, p)),
        s.len() > 0 ==> s.contains(pct(s, p)),
{
    if s.len() == 0 {
        assert(percentile_of(s, p, 0));
    } else {
        lemma_rank_index_monotone(s.len(), p, p);
        let m = lemma_min_elem(s);
        lemma_none_below(s, m);
        lemma_rank_from(s, rank_index(s.len(), p), m);
        let w = choose|w: u64| is_rank_value(s, rank_index(s.len(), p), w);
        assert(percentile_of(s, p, w));
    }
}

/// A percentile has at most one value.
pub proof fn lemma_percentile_unique(s: Seq<u64>, p: nat, r1: u64, r2: u64)
    requires
        percentile_of(s, p, r1),
        percentile_of(s, p, r2),
    ensures
        r1 == r2,
{
    lemma_percentile_monotone(s, p, p, r1, r2);
    lemma_percentile_monotone(s, p, p, r2, r1);
}

/// Whatever value satisfies `percentile_of` is the value `pct` names.
pub proof fn lemma_pct_is(s: Seq<u64>, p: nat, r: u64)
    requires
        percentile_of(s, p, r),
    ensures
        pct(s, p) == r,
        s.len() > 0 ==> s.contains(r),
{
    lemma_percentile_unique(s, p, r, pct(s, p));
}

/// Pushing keeps every element of the window within a bound `b` when the
/// old elements and the new value are within it.
pub proof fn lemma_push_bounded(s: Seq<u64>, v: u64, b: u64)
    requires
        forall|i: int| 0 <= i < s.len() ==> #[trigger] s[i] <= b,
        v <= b,
    ensures
        forall|i: int|
            0 <= i < window_push(s, v).len() ==> #[trigger] window_push(s, v)[i] <= b,
        s.len() <= WINDOW_SIZE ==> window_push(s, v).len() <= WINDOW_SIZE,
{
    let t = window_push(s, v);
    assert forall|i: int| 0 <= i < t.len() implies #[trigger] t[i] <= b by {
        if s.len() >= WINDOW_SIZE {
            if i < t.len() - 1 {
                assert(t[i] == s[i + 1]);
            }
        } else {
            if i < t.len() - 1 {
                assert(t[i] == s[i]);
            }
        }
    }
}

/// A window never holds more than `WINDOW_SIZE` values, and it always holds
/// exactly the most recent `min(|h|, WINDOW_SIZE)` values pushed, in order.
pub proof fn lemma_window_keeps_latest(h: Seq<u64>)
    ensures
        window_after(h).len() <= WINDOW_SIZE,
        window_after(h).len() == if h.len() < WINDOW_SIZE { h.len() } else { WINDOW_SIZE as nat },
        window_after(h) =~= h.subrange(h.len() - window_after(h).len(), h.len() as int),
    decreases h.len(),
{
    if h.len() > 0 {
        let t = h.drop_last();
        lemma_window_keeps_latest(t);
        let w = window_after(t);
        assert(h.subrange(h.len() - 1 - w.len(), h.len() - 1) =~= t.subrange(
            t.len() - w.len(),
            t.len() as int,
        ));
    }
}

/// A bounded window of the most recent observations.
pub struct SlidingWin {
    buf: VecDeque<u64>,
}

impl View for SlidingWin {
    type V = Seq<u64>;

    closed spec fn view(&self) -> Seq<u64> {
        self.buf@
    }
}

/// Number of elements of `buf` below `v`.
fn count_below_exec(buf: &VecDeque<u64>, v: u64) -> (c: usize)
    ensures
        c == count_below(buf@, v),
{
    let n = buf.len();
    let mut c: usize = 0;
    let mut i: usize = 0;
    while i < n
        invariant
            n == buf@.len(),
            i <= n,
            c == count_below(buf@.take(i as int), v),
            c <= i,
        decreases n - i,
    {
        assert(buf@.take(i + 1).drop_last() =~= buf@.take(i as int));
        if buf[i] < v {
            c = c + 1;
        }
        i = i + 1;
    }
    assert(buf@.take(n as int) =~= buf@);
    c
}

/// Number of elements of `buf` at most `v`.
fn count_at_most_exec(buf: &VecDeque<u64>, v: u64) -> (c: usize)
    ensures
        c == count_at_most(buf@, v),
{
    let n = buf.len();
    let mut c: usize = 0;
    let mut i: usize = 0;
    while i < n
        invariant
            n == buf@.len(),
            i <= n,
            c == count_at_most(buf@.take(i as int), v),
            c <= i,
        decreases n - i,
    {
        assert(buf@.take(i + 1).drop_last() =~= buf@.take(i as int));
        if buf[i] <= v {
            c = c + 1;
        }
        i = i + 1;
    }
    assert(buf@.take(n as int) =~= buf@);
    c
}

/// The smallest element of a non-empty `buf`.
fn min_exec(buf: &VecDeque<u64>) -> (m: u64)
    requires
        buf@.len() > 0,
    ensures
        buf@.contains(m),
        forall|i: int| 0 <= i < buf@.len() ==> m <= #[trigger] buf@[i],
{
    let n = buf.len();
    let mut m = buf[0];
    let mut i: usize = 1;
    while i < n
        invariant
            n == buf@.len(),
            1 <= i <= n,
            buf@.contains(m),
            forall|j: int| 0 <= j < i ==> m <= #[trigger] buf@[j],
        decreases n - i,
    {
        if buf[i] < m {
            m = buf[i];
        }
        i = i + 1;
    }
    m
}

/// The smallest element of `buf` strictly above `v`, which must exist.
fn min_above_exec(buf: &VecDeque<u64>, v: u64) -> (m: u64)
    requires
        exists|i: int| 0 <= i < buf@.len() && v < #[trigger] buf@[i],
    ensures
        buf@.contains(m),
        v < m,
        forall|i: int| 0 <= i < buf@.len() && v < #[trigger] buf@[i] ==> m <= buf@[i],
{
    let n = buf.len();
    let mut found = false;
    let mut m: u64 = 0;
    let mut i: usize = 0;
    while i < n
        invariant
            n == buf@.len(),
            i <= n,
            found ==> buf@.contains(m) && v < m,
            !found ==> forall|j: int| 0 <= j < i ==> !(v < #[trigger] buf@[j]),
            found ==> forall|j: int| 0 <= j < i && v < #[trigger] buf@[j] ==> m <= buf@[j],
        decreases n - i,
    {
        let x = buf[i];
        if v < x && (!found || x < m) {
            m = x;
            found = true;
        }
        i = i + 1;
    }
    m
}

impl SlidingWin {
    /// The window holds at most `WINDOW_SIZE` values.
    pub open spec fn wf(&self) -> bool {
        self@.len() <= WINDOW_SIZE
    }

    pub fn new() -> (w: Self)
        ensures
            w.wf(),
            w@ == Seq::<u64>::empty(),
    {
        SlidingWin { buf: VecDeque::with_capacity(WINDOW_SIZE + 1) }
    }

    /// Appends `val`, evicting the oldest value when the window is full.
    pub fn push(&mut self, val: u64)
        requires
            old(self).wf(),
        ensures
            final(self).wf(),
            final(self)@ == window_push(old(self)@, val),
    {
        if self.buf.len() >= WINDOW_SIZE {
            self.buf.pop_front();
        }
        self.buf.push_back(val);
        assert(self.buf@ =~= window_push(old(self)@, val));
    }

    pub fn len(&self) -> (n: usize)
        ensures
            n == self@.len(),
    {
        self.buf.len()
    }

    /// The `p`-th percentile of the window (`0` when empty).
    pub fn percentile(&self, p: u64) -> (r: u64)
        requires
            self.wf(),
        ensures
            percentile_of(self@, p as nat, r),
            r == pct(self@, p as nat),
    {
        let n = self.buf.len();
        if n == 0 {
            proof {
                lemma_pct_is(self@, p as nat, 0);
            }
            return 0;
        }
        let last: usize = n - 1;
        assert((p as u128) * (last as u128) <= 0xffff_ffff_ffff_ffffu128 * 199) by (nonlinear_arith)
            requires
                last < 200,
        ;
        let raw: u128 = ((p as u128) * (last as u128) + 50) / 100;
        let k: usize = if raw < last as u128 {
            raw as usize
        } else {
            last
        };
        proof {
            lemma_rank_index_monotone(n as nat, p as nat, p as nat);
        }
        let ghost s = self.buf@;
        let mut v = min_exec(&self.buf);
        proof {
            lemma_none_below(s, v);
        }
        loop
            invariant
                s == self.buf@,
                n == s.len(),
                k == rank_index(n as nat, p as nat),
                k < n,
                s.contains(v),
                count_below(s, v) <= k,
            decreases n - count_below(s, v),
        {
            let le = count_at_most_exec(&self.buf, v);
            if le > k {
                proof {
                    lemma_pct_is(s, p as nat, v);
                }
                return v;
            }
            proof {
                lemma_counts_bounded(s, v);
                if forall|i: int| 0 <= i < s.len() ==> #[trigger] s[i] <= v {
                    lemma_all_at_most(s, v);
                }
            }
            let w = min_above_exec(&self.buf, v);
            proof {
                lemma_adjacent_counts(s, v, w);
                lemma_member_counted(s, v);
            }
            v = w;
        }
    }

    pub fn p95(&self) -> (r: u64)
        requires
            self.wf(),
        ensures
            percentile_of(self@, 95, r),
            r == pct(self@, 95),
    {
        self.percentile(95)
    }

    pub fn p99(&self) -> (r: u64)
        requires
            self.wf(),
        ensures
            percentile_of(self@, 99, r),
            r == pct(self@, 99),
    {
        self.percentile(99)
    }

    pub fn p50(&self) -> (r: u64)
        requires
            self.wf(),
        ensures
            percentile_of(self@, 50, r),
            r == pct(self@, 50),
    {
        self.percentile(50)
    }
}

} // verus!
