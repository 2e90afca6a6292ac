//! Density accumulation: per-pixel counters of trajectory points.
//!
//! Every accepted trajectory arrives as a list of already-projected pixel
//! coordinates. A point inside the image bumps the counter of its pixel;
//! a point outside is discarded, with no wraparound and no clamping. A
//! counter at its ceiling stays there, so accumulation is a function of
//! the multiset of delivered points alone — the order of delivery can
//! never show in the buffer, which is what lets many sampling workers
//! feed one single-writer consumer.

use vstd::prelude::*;

verus! {

use vstd::multiset::Multiset;

/// A projected trajectory point: pixel column and row, possibly outside
/// the image.
pub type Point = (i32, i32);

/// Whether the point lies inside a `w` by `h` image.
pub open spec fn in_bounds(w: int, h: int, p: Point) -> bool {
    0 <= p.0 < w && 0 <= p.1 < h
}

/// The row-major cell index of an in-bounds point.
pub open spec fn cell(w: int, p: Point) -> int {
    p.1 * w + p.0
}

/// One counter bump, held at the counter's ceiling.
pub open spec fn bump(v: int) -> int {
    if v < i32::MAX {
        v + 1
    } else {
        v
    }
}

/// The buffer after accumulating one point.
pub open spec fn acc1(s: Seq<i32>, w: int, h: int, p: Point) -> Seq<i32> {
    if in_bounds(w, h, p) {
        s.update(cell(w, p), bump(s[cell(w, p)] as int) as i32)
    } else {
        s
    }
}

/// The buffer after accumulating a list of points in order.
pub open spec fn acc_all(s: Seq<i32>, w: int, h: int, ps: Seq<Point>) -> Seq<i32>
    decreases ps.len(),
{
    if ps.len() == 0 {
        s
    } else {
        acc1(acc_all(s, w, h, ps.drop_last()), w, h, ps.last())
    }
}

/// How many of the points of `ps` land on cell `j` of a `w` by `h` image.
pub open spec fn hits(ps: Seq<Point>, w: int, h: int, j: int) -> nat
    decreases ps.len(),
{
    if ps.len() == 0 {
        0
    } else {
        hits(ps.drop_last(), w, h, j) + (if in_bounds(w, h, ps.last()) && cell(w, ps.last()) == j {
            1nat
        } else {
            0nat
        })
    }
}

/// A count raised by `n` bumps, held at the ceiling.
pub open spec fn sat_add(v: int, n: nat) -> int {
    if v + n > i32::MAX {
        i32::MAX as int
    } else {
        v + n
    }
}

/// The largest element of a non-empty sequence of counters.
pub open spec fn max_of(s: Seq<i32>) -> int
    decreases s.len(),
{
    if s.len() <= 1 {
        s[0] as int
    } else {
        let rest = max_of(s.drop_last());
        if s.last() as int > rest {
            s.last() as int
        } else {
            rest
        }
    }
}

/// The density buffer: one signed 32-bit counter per pixel, row-major.
pub struct DensityBuffer {
    width: u32,
    height: u32,
    counts: Vec<i32>,
}

impl DensityBuffer {
    pub closed spec fn spec_width(self) -> u32 {
        self.width
    }

    pub closed spec fn spec_height(self) -> u32 {
        self.height
    }

    pub closed spec fn spec_counts(self) -> Seq<i32> {
        self.counts@
    }

    /// One counter per pixel, every counter non-negative.
    pub open spec fn wf(self) -> bool {
        &&& self.spec_counts().len() == self.spec_width() * self.spec_height()
        &&& self.spec_width() * self.spec_height() <= usize::MAX
        &&& forall|j: int|
            0 <= j < self.spec_counts().len() ==> #[trigger] self.spec_counts()[j] >= 0
    }

    /// A fresh all-zero buffer.
    pub fn new(width: u32, height: u32) -> (buf: DensityBuffer)
        requires
            width * height <= usize::MAX,
        ensures
            buf.wf(),
            buf.spec_width() == width,
            buf.spec_height() == height,
            buf.spec_counts() =~= Seq::new((width * height) as nat, |j: int| 0i32),
    {
        let n: usize = (width as usize) * (height as usize);
        let mut counts: Vec<i32> = Vec::new();
        let mut k: usize = 0;
        while k < n
            invariant
                k <= n,
                counts@ =~= Seq::new(k as nat, |j: int| 0i32),
            decreases n - k,
        {
            counts.push(0i32);
            k = k + 1;
        }
        DensityBuffer { width, height, counts }
    }

    /// Accumulate one projected point: a point inside the image bumps the
    /// counter of its pixel, a point outside changes nothing.
    pub fn accumulate_point(&mut self, x: i32, y: i32)
        requires
            old(self).wf(),
        ensures
            final(self).wf(),
            final(self).spec_width() == old(self).spec_width(),
            final(self).spec_height() == old(self).spec_height(),
            final(self).spec_counts() =~= acc1(
                old(self).spec_counts(),
                old(self).spec_width() as int,
                old(self).spec_height() as int,
                (x, y),
            ),
    {
        if x >= 0 && y >= 0 && (x as u64) < (self.width as u64) && (y as u64)
            < (self.height as u64) {
            proof {
                let wi = self.width as int;
                let hi = self.height as int;
                let xi = x as int;
                let yi = y as int;
                assert(yi * wi + xi < wi * hi) by (nonlinear_arith)
                    requires
                        0 <= xi && xi < wi,
                        0 <= yi && yi < hi,
                ;
            }
            let idx: usize = (y as usize) * (self.width as usize) + (x as usize);
            let v = self.counts[idx];
            if v < i32::MAX {
                self.counts.set(idx, v + 1);
            }
        }
    }

    /// Accumulate the first `limit` points of an accepted trajectory, in
    /// order.
    pub fn accumulate_trajectory(&mut self, points: &Vec<Point>, limit: usize)
        requires
            old(self).wf(),
            limit <= points@.len(),
        ensures
            final(self).wf(),
            final(self).spec_width() == old(self).spec_width(),
            final(self).spec_height() == old(self).spec_height(),
            final(self).spec_counts() =~= acc_all(
                old(self).spec_counts(),
                old(self).spec_width() as int,
                old(self).spec_height() as int,
                points@.take(limit as int),
            ),
    {
        let ghost orig = self.spec_counts();
        let ghost w = self.spec_width() as int;
        let ghost h = self.spec_height() as int;
        let mut k: usize = 0;
        while k < limit
            invariant
                k <= limit <= points@.len(),
                self.wf(),
                self.spec_width() as int == w,
                self.spec_height() as int == h,
                self.spec_counts() =~= acc_all(orig, w, h, points@.take(k as int)),
            decreases limit - k,
        {
            let p = points[k];
            self.accumulate_point(p.0, p.1);
            proof {
                let taken = points@.take(k as int + 1);
                assert(taken.drop_last() =~= points@.take(k as int));
                assert(taken.last() == points@[k as int]);
            }
            k = k + 1;
        }
    }

    /// Image width in pixels.
    pub fn width(&self) -> (w: u32)
        ensures
            w == self.spec_width(),
    {
        self.width
    }

    /// Image height in pixels.
    pub fn height(&self) -> (h: u32)
        ensures
            h == self.spec_height(),
    {
        self.height
    }

    /// The number of pixel counters.
    pub fn len(&self) -> (n: usize)
        ensures
            n == self.spec_counts().len(),
    {
        self.counts.len()
    }

    /// The counter at cell `idx`.
    pub fn count_at(&self, idx: usize) -> (v: i32)
        requires
            idx < self.spec_counts().len(),
        ensures
            v == self.spec_counts()[idx as int],
    {
        self.counts[idx]
    }

    /// The largest counter in the buffer.
    pub fn max_density(&self) -> (m: i32)
        requires
            self.wf(),
            self.spec_counts().len() >= 1,
        ensures
            m == max_of(self.spec_counts()),
    {
        let mut m: i32 = self.counts[0];
        proof {
            assert(self.spec_counts().take(1).len() == 1);
            assert(self.spec_counts().take(1)[0] == self.spec_counts()[0]);
        }
        let mut k: usize = 1;
        while k < self.counts.len()
            invariant
                1 <= k <= self.spec_counts().len(),
                m == max_of(self.spec_counts().take(k as int)),
            decreases self.spec_counts().len() - k,
        {
            let v = self.counts[k];
            proof {
                let taken = self.spec_counts().take(k as int + 1);
                assert(taken.drop_last() =~= self.spec_counts().take(k as int));
                assert(taken.last() == self.spec_counts()[k as int]);
            }
            if v > m {
                m = v;
            }
            k = k + 1;
        }
        proof {
            assert(self.spec_counts().take(self.spec_counts().len() as int) =~= self.spec_counts());
        }
        m
    }
}

/// Accumulation never changes the size of the buffer.
pub proof fn lemma_acc_all_len(s: Seq<i32>, w: int, h: int, ps: Seq<Point>)
    requires
        s.len() == w * h,
    ensures
        acc_all(s, w, h, ps).len() == s.len(),
    decreases ps.len(),
{
    if ps.len() > 0 {
        lemma_acc_all_len(s, w, h, ps.drop_last());
        let p = ps.last();
        if in_bounds(w, h, p) {
            assert(0 <= cell(w, p) < w * h) by (nonlinear_arith)
                requires
                    0 <= p.0 < w,
                    0 <= p.1 < h,
            ;
        }
    }
}

/// Cell by cell, accumulation adds the number of points that land on the
/// cell, held at the counter's ceiling.
pub proof fn lemma_acc_all_cell(s: Seq<i32>, w: int, h: int, ps: Seq<Point>, j: int)
    requires
        s.len() == w * h,
        0 <= j < s.len(),
    ensures
        acc_all(s, w, h, ps)[j] == sat_add(s[j] as int, hits(ps, w, h, j)),
    decreases ps.len(),
{
    lemma_acc_all_len(s, w, h, ps);
    if ps.len() == 0 {
    } else {
        let dl = ps.drop_last();
        let p = ps.last();
        lemma_acc_all_cell(s, w, h, dl, j);
        lemma_acc_all_len(s, w, h, dl);
        if in_bounds(w, h, p) {
            assert(0 <= cell(w, p) < w * h) by (nonlinear_arith)
                requires
                    0 <= p.0 < w,
                    0 <= p.1 < h,
            ;
        }
    }
}

/// The number of points of `ps` landing on cell `j`, read off the
/// multiset of `ps`: the order of the points cannot matter to it.
pub proof fn lemma_hits_multiset(ps: Seq<Point>, w: int, h: int, j: int)
    ensures
        hits(ps, w, h, j) == ps.to_multiset().filter(
            |p: Point| in_bounds(w, h, p) && cell(w, p) == j,
        ).len(),
    decreases ps.len(),
{
    broadcast use vstd::seq_lib::group_to_multiset_ensures;

    let pred = |p: Point| in_bounds(w, h, p) && cell(w, p) == j;
    if ps.len() == 0 {
        assert(ps.to_multiset().len() == 0);
        assert(ps.to_multiset().filter(pred) =~= Multiset::<Point>::empty()) by {
            assert forall|v: Point| #[trigger]
                ps.to_multiset().filter(pred).count(v) == 0 by {
                assert(ps.to_multiset().count(v) <= ps.to_multiset().len());
            }
        }
    } else {
        let dl = ps.drop_last();
        let p = ps.last();
        lemma_hits_multiset(dl, w, h, j);
        assert(dl.push(p) =~= ps);
        assert(dl.push(p).to_multiset() == dl.to_multiset().insert(p));
        let m = dl.to_multiset();
        if pred(p) {
            assert(m.insert(p).filter(pred) =~= m.filter(pred).insert(p)) by {
                assert forall|v: Point| #[trigger]
                    m.insert(p).filter(pred).count(v) == m.filter(pred).insert(p).count(v) by {
                    vstd::multiset::lemma_insert_increases_count_by_1(m, p);
                    vstd::multiset::lemma_insert_increases_count_by_1(m.filter(pred), p);
                    if v != p {
                        vstd::multiset::lemma_insert_other_elements_unchanged(m, p, v);
                        vstd::multiset::lemma_insert_other_elements_unchanged(m.filter(pred), p, v);
                    }
                }
            }
            vstd::multiset::lemma_insert_len(m.filter(pred), p);
        } else {
            assert(m.insert(p).filter(pred) =~= m.filter(pred)) by {
                assert forall|v: Point| #[trigger]
                    m.insert(p).filter(pred).count(v) == m.filter(pred).count(v) by {
                    vstd::multiset::lemma_insert_increases_count_by_1(m, p);
                    if v != p {
                        vstd::multiset::lemma_insert_other_elements_unchanged(m, p, v);
                    }
                }
            }
        }
    }
}

/// Delivering the same collection of projected points, in any order,
/// yields the same density buffer: accumulation is commutative, so the
/// interleaving of the sampling workers can never show in the result.
pub proof fn lemma_accumulate_commutes(
    s: Seq<i32>,
    w: int,
    h: int,
    ps1: Seq<Point>,
    ps2: Seq<Point>,
)
    requires
        s.len() == w * h,
        ps1.to_multiset() == ps2.to_multiset(),
    ensures
        acc_all(s, w, h, ps1) == acc_all(s, w, h, ps2),
{
    lemma_acc_all_len(s, w, h, ps1);
    lemma_acc_all_len(s, w, h, ps2);
    assert forall|j: int| 0 <= j < s.len() implies #[trigger] acc_all(s, w, h, ps1)[j] == acc_all(
        s,
        w,
        h,
        ps2,
    )[j] by {
        lemma_acc_all_cell(s, w, h, ps1, j);
        lemma_acc_all_cell(s, w, h, ps2, j);
        lemma_hits_multiset(ps1, w, h, j);
        lemma_hits_multiset(ps2, w, h, j);
    }
    assert(acc_all(s, w, h, ps1) =~= acc_all(s, w, h, ps2));
}

/// Every element of a non-empty sequence is at most its maximum, and the
/// maximum is one of the elements.
pub proof fn lemma_max_of_props(s: Seq<i32>)
    requires
        s.len() >= 1,
    ensures
        forall|j: int| 0 <= j < s.len() ==> #[trigger] s[j] <= max_of(s),
        exists|j: int| 0 <= j < s.len() && s[j] == max_of(s),
    decreases s.len(),
{
    if s.len() == 1 {
        assert(s[0] == max_of(s));
    } else {
        lemma_max_of_props(s.drop_last());
        let rest = max_of(s.drop_last());
        assert forall|j: int| 0 <= j < s.len() implies #[trigger] s[j] <= max_of(s) by {
            if j < s.len() - 1 {
                assert(s[j] == s.drop_last()[j]);
                assert(s.drop_last()[j] <= rest);
            }
        }
        if s.last() as int > rest {
            assert(s[s.len() - 1] == max_of(s));
        } else {
            let witness = choose|j: int| 0 <= j < s.len() - 1 && s.drop_last()[j] == rest;
            assert(s[witness] == max_of(s));
        }
    }
}

} // verus!
