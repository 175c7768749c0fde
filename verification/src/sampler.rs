use vstd::prelude::*;

verus! {

/// The candidates among the first `n` that were accepted, in order: for
/// each `j` with `accepted[j]` the point `(xs[j], ys[j], zs[j])`.
pub open spec fn accepted_points<S>(
    xs: Seq<S>,
    ys: Seq<S>,
    zs: Seq<S>,
    accepted: Seq<bool>,
    n: nat,
) -> Seq<[S; 3]>
    decreases n,
{
    if n == 0 {
        Seq::empty()
    } else if accepted[n - 1] {
        accepted_points(xs, ys, zs, accepted, (n - 1) as nat).push([xs[n - 1], ys[n - 1], zs[n - 1]])
    } else {
        accepted_points(xs, ys, zs, accepted, (n - 1) as nat)
    }
}

/// Accepted candidates are no more than candidates, and counting more
/// candidates loses none.
pub proof fn lemma_accepted_points_grow<S>(
    xs: Seq<S>,
    ys: Seq<S>,
    zs: Seq<S>,
    accepted: Seq<bool>,
    m: nat,
    n: nat,
)
    requires
        m <= n,
    ensures
        accepted_points(xs, ys, zs, accepted, m).len() <= accepted_points(xs, ys, zs, accepted, n).len(),
        accepted_points(xs, ys, zs, accepted, n).len() <= n,
        accepted_points(xs, ys, zs, accepted, m) == accepted_points(xs, ys, zs, accepted, n).take(
            accepted_points(xs, ys, zs, accepted, m).len() as int,
        ),
    decreases n,
{
    if n == 0 {
        assert(accepted_points(xs, ys, zs, accepted, m) =~= accepted_points(xs, ys, zs, accepted, n).take(0));
    } else if m == n {
        lemma_accepted_points_grow(xs, ys, zs, accepted, (n - 1) as nat, (n - 1) as nat);
        let all = accepted_points(xs, ys, zs, accepted, n);
        assert(all =~= all.take(all.len() as int));
    } else {
        lemma_accepted_points_grow(xs, ys, zs, accepted, m, (n - 1) as nat);
        let some = accepted_points(xs, ys, zs, accepted, m);
        let most = accepted_points(xs, ys, zs, accepted, (n - 1) as nat);
        let all = accepted_points(xs, ys, zs, accepted, n);
        assert(some =~= all.take(some.len() as int)) by {
            assert(some == most.take(some.len() as int));
        }
    }
}

/// Collects the positions of a fixed number of particles from batches of
/// candidates, each of which was accepted or rejected by its density.
pub struct OrbitalSampler<S> {
    /// The number of points to collect.
    pub count: usize,
    /// The points collected so far, in the order they were accepted.
    pub points: Vec<[S; 3]>,
}

impl<S: Copy> OrbitalSampler<S> {
    /// The sampler holds no more points than it is to collect.
    pub open spec fn wf(&self) -> bool {
        self.points@.len() <= self.count
    }

    /// A sampler that is to collect `count` points and has none yet.
    pub fn new(count: usize) -> (sampler: Self)
        ensures
            sampler.wf(),
            sampler.count == count,
            sampler.points@.len() == 0,
    {
        OrbitalSampler { count, points: Vec::new() }
    }

    /// The number of points that are still to be collected.
    pub fn missing(&self) -> (n: usize)
        requires
            self.wf(),
        ensures
            n == self.count - self.points@.len(),
    {
        self.count - self.points.len()
    }

    /// Whether every point was collected.
    pub fn is_complete(&self) -> (done: bool)
        requires
            self.wf(),
        ensures
            done == (self.points@.len() == self.count),
    {
        self.points.len() == self.count
    }

    /// Takes the accepted candidates of one batch, in order, until the
    /// sampler is complete, and returns how many it took. Candidate `j` is
    /// the point `(xs[j], ys[j], zs[j])`, and was accepted if `accepted[j]`.
    pub fn collect(&mut self, xs: &Vec<S>, ys: &Vec<S>, zs: &Vec<S>, accepted: &Vec<bool>) -> (taken: usize)
        requires
            old(self).wf(),
            xs@.len() == accepted@.len(),
            ys@.len() == accepted@.len(),
            zs@.len() == accepted@.len(),
        ensures
            final(self).wf(),
            final(self).count == old(self).count,
            taken == vstd::math::min(
                old(self).count - old(self).points@.len(),
                accepted_points(xs@, ys@, zs@, accepted@, accepted@.len()).len() as int,
            ),
            final(self).points@ == old(self).points@ + accepted_points(
                xs@,
                ys@,
                zs@,
                accepted@,
                accepted@.len(),
            ).take(taken as int),
    {
        let ghost before = self.points@;
        let ghost all = accepted_points(xs@, ys@, zs@, accepted@, accepted@.len());
        let mut taken: usize = 0;
        let mut j: usize = 0;
        proof {
            lemma_accepted_points_grow(xs@, ys@, zs@, accepted@, 0, accepted@.len());
            assert(self.points@ =~= before + all.take(0));
        }
        while j < accepted.len() && self.points.len() < self.count
            invariant
                j <= accepted@.len(),
                xs@.len() == accepted@.len(),
                ys@.len() == accepted@.len(),
                zs@.len() == accepted@.len(),
                self.count == old(self).count,
                before == old(self).points@,
                all == accepted_points(xs@, ys@, zs@, accepted@, accepted@.len()),
                self.points@.len() <= self.count,
                taken == accepted_points(xs@, ys@, zs@, accepted@, j as nat).len(),
                self.points@ == before + all.take(taken as int),
            decreases accepted@.len() - j,
        {
            proof {
                lemma_accepted_points_grow(xs@, ys@, zs@, accepted@, (j + 1) as nat, accepted@.len());
            }
            if accepted[j] {
                self.points.push([xs[j], ys[j], zs[j]]);
                taken += 1;
                proof {
                    let upto = accepted_points(xs@, ys@, zs@, accepted@, (j + 1) as nat);
                    assert(upto == all.take(upto.len() as int));
                    assert(all[taken - 1] == upto[taken - 1]);
                    assert(self.points@ =~= before + all.take(taken as int));
                }
            }
            j += 1;
        }
        proof {
            lemma_accepted_points_grow(xs@, ys@, zs@, accepted@, j as nat, accepted@.len());
        }
        taken
    }

    /// The positions collected, three components a point, one point after
    /// the other: the data that seeds the instance buffer.
    pub fn instance_data(&self) -> (data: Vec<S>)
        ensures
            data@ == flattened(self.points@),
    {
        let mut data: Vec<S> = Vec::new();
        let mut i: usize = 0;
        while i < self.points.len()
            invariant
                i <= self.points@.len(),
                data@.len() == 3 * i,
                forall|k: int| 0 <= k < 3 * i ==> #[trigger] data@[k] == flattened(self.points@)[k],
            decreases self.points@.len() - i,
        {
            let point = self.points[i];
            data.push(point[0]);
            data.push(point[1]);
            data.push(point[2]);
            i += 1;
        }
        assert(data@ =~= flattened(self.points@));
        data
    }
}

/// The components of `points` in one sequence: entry `k` is component
/// `k % 3` of point `k / 3`.
pub open spec fn flattened<S>(points: Seq<[S; 3]>) -> Seq<S> {
    Seq::new(3 * points.len(), |k: int| points[k / 3][k % 3])
}

/// Every point that is taken from a batch is one of its candidates, and
/// one that was accepted.
pub proof fn lemma_taken_were_accepted<S>(
    xs: Seq<S>,
    ys: Seq<S>,
    zs: Seq<S>,
    accepted: Seq<bool>,
    n: nat,
    k: int,
)
    requires
        0 <= k < accepted_points(xs, ys, zs, accepted, n).len(),
    ensures
        exists|j: int|
            0 <= j < n && #[trigger] accepted[j] && accepted_points(xs, ys, zs, accepted, n)[k] == [
                xs[j],
                ys[j],
                zs[j],
            ],
    decreases n,
{
    let before = accepted_points(xs, ys, zs, accepted, (n - 1) as nat);
    if accepted[n - 1] && k == before.len() {
        assert(accepted[n - 1] && accepted_points(xs, ys, zs, accepted, n)[k] == [
            xs[n - 1],
            ys[n - 1],
            zs[n - 1],
        ]);
    } else {
        lemma_taken_were_accepted(xs, ys, zs, accepted, (n - 1) as nat, k);
        let j = choose|j: int|
            0 <= j < n - 1 && #[trigger] accepted[j] && before[k] == [xs[j], ys[j], zs[j]];
        assert(0 <= j < n && accepted[j] && accepted_points(xs, ys, zs, accepted, n)[k] == [
            xs[j],
            ys[j],
            zs[j],
        ]);
    }
}

/// `maxes[j]` is `proxies[j]` where that exceeds the largest density before
/// it, and the largest density before it where it does not. Before the
/// first candidate the largest density is its own.
pub open spec fn is_max_at<S, L: Fn(S, S) -> bool>(proxies: Seq<S>, maxes: Seq<S>, exceeds: L, j: int) -> bool {
    let before = if j == 0 {
        proxies[0]
    } else {
        maxes[j - 1]
    };
    ||| call_ensures(exceeds, (proxies[j], before), true) && maxes[j] == proxies[j]
    ||| call_ensures(exceeds, (proxies[j], before), false) && maxes[j] == before
}

/// `maxes[j]` is the largest of the densities `proxies[0..=j]`, as
/// `exceeds` orders them, for each `j`.
pub open spec fn running_maxes<S, L: Fn(S, S) -> bool>(proxies: Seq<S>, maxes: Seq<S>, exceeds: L) -> bool {
    &&& maxes.len() == proxies.len()
    &&& forall|j: int| 0 <= j < proxies.len() ==> #[trigger] is_max_at(proxies, maxes, exceeds, j)
}

/// The running maximum of the densities of one batch: for each candidate
/// the largest density met in the batch up to and with it, where
/// `exceeds(a, b)` says whether `a` is larger than `b`.
pub fn running_max<S: Copy, L: Fn(S, S) -> bool>(proxies: &Vec<S>, exceeds: L) -> (maxes: Vec<S>)
    requires
        forall|a: S, b: S| call_requires(exceeds, (a, b)),
    ensures
        running_maxes(proxies@, maxes@, exceeds),
{
    let mut maxes: Vec<S> = Vec::new();
    let mut j: usize = 0;
    while j < proxies.len()
        invariant
            j <= proxies@.len(),
            forall|a: S, b: S| call_requires(exceeds, (a, b)),
            maxes@.len() == j,
            forall|k: int| 0 <= k < j ==> #[trigger] is_max_at(proxies@, maxes@, exceeds, k),
        decreases proxies@.len() - j,
    {
        let before = if j == 0 {
            proxies[0]
        } else {
            maxes[j - 1]
        };
        let larger = exceeds(proxies[j], before);
        let ghost earlier = maxes@;
        maxes.push(if larger { proxies[j] } else { before });
        proof {
            assert forall|k: int| 0 <= k < j + 1 implies #[trigger] is_max_at(proxies@, maxes@, exceeds, k) by {
                if k < j {
                    assert(is_max_at(proxies@, earlier, exceeds, k));
                    assert(maxes@[k] == earlier[k]);
                    if k > 0 {
                        assert(maxes@[k - 1] == earlier[k - 1]);
                    }
                }
            }
        }
        j += 1;
    }
    maxes
}

/// Tests each candidate of a batch against the running maximum of its
/// batch: `accepts(p, m)` says whether the density `p` is a large enough
/// share of the maximum `m`.
pub fn accept<S: Copy, A: Fn(S, S) -> bool>(
    proxies: &Vec<S>,
    maxes: &Vec<S>,
    accepts: A,
) -> (accepted: Vec<bool>)
    requires
        maxes@.len() == proxies@.len(),
        forall|p: S, m: S| call_requires(accepts, (p, m)),
    ensures
        accepted@.len() == proxies@.len(),
        forall|j: int|
            0 <= j < proxies@.len() ==> call_ensures(accepts, (proxies@[j], maxes@[j]), #[trigger] accepted@[j]),
{
    let mut accepted: Vec<bool> = Vec::new();
    let mut j: usize = 0;
    while j < proxies.len()
        invariant
            j <= proxies@.len(),
            maxes@.len() == proxies@.len(),
            forall|p: S, m: S| call_requires(accepts, (p, m)),
            accepted@.len() == j,
            forall|k: int|
                0 <= k < j ==> call_ensures(accepts, (proxies@[k], maxes@[k]), #[trigger] accepted@[k]),
        decreases proxies@.len() - j,
    {
        let flag = accepts(proxies[j], maxes[j]);
        accepted.push(flag);
        j += 1;
    }
    accepted
}

/// Every point that is taken from a batch passed the test against the
/// running maximum of the batch at its own place.
pub proof fn lemma_taken_passed<S, A: Fn(S, S) -> bool>(
    xs: Seq<S>,
    ys: Seq<S>,
    zs: Seq<S>,
    proxies: Seq<S>,
    maxes: Seq<S>,
    accepted: Seq<bool>,
    accepts: A,
    k: int,
)
    requires
        accepted.len() == proxies.len(),
        forall|j: int|
            0 <= j < proxies.len() ==> call_ensures(accepts, (proxies[j], maxes[j]), #[trigger] accepted[j]),
        0 <= k < accepted_points(xs, ys, zs, accepted, accepted.len()).len(),
    ensures
        exists|j: int|
            0 <= j < accepted.len() && #[trigger] accepted[j] && call_ensures(
                accepts,
                (proxies[j], maxes[j]),
                true,
            ) && accepted_points(xs, ys, zs, accepted, accepted.len())[k] == [xs[j], ys[j], zs[j]],
{
    lemma_taken_were_accepted(xs, ys, zs, accepted, accepted.len(), k);
    let j = choose|j: int|
        0 <= j < accepted.len() && #[trigger] accepted[j] && accepted_points(
            xs,
            ys,
            zs,
            accepted,
            accepted.len(),
        )[k] == [xs[j], ys[j], zs[j]];
    assert(accepted[j] && call_ensures(accepts, (proxies[j], maxes[j]), true));
}

} // verus!
