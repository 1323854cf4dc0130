//! The rendition filter: which renditions of a master playlist stay, and which
//! of them comes first.

use crate::playlist::{FrameRate, MasterDocument, Rendition};
use vstd::prelude::*;

verus! {

/// The least bandwidth that passes when `min` is the lower bound asked for.
pub open spec fn lower_bound(min: Option<u64>) -> u64 {
    match min {
        Some(lo) => lo,
        None => 0,
    }
}

/// The greatest bandwidth that passes when `max` is the upper bound asked for.
pub open spec fn upper_bound(max: Option<u64>) -> u64 {
    match max {
        Some(hi) => hi,
        None => u64::MAX,
    }
}

/// The test that a rendition passes when its bandwidth lies between the two
/// bounds, both included.
pub open spec fn bandwidth_test(min: Option<u64>, max: Option<u64>) -> spec_fn(Rendition) -> bool {
    |r: Rendition| lower_bound(min) <= r.bandwidth <= upper_bound(max)
}

/// The test that a rendition passes when the playlist gives it exactly the
/// frame rate `rate`.
pub open spec fn frame_rate_test(rate: FrameRate) -> spec_fn(Rendition) -> bool {
    |r: Rendition| r.frame_rate == Some(rate)
}

/// The renditions of `s` whose bandwidth lies between the bounds, in the order
/// of `s`.
pub open spec fn within_bandwidth(s: Seq<Rendition>, min: Option<u64>, max: Option<u64>) -> Seq<
    Rendition,
> {
    s.filter(bandwidth_test(min, max))
}

/// The renditions of `s` that have the frame rate asked for, in the order of
/// `s`; all of `s` where none is asked for.
pub open spec fn at_frame_rate(s: Seq<Rendition>, rate: Option<FrameRate>) -> Seq<Rendition> {
    match rate {
        Some(x) => s.filter(frame_rate_test(x)),
        None => s,
    }
}

/// `s` with the renditions at 0 and at `index` exchanged; `s` itself where no
/// index is given, or one that is 0 or past the end.
pub open spec fn index_first(s: Seq<Rendition>, index: Option<u64>) -> Seq<Rendition> {
    match index {
        Some(i) => if 0 < i < s.len() {
            s.update(0, s[i as int]).update(i as int, s[0])
        } else {
            s
        },
        None => s,
    }
}

/// How far the bandwidth of `r` lies from `target`.
pub open spec fn distance(target: u64, r: Rendition) -> int {
    if target >= r.bandwidth {
        target - r.bandwidth
    } else {
        r.bandwidth - target
    }
}

/// Whether `i` is the place of the rendition of `s` that is closest to
/// `target`: none is closer, and those before it are farther.
pub open spec fn is_closest(s: Seq<Rendition>, target: u64, i: int) -> bool {
    &&& 0 <= i < s.len()
    &&& forall|j: int| 0 <= j < s.len() ==> distance(target, s[i]) <= distance(target, #[trigger] s[j])
    &&& forall|j: int| 0 <= j < i ==> distance(target, s[i]) < distance(target, #[trigger] s[j])
}

/// The place of the rendition of `s` that is closest to `target`, the first of
/// them where several are equally close. It means something only for a
/// non-empty `s`.
pub open spec fn closest(s: Seq<Rendition>, target: u64) -> int {
    choose|i: int| is_closest(s, target, i)
}

/// `s` with the rendition at `i` taken out and put in front of the others,
/// which keep their order.
pub open spec fn moved_first(s: Seq<Rendition>, i: int) -> Seq<Rendition> {
    s.remove(i).insert(0, s[i])
}

/// `s` with the rendition closest to `target` moved to the front; `s` itself
/// where no target is given or `s` is empty.
pub open spec fn closest_first(s: Seq<Rendition>, target: Option<u64>) -> Seq<Rendition> {
    match target {
        Some(c) => if s.len() > 0 {
            moved_first(s, closest(s, c))
        } else {
            s
        },
        None => s,
    }
}

/// Whether the places `at` pick `part` out of `whole`, going upwards.
pub open spec fn picks_in_order<T>(at: Seq<int>, part: Seq<T>, whole: Seq<T>) -> bool {
    &&& at.len() == part.len()
    &&& forall|k: int| 0 <= k < at.len() ==> 0 <= #[trigger] at[k] < whole.len() && part[k] == whole[at[k]]
    &&& forall|j: int, k: int| 0 <= j < k < at.len() ==> #[trigger] at[j] < #[trigger] at[k]
}

/// Whether `part` is made of entries of `whole`, each taken once and in the
/// order in which `whole` has them.
pub open spec fn keeps_order<T>(part: Seq<T>, whole: Seq<T>) -> bool {
    exists|at: Seq<int>| picks_in_order(at, part, whole)
}

/// A filter hands on what passes in the order in which it came.
pub proof fn lemma_filter_keeps_order<T>(s: Seq<T>, test: spec_fn(T) -> bool)
    ensures
        keeps_order(s.filter(test), s),
    decreases s.len(),
{
    reveal(Seq::filter);
    if s.len() == 0 {
        assert(picks_in_order(Seq::<int>::empty(), s.filter(test), s));
    } else {
        let front = s.drop_last();
        lemma_filter_keeps_order(front, test);
        let at = choose|at: Seq<int>| picks_in_order(at, front.filter(test), front);
        if test(s.last()) {
            let longer = at.push(s.len() - 1);
            assert(picks_in_order(longer, s.filter(test), s));
        } else {
            assert(picks_in_order(at, s.filter(test), s));
        }
    }
}

/// A filter whose test everything passes hands on all of it.
pub proof fn lemma_filter_all<T>(s: Seq<T>, test: spec_fn(T) -> bool)
    requires
        forall|i: int| 0 <= i < s.len() ==> test(#[trigger] s[i]),
    ensures
        s.filter(test) == s,
    decreases s.len(),
{
    reveal(Seq::filter);
    if s.len() > 0 {
        let front = s.drop_last();
        lemma_filter_all(front, test);
        assert(front.push(s.last()) == s);
    }
}

/// Neither filter changes the order of the renditions that it keeps.
pub proof fn lemma_filters_keep_order(
    s: Seq<Rendition>,
    min: Option<u64>,
    max: Option<u64>,
    rate: Option<FrameRate>,
)
    ensures
        keeps_order(within_bandwidth(s, min, max), s),
        keeps_order(at_frame_rate(s, rate), s),
{
    lemma_filter_keeps_order(s, bandwidth_test(min, max));
    match rate {
        Some(x) => {
            lemma_filter_keeps_order(s, frame_rate_test(x));
        },
        None => {
            let at = Seq::new(s.len(), |k: int| k);
            assert(picks_in_order(at, s, s));
        },
    }
}

/// With nothing asked for, each of the four operations leaves the renditions
/// as they are.
pub proof fn lemma_nothing_asked_nothing_changed(s: Seq<Rendition>)
    ensures
        within_bandwidth(s, None, None) == s,
        at_frame_rate(s, None) == s,
        index_first(s, None) == s,
        closest_first(s, None) == s,
{
    lemma_filter_all(s, bandwidth_test(None, None));
}

/// An index past the end leaves the renditions as they are.
pub proof fn lemma_index_past_end(s: Seq<Rendition>, i: u64)
    requires
        i >= s.len(),
    ensures
        index_first(s, Some(i)) == s,
{
}

/// At most one place is that of the closest rendition: where `i` is such a
/// place, it is the one that `closest` names.
pub proof fn lemma_closest_is_one(s: Seq<Rendition>, target: u64, i: int)
    requires
        is_closest(s, target, i),
    ensures
        closest(s, target) == i,
{
    let j = closest(s, target);
    assert(is_closest(s, target, j));
    if j < i {
        assert(distance(target, s[i]) < distance(target, s[j]));
        assert(distance(target, s[j]) <= distance(target, s[i]));
    } else if i < j {
        assert(distance(target, s[j]) < distance(target, s[i]));
        assert(distance(target, s[i]) <= distance(target, s[j]));
    }
}

/// Renditions that are not empty have a closest one, and `closest` names its
/// place.
pub proof fn lemma_closest_exists(s: Seq<Rendition>, target: u64)
    requires
        s.len() > 0,
    ensures
        is_closest(s, target, closest(s, target)),
    decreases s.len(),
{
    if s.len() == 1 {
        assert(is_closest(s, target, 0));
    } else {
        let front = s.drop_last();
        lemma_closest_exists(front, target);
        let k = closest(front, target);
        assert(front[k] == s[k]);
        let i = if distance(target, s.last()) < distance(target, s[k]) {
            s.len() - 1
        } else {
            k
        };
        assert forall|j: int| 0 <= j < s.len() implies distance(target, s[i]) <= distance(
            target,
            #[trigger] s[j],
        ) by {
            if j < s.len() - 1 {
                assert(front[j] == s[j]);
            }
        }
        assert forall|j: int| 0 <= j < i implies distance(target, s[i]) < distance(
            target,
            #[trigger] s[j],
        ) by {
            assert(front[j] == s[j]);
        }
        assert(is_closest(s, target, i));
    }
}

/// Where each rendition stands once the one at `i` has moved to the front:
/// those before `i` have each moved back by one, those after `i` stand where
/// they stood.
pub proof fn lemma_moved_first_places(s: Seq<Rendition>, i: int)
    requires
        0 <= i < s.len(),
    ensures
        moved_first(s, i).len() == s.len(),
        moved_first(s, i)[0] == s[i],
        forall|k: int| 0 < k <= i ==> #[trigger] moved_first(s, i)[k] == s[k - 1],
        forall|k: int| i < k < s.len() ==> #[trigger] moved_first(s, i)[k] == s[k],
{
}

/// Where each rendition stands once the first and the one at `i` have been
/// exchanged: these two have changed places, the others stand where they
/// stood.
pub proof fn lemma_index_first_places(s: Seq<Rendition>, i: u64)
    requires
        0 < i < s.len(),
    ensures
        index_first(s, Some(i)).len() == s.len(),
        index_first(s, Some(i))[0] == s[i as int],
        index_first(s, Some(i))[i as int] == s[0],
        forall|k: int|
            0 < k < s.len() && k != i ==> #[trigger] index_first(s, Some(i))[k] == s[k],
{
}

/// A master playlist under the rendition filter. Each operation changes the
/// playlist in place and hands the filter back, so that calls can be chained.
pub struct Master {
    pub playlist: MasterDocument,
}

impl View for Master {
    type V = Seq<Rendition>;

    open spec fn view(&self) -> Seq<Rendition> {
        self.playlist@
    }
}

/// The distance between two bandwidths.
fn gap(target: u64, bandwidth: u64) -> (d: u64)
    ensures
        d == if target >= bandwidth {
            target - bandwidth
        } else {
            bandwidth - target
        },
{
    if target >= bandwidth {
        target - bandwidth
    } else {
        bandwidth - target
    }
}

impl Master {
    /// Keeps the renditions that have exactly the frame rate `rate`, in their
    /// order. Without a rate nothing changes.
    pub fn filter_fps(&mut self, rate: Option<FrameRate>) -> (r: &mut Self)
        ensures
            r@ == at_frame_rate(old(self)@, rate),
            rate is None ==> *r == *old(self),
            *final(self) == *final(r),
    {
        if let Some(x) = rate {
            let mut all: Vec<Rendition> = Vec::new();
            std::mem::swap(&mut all, &mut self.playlist.variants);
            let ghost before = all@;
            let ghost test = frame_rate_test(x);
            let mut kept: Vec<Rendition> = Vec::new();
            for v in it: all
                invariant
                    it.seq() == before,
                    test == frame_rate_test(x),
                    kept@ == before.take(it.index() as int).filter(test),
            {
                proof {
                    assert(before.take(it.index() + 1) == before.take(it.index() as int).push(v));
                    before.take(it.index() as int).lemma_filter_push(v, test);
                }
                let passes = match v.frame_rate {
                    Some(f) => f.bits == x.bits,
                    None => false,
                };
                if passes {
                    kept.push(v);
                }
            }
            proof {
                assert(before.take(before.len() as int) == before);
            }
            self.playlist.variants = kept;
        }
        self
    }

    /// Keeps the renditions whose bandwidth lies between `min` and `max`, both
    /// included, in their order. A bound that is not given does not bind.
    pub fn filter_bandwidth(&mut self, min: Option<u64>, max: Option<u64>) -> (r: &mut Self)
        ensures
            r@ == within_bandwidth(old(self)@, min, max),
            min is None && max is None ==> r@ == old(self)@,
            *final(self) == *final(r),
    {
        let lo: u64 = match min {
            Some(m) => m,
            None => 0,
        };
        let hi: u64 = match max {
            Some(m) => m,
            None => u64::MAX,
        };
        let mut all: Vec<Rendition> = Vec::new();
        std::mem::swap(&mut all, &mut self.playlist.variants);
        let ghost before = all@;
        let ghost test = bandwidth_test(min, max);
        let mut kept: Vec<Rendition> = Vec::new();
        for v in it: all
            invariant
                it.seq() == before,
                test == bandwidth_test(min, max),
                lo == lower_bound(min),
                hi == upper_bound(max),
                kept@ == before.take(it.index() as int).filter(test),
        {
            proof {
                assert(before.take(it.index() + 1) == before.take(it.index() as int).push(v));
                before.take(it.index() as int).lemma_filter_push(v, test);
            }
            if lo <= v.bandwidth && v.bandwidth <= hi {
                kept.push(v);
            }
        }
        proof {
            assert(before.take(before.len() as int) == before);
            lemma_nothing_asked_nothing_changed(before);
        }
        self.playlist.variants = kept;
        self
    }

    /// Exchanges the first rendition with the one at `index`. Without an
    /// index, or with one that is 0 or past the end, nothing changes.
    pub fn first_variant_by_index(&mut self, index: Option<u64>) -> (r: &mut Self)
        ensures
            r@ == index_first(old(self)@, index),
            index is None ==> *r == *old(self),
            index matches Some(i) && i >= old(self)@.len() ==> *r == *old(self),
            *final(self) == *final(r),
    {
        if let Some(i) = index {
            let n = self.playlist.variants.len();
            if 0 < i && i < n as u64 {
                let at = i as usize;
                let ghost before = self.playlist.variants@;
                let promoted = self.playlist.variants.remove(at);
                let displaced = self.playlist.variants.remove(0);
                self.playlist.variants.insert(0, promoted);
                self.playlist.variants.insert(at, displaced);
                assert(self.playlist.variants@ =~= before.update(0, before[at as int]).update(
                    at as int,
                    before[0],
                ));
            }
        }
        self
    }

    /// Moves the rendition whose bandwidth is closest to `closest_bandwidth`
    /// to the front, the first of them where several are equally close; the
    /// renditions that stood before it each move back by one. Without a
    /// target, or with no renditions, nothing changes.
    pub fn first_variant_by_closest_bandwidth(&mut self, closest_bandwidth: Option<u64>) -> (r:
        &mut Self)
        ensures
            r@ == closest_first(old(self)@, closest_bandwidth),
            closest_bandwidth is None ==> *r == *old(self),
            *final(self) == *final(r),
    {
        if let Some(c) = closest_bandwidth {
            let n = self.playlist.variants.len();
            if n > 0 {
                let ghost before = self.playlist.variants@;
                let mut best: usize = 0;
                let mut least: u64 = gap(c, self.playlist.variants[0].bandwidth);
                let mut j: usize = 1;
                while j < n
                    invariant
                        self.playlist.variants@ == before,
                        n == before.len(),
                        0 <= best < j <= n,
                        least == distance(c, before[best as int]),
                        forall|k: int| 0 <= k < j ==> least <= distance(c, #[trigger] before[k]),
                        forall|k: int| 0 <= k < best ==> least < distance(c, #[trigger] before[k]),
                    decreases n - j,
                {
                    let d = gap(c, self.playlist.variants[j].bandwidth);
                    if d < least {
                        best = j;
                        least = d;
                    }
                    j = j + 1;
                }
                proof {
                    lemma_closest_is_one(before, c, best as int);
                }
                let chosen = self.playlist.variants.remove(best);
                self.playlist.variants.insert(0, chosen);
            }
        }
        self
    }
}

} // verus!
