//! Taking items from several lanes in turn.

use vstd::prelude::*;

use crate::record::Record;

verus! {

/// The items that the first `k` lanes give in a round.
pub open spec fn round<A>(lanes: Seq<Seq<A>>, r: int, k: nat) -> Seq<A>
    decreases k,
{
    if k == 0 || k > lanes.len() {
        Seq::empty()
    } else {
        let before = round(lanes, r, (k - 1) as nat);
        if 0 <= r < lanes[k - 1].len() {
            before.push(lanes[k - 1][r])
        } else {
            before
        }
    }
}

/// The items of the first `r` rounds.
pub open spec fn rounds<A>(lanes: Seq<Seq<A>>, r: nat) -> Seq<A>
    decreases r,
{
    if r == 0 {
        Seq::empty()
    } else {
        rounds(lanes, (r - 1) as nat) + round(lanes, r - 1, lanes.len())
    }
}

/// The length of the longest of the first `k` lanes.
pub open spec fn longest<A>(lanes: Seq<Seq<A>>, k: nat) -> nat
    decreases k,
{
    if k == 0 || k > lanes.len() {
        0
    } else {
        let before = longest(lanes, (k - 1) as nat);
        if lanes[k - 1].len() > before {
            lanes[k - 1].len()
        } else {
            before
        }
    }
}

/// All items in fair order: the first of each lane, then the second of each, and
/// so on.
pub open spec fn fair_order<A>(lanes: Seq<Seq<A>>) -> Seq<A> {
    rounds(lanes, longest(lanes, lanes.len()))
}

/// The first items of a list, up to a number.
pub open spec fn first_of<A>(s: Seq<A>, limit: nat) -> Seq<A> {
    if s.len() <= limit {
        s
    } else {
        s.take(limit as int)
    }
}

/// The number of items in the first `k` lanes.
pub open spec fn lane_total<A>(lanes: Seq<Seq<A>>, k: nat) -> nat
    decreases k,
{
    if k == 0 || k > lanes.len() {
        0
    } else {
        lane_total(lanes, (k - 1) as nat) + lanes[k - 1].len()
    }
}

/// The number of items that the first `k` lanes give in `r` rounds.
pub open spec fn given<A>(lanes: Seq<Seq<A>>, r: nat, k: nat) -> nat
    decreases k,
{
    if k == 0 || k > lanes.len() {
        0
    } else {
        given(lanes, r, (k - 1) as nat) + if r < lanes[k - 1].len() {
            r
        } else {
            lanes[k - 1].len()
        }
    }
}

/// No lane is longer than the longest.
pub proof fn lane_within_longest<A>(lanes: Seq<Seq<A>>, i: int, k: nat)
    requires
        0 <= i < k <= lanes.len(),
    ensures
        lanes[i].len() <= longest(lanes, k),
    decreases k,
{
    if i < k - 1 {
        lane_within_longest(lanes, i, (k - 1) as nat);
    }
}

proof fn round_beyond<A>(lanes: Seq<Seq<A>>, r: nat, k: nat)
    requires
        r >= longest(lanes, k),
        k <= lanes.len(),
    ensures
        round(lanes, r as int, k).len() == 0,
    decreases k,
{
    if k > 0 {
        round_beyond(lanes, r, (k - 1) as nat);
    }
}

proof fn round_extends<A>(lanes: Seq<Seq<A>>, r: int, j: nat, k: nat)
    requires
        j <= k <= lanes.len(),
    ensures
        round(lanes, r, j).is_prefix_of(round(lanes, r, k)),
    decreases k,
{
    if j < k {
        round_extends(lanes, r, j, (k - 1) as nat);
    }
}

proof fn rounds_extend<A>(lanes: Seq<Seq<A>>, q: nat, r: nat)
    requires
        q <= r,
    ensures
        rounds(lanes, q).is_prefix_of(rounds(lanes, r)),
    decreases r,
{
    if q < r {
        rounds_extend(lanes, q, (r - 1) as nat);
    }
}

proof fn rounds_beyond<A>(lanes: Seq<Seq<A>>, r: nat)
    requires
        r >= longest(lanes, lanes.len()),
    ensures
        rounds(lanes, r) == fair_order(lanes),
    decreases r,
{
    if r > longest(lanes, lanes.len()) {
        rounds_beyond(lanes, (r - 1) as nat);
        round_beyond(lanes, (r - 1) as nat, lanes.len());
        assert(rounds(lanes, r) =~= rounds(lanes, (r - 1) as nat));
    }
}

proof fn part_is_prefix<A>(lanes: Seq<Seq<A>>, r: nat, k: nat)
    requires
        k <= lanes.len(),
    ensures
        (rounds(lanes, r) + round(lanes, r as int, k)).is_prefix_of(fair_order(lanes)),
{
    round_extends(lanes, r as int, k, lanes.len());
    let all = longest(lanes, lanes.len());
    if r + 1 <= all {
        rounds_extend(lanes, r + 1, all);
        assert((rounds(lanes, r) + round(lanes, r as int, k)).is_prefix_of(rounds(lanes, r + 1)));
    } else {
        rounds_beyond(lanes, r);
        round_beyond(lanes, r, lanes.len());
        assert(round(lanes, r as int, k).len() == 0);
    }
}

proof fn given_step<A>(lanes: Seq<Seq<A>>, r: nat, k: nat)
    requires
        k <= lanes.len(),
    ensures
        given(lanes, r + 1, k) == given(lanes, r, k) + round(lanes, r as int, k).len(),
    decreases k,
{
    if k > 0 {
        given_step(lanes, r, (k - 1) as nat);
    }
}

proof fn given_is_rounds<A>(lanes: Seq<Seq<A>>, r: nat)
    ensures
        rounds(lanes, r).len() == given(lanes, r, lanes.len()),
    decreases r,
{
    if r > 0 {
        given_is_rounds(lanes, (r - 1) as nat);
        given_step(lanes, (r - 1) as nat, lanes.len());
    } else {
        given_nothing(lanes, lanes.len());
    }
}

proof fn given_nothing<A>(lanes: Seq<Seq<A>>, k: nat)
    ensures
        given(lanes, 0, k) == 0,
    decreases k,
{
    if k > 0 && k <= lanes.len() {
        given_nothing(lanes, (k - 1) as nat);
    }
}

proof fn given_everything<A>(lanes: Seq<Seq<A>>, r: nat, k: nat)
    requires
        k <= lanes.len(),
        forall|i: int| 0 <= i < k ==> (#[trigger] lanes[i]).len() <= r,
    ensures
        given(lanes, r, k) == lane_total(lanes, k),
    decreases k,
{
    if k > 0 {
        given_everything(lanes, r, (k - 1) as nat);
    }
}

/// The fair order leaves out no item and adds none: it is as long as the lanes
/// together.
pub proof fn fair_order_is_complete<A>(lanes: Seq<Seq<A>>)
    ensures
        fair_order(lanes).len() == lane_total(lanes, lanes.len()),
{
    let all = longest(lanes, lanes.len());
    given_is_rounds(lanes, all);
    assert forall|i: int| 0 <= i < lanes.len() implies (#[trigger] lanes[i]).len() <= all by {
        lane_within_longest(lanes, i, lanes.len());
    }
    given_everything(lanes, all, lanes.len());
}

proof fn round_has_items<A>(lanes: Seq<Seq<A>>, depth: int, k: nat, x: A)
    requires
        0 <= depth,
        k <= lanes.len(),
    ensures
        round(lanes, depth, k).contains(x) <==> exists|i: int|
            0 <= i < k && depth < (#[trigger] lanes[i]).len() && lanes[i][depth] == x,
    decreases k,
{
    if k > 0 {
        let before = round(lanes, depth, (k - 1) as nat);
        let all = round(lanes, depth, k);
        round_has_items(lanes, depth, (k - 1) as nat, x);
        if depth < lanes[k - 1].len() {
            assert(all == before.push(lanes[k - 1][depth]));
            if all.contains(x) {
                let m = choose|m: int| 0 <= m < all.len() && all[m] == x;
                if m < before.len() {
                    assert(before[m] == x);
                    assert(before.contains(x));
                } else {
                    assert(depth < lanes[k - 1].len() && lanes[k - 1][depth] == x);
                }
            }
            if before.contains(x) {
                let m = choose|m: int| 0 <= m < before.len() && before[m] == x;
                assert(all[m] == x);
            }
            if lanes[k - 1][depth] == x {
                assert(all[before.len() as int] == x);
            }
        }
        if exists|i: int| 0 <= i < k && depth < (#[trigger] lanes[i]).len() && lanes[i][depth] == x {
            let i = choose|i: int|
                0 <= i < k && depth < (#[trigger] lanes[i]).len() && lanes[i][depth] == x;
            if i < k - 1 {
                assert(0 <= i < k - 1 && depth < lanes[i].len() && lanes[i][depth] == x);
            }
        }
    }
}

proof fn rounds_have_items<A>(lanes: Seq<Seq<A>>, r: nat, x: A)
    ensures
        rounds(lanes, r).contains(x) <==> exists|i: int, d: int|
            0 <= i < lanes.len() && 0 <= d < r && d < lanes[i].len() && #[trigger] lanes[i][d] == x,
    decreases r,
{
    if r > 0 {
        let before = rounds(lanes, (r - 1) as nat);
        let last = round(lanes, r - 1, lanes.len());
        let all = rounds(lanes, r);
        rounds_have_items(lanes, (r - 1) as nat, x);
        round_has_items(lanes, r - 1, lanes.len(), x);
        if all.contains(x) {
            let m = choose|m: int| 0 <= m < all.len() && all[m] == x;
            if m < before.len() {
                assert(before[m] == x);
                assert(before.contains(x));
            } else {
                assert(last[m - before.len()] == x);
                assert(last.contains(x));
                let i = choose|i: int|
                    0 <= i < lanes.len() && r - 1 < (#[trigger] lanes[i]).len() && lanes[i][r - 1]
                        == x;
                assert(lanes[i][r - 1] == x);
            }
        }
        if exists|i: int, d: int|
            0 <= i < lanes.len() && 0 <= d < r && d < lanes[i].len() && #[trigger] lanes[i][d]
                == x {
            let (i, d) = choose|i: int, d: int|
                0 <= i < lanes.len() && 0 <= d < r && d < lanes[i].len() && #[trigger] lanes[i][d]
                    == x;
            if d < r - 1 {
                assert(before.contains(x));
                let m = choose|m: int| 0 <= m < before.len() && before[m] == x;
                assert(all[m] == x);
            } else {
                assert(r - 1 < lanes[i].len() && lanes[i][r - 1] == x);
                assert(last.contains(x));
                let m = choose|m: int| 0 <= m < last.len() && last[m] == x;
                assert(all[before.len() + m] == x);
            }
        }
    }
}

/// The fair order has every item of the lanes, and no others.
pub proof fn fair_order_has_all<A>(lanes: Seq<Seq<A>>, x: A)
    ensures
        fair_order(lanes).contains(x) <==> exists|i: int|
            0 <= i < lanes.len() && (#[trigger] lanes[i]).contains(x),
{
    let all = longest(lanes, lanes.len());
    rounds_have_items(lanes, all, x);
    if exists|i: int| 0 <= i < lanes.len() && (#[trigger] lanes[i]).contains(x) {
        let i = choose|i: int| 0 <= i < lanes.len() && (#[trigger] lanes[i]).contains(x);
        let d = choose|d: int| 0 <= d < lanes[i].len() && lanes[i][d] == x;
        lane_within_longest(lanes, i, lanes.len());
        assert(lanes[i][d] == x);
    }
    if fair_order(lanes).contains(x) {
        let (i, d) = choose|i: int, d: int|
            0 <= i < lanes.len() && 0 <= d < all && d < lanes[i].len() && #[trigger] lanes[i][d]
                == x;
        assert(lanes[i].contains(x));
    }
}

/// After any number of rounds, a lane has given as many items as there were
/// rounds, or all that it has.
pub proof fn rounds_are_fair<A>(lanes: Seq<Seq<A>>, r: nat)
    ensures
        rounds(lanes, r).len() == given(lanes, r, lanes.len()),
        rounds(lanes, r).is_prefix_of(fair_order(lanes)),
{
    given_is_rounds(lanes, r);
    part_is_prefix(lanes, r, 0);
    assert(rounds(lanes, r) + round(lanes, r as int, 0) =~= rounds(lanes, r));
}

/// Takes items from the lanes in turn, up to a number.
pub fn take_fairly<T: Record>(lanes: &Vec<Vec<T>>, limit: usize) -> (r: Vec<T>)
    ensures
        r.deep_view() == first_of(fair_order(lanes.deep_view()), limit as nat),
{
    let ghost m = lanes.deep_view();
    let mut taken: Vec<T> = Vec::new();
    let mut depth: usize = 0;
    assert(taken.deep_view() =~= rounds(m, 0));
    while depth < usize::MAX
        invariant
            m == lanes.deep_view(),
            taken.deep_view() == rounds(m, depth as nat),
            taken@.len() <= limit,
        decreases usize::MAX - depth,
    {
        let mut k: usize = 0;
        let mut progressed = false;
        assert(taken.deep_view() =~= rounds(m, depth as nat) + round(m, depth as int, 0));
        while k < lanes.len()
            invariant
                k <= lanes.len(),
                m == lanes.deep_view(),
                taken@.len() <= limit,
                taken.deep_view() == rounds(m, depth as nat) + round(m, depth as int, k as nat),
                progressed == exists|i: int| 0 <= i < k && depth < (#[trigger] m[i]).len(),
            decreases lanes.len() - k,
        {
            assert(m[k as int] == lanes@[k as int].deep_view());
            let lane = &lanes[k];
            if depth < lane.len() {
                if taken.len() == limit {
                    proof {
                        part_is_prefix(m, depth as nat, (k + 1) as nat);
                        let part = rounds(m, depth as nat) + round(m, depth as int, (k + 1) as nat);
                        let all = fair_order(m);
                        assert(round(m, depth as int, (k + 1) as nat) == round(
                            m,
                            depth as int,
                            k as nat,
                        ).push(m[k as int][depth as int]));
                        assert(taken.deep_view().len() == limit);
                        assert(part.len() == limit + 1);
                        assert(part =~= all.subrange(0, part.len() as int));
                        assert forall|i: int| 0 <= i < limit implies all[i]
                            == #[trigger] taken.deep_view()[i] by {
                            assert(part[i] == all.subrange(0, part.len() as int)[i]);
                        }
                        assert(first_of(all, limit as nat) =~= taken.deep_view());
                    }
                    return taken;
                }
                let ghost before = taken.deep_view();
                assert(lane.deep_view()[depth as int] == lane@[depth as int].deep_view());
                taken.push(lane[depth].copied());
                assert(taken.deep_view() =~= before.push(m[k as int][depth as int]));
                assert(taken.deep_view() =~= rounds(m, depth as nat) + round(
                    m,
                    depth as int,
                    (k + 1) as nat,
                ));
                progressed = true;
                assert(depth < m[k as int].len());
            }
            k = k + 1;
        }
        if !progressed {
            proof {
                nothing_left(m, depth as nat, m.len());
                rounds_beyond(m, depth as nat);
                round_beyond(m, depth as nat, m.len());
                assert(taken.deep_view() =~= rounds(m, depth as nat));
            }
            return taken;
        }
        assert(taken.deep_view() =~= rounds(m, (depth + 1) as nat));
        depth = depth + 1;
    }
    proof {
        assert forall|i: int| 0 <= i < m.len() implies (#[trigger] m[i]).len() <= depth by {
            assert(m[i] == lanes@[i].deep_view());
            assert(lanes@[i].len() <= usize::MAX);
        }
        nothing_left(m, depth as nat, m.len());
        rounds_beyond(m, depth as nat);
    }
    taken
}

proof fn nothing_left<A>(lanes: Seq<Seq<A>>, r: nat, k: nat)
    requires
        k <= lanes.len(),
        forall|i: int| 0 <= i < k ==> (#[trigger] lanes[i]).len() <= r,
    ensures
        longest(lanes, k) <= r,
    decreases k,
{
    if k > 0 {
        nothing_left(lanes, r, (k - 1) as nat);
    }
}

} // verus!
