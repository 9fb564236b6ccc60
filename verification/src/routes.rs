//! The modulation routes in the genome: a fixed number of route slots, each
//! on or off, with the LFO it follows, the target it aims at (an index into
//! the modulation targets), its depth and whether it acts in octaves.
//! Packing keeps the routes a genome can hold, in order; unpacking reads the
//! slots back. The depth is carried as it is; normalizing it is the audio
//! code's part.

use vstd::prelude::*;
use crate::genes::{is_first_target, mod_target_index};
use crate::schema::ModTarget;

verus! {

/// One modulation route of a point.
#[derive(Clone, Debug)]
pub struct Route<D> {
    pub src: usize,
    pub target: String,
    pub param: String,
    pub depth: D,
    pub exp: bool,
}

/// One route slot of a genome.
#[derive(Clone, Copy, Debug)]
pub struct RouteSlot<D> {
    pub on: bool,
    pub src: usize,
    pub target: usize,
    pub depth: D,
    pub exp: bool,
}

/// A route as the laws see it: its fields, the names as text.
pub struct RouteView<D> {
    pub src: usize,
    pub target: Seq<char>,
    pub param: Seq<char>,
    pub depth: D,
    pub exp: bool,
}

pub open spec fn route_view<D>(r: Route<D>) -> RouteView<D> {
    RouteView { src: r.src, target: r.target@, param: r.param@, depth: r.depth, exp: r.exp }
}

pub open spec fn routes_view<D>(rs: Seq<Route<D>>) -> Seq<RouteView<D>> {
    rs.map_values(|r: Route<D>| route_view(r))
}

/// Whether some target aims at `param` of `target`.
pub open spec fn has_target(targets: Seq<ModTarget>, target: Seq<char>, param: Seq<char>) -> bool {
    exists|j: int| 0 <= j < targets.len() && #[trigger] targets[j].target@ == target && targets[j].param@ == param
}

/// The position of the first target aiming at `param` of `target`.
pub open spec fn target_index(targets: Seq<ModTarget>, target: Seq<char>, param: Seq<char>) -> int {
    choose|i: int| is_first_target(targets, target, param, i)
}

/// The holdable routes among the first `n`, in order.
pub open spec fn holdable_routes<D>(rs: Seq<RouteView<D>>, targets: Seq<ModTarget>, lfo_count: nat, n: int) -> Seq<
    RouteView<D>,
>
    decreases n,
{
    if n <= 0 {
        seq![]
    } else if has_target(targets, rs[n - 1].target, rs[n - 1].param) && rs[n - 1].src < lfo_count {
        holdable_routes(rs, targets, lfo_count, n - 1).push(rs[n - 1])
    } else {
        holdable_routes(rs, targets, lfo_count, n - 1)
    }
}

/// The slot a holdable route fills.
pub open spec fn slot_of<D>(r: RouteView<D>, targets: Seq<ModTarget>) -> RouteSlot<D> {
    RouteSlot {
        on: true,
        src: r.src,
        target: target_index(targets, r.target, r.param) as usize,
        depth: r.depth,
        exp: r.exp,
    }
}

/// An unused slot.
pub open spec fn off_slot<D>(depth: D) -> RouteSlot<D> {
    RouteSlot { on: false, src: 0, target: 0, depth, exp: false }
}

/// The slots a genome holds for `rs`: the first `slots` holdable routes,
/// in order, then unused slots.
pub open spec fn packed<D>(
    rs: Seq<RouteView<D>>,
    targets: Seq<ModTarget>,
    lfo_count: nat,
    slots: nat,
    off_depth: D,
) -> Seq<RouteSlot<D>> {
    let kept = holdable_routes(rs, targets, lfo_count, rs.len() as int);
    let n = if kept.len() < slots { kept.len() } else { slots };
    Seq::new(
        slots,
        |k: int|
            if k < n {
                slot_of(kept[k], targets)
            } else {
                off_slot(off_depth)
            },
    )
}

/// The routes the slots of a genome say, in order: each slot that is on
/// and aims at a target that exists.
pub open spec fn unpacked<D>(s: Seq<RouteSlot<D>>, targets: Seq<ModTarget>, n: int) -> Seq<RouteView<D>>
    decreases n,
{
    if n <= 0 {
        seq![]
    } else if s[n - 1].on && s[n - 1].target < targets.len() {
        unpacked(s, targets, n - 1).push(
            RouteView {
                src: s[n - 1].src,
                target: targets[s[n - 1].target as int].target@,
                param: targets[s[n - 1].target as int].param@,
                depth: s[n - 1].depth,
                exp: s[n - 1].exp,
            },
        )
    } else {
        unpacked(s, targets, n - 1)
    }
}

proof fn lemma_target_index(targets: Seq<ModTarget>, target: Seq<char>, param: Seq<char>, i: int)
    requires
        is_first_target(targets, target, param, i),
    ensures
        target_index(targets, target, param) == i,
{
    let c = target_index(targets, target, param);
    assert(is_first_target(targets, target, param, c));
    if c < i {
        assert(!(targets[c].target@ == target && targets[c].param@ == param));
    }
    if i < c {
        assert(!(targets[i].target@ == target && targets[i].param@ == param));
    }
}

proof fn lemma_holdable_prefix<D>(rs: Seq<RouteView<D>>, targets: Seq<ModTarget>, lfo_count: nat, i: int, n: int)
    requires
        0 <= i <= n,
    ensures
        holdable_routes(rs, targets, lfo_count, i).len() <= holdable_routes(rs, targets, lfo_count, n).len(),
        holdable_routes(rs, targets, lfo_count, n).take(
            holdable_routes(rs, targets, lfo_count, i).len() as int,
        ) == holdable_routes(rs, targets, lfo_count, i),
    decreases n - i,
{
    if i < n {
        lemma_holdable_prefix(rs, targets, lfo_count, i, n - 1);
        let a = holdable_routes(rs, targets, lfo_count, i);
        let b = holdable_routes(rs, targets, lfo_count, n - 1);
        let c = holdable_routes(rs, targets, lfo_count, n);
        if c.len() > b.len() {
            assert(c.take(a.len() as int) =~= b.take(a.len() as int));
        } else {
            assert(c == b);
        }
    } else {
        let a = holdable_routes(rs, targets, lfo_count, i);
        assert(a.take(a.len() as int) =~= a);
    }
}

/// The route slots a genome holds for `routes`: the first `slots` routes
/// whose target exists and whose LFO exists, in order, each with the index
/// of its target; then unused slots with depth `off_depth`.
pub fn pack_routes<D: Copy>(
    routes: &Vec<Route<D>>,
    targets: &Vec<ModTarget>,
    lfo_count: usize,
    slots: usize,
    off_depth: D,
) -> (r: Vec<RouteSlot<D>>)
    ensures
        r@ == packed(routes_view(routes@), targets@, lfo_count as nat, slots as nat, off_depth),
{
    let ghost rs = routes_view(routes@);
    let ghost kept = holdable_routes(rs, targets@, lfo_count as nat, rs.len() as int);
    let mut out: Vec<RouteSlot<D>> = Vec::new();
    let mut i: usize = 0;
    while i < routes.len() && out.len() < slots
        invariant
            rs == routes_view(routes@),
            kept == holdable_routes(rs, targets@, lfo_count as nat, rs.len() as int),
            i <= routes@.len(),
            out@.len() <= slots,
            out@.len() == holdable_routes(rs, targets@, lfo_count as nat, i as int).len(),
            forall|k: int|
                0 <= k < out@.len() ==> #[trigger] out@[k] == slot_of(
                    holdable_routes(rs, targets@, lfo_count as nat, i as int)[k],
                    targets@,
                ),
        decreases routes@.len() - i,
    {
        let r = &routes[i];
        let ghost before = holdable_routes(rs, targets@, lfo_count as nat, i as int);
        proof {
            assert(rs[i as int] == route_view(routes@[i as int]));
        }
        match mod_target_index(targets, r.target.as_str(), r.param.as_str()) {
            Some(ti) => {
                if r.src < lfo_count {
                    proof {
                        lemma_target_index(targets@, r.target@, r.param@, ti as int);
                        assert(has_target(targets@, rs[i as int].target, rs[i as int].param));
                    }
                    out.push(RouteSlot { on: true, src: r.src, target: ti, depth: r.depth, exp: r.exp });
                } else {
                }
            },
            None => {
                proof {
                    if has_target(targets@, rs[i as int].target, rs[i as int].param) {
                        let j = choose|j: int|
                            0 <= j < targets@.len() && #[trigger] targets@[j].target@ == rs[i as int].target
                                && targets@[j].param@ == rs[i as int].param;
                        assert(targets@[j].target@ == r.target@ && targets@[j].param@ == r.param@);
                    }
                }
            },
        }
        i = i + 1;
    }
    let ghost at = holdable_routes(rs, targets@, lfo_count as nat, i as int);
    proof {
        lemma_holdable_prefix(rs, targets@, lfo_count as nat, i as int, rs.len() as int);
        if out@.len() < slots {
            assert(i == routes@.len());
            assert(at == kept);
        }
        assert(kept.take(at.len() as int) == at);
    }
    let filled = out.len();
    while out.len() < slots
        invariant
            filled <= out@.len() <= slots,
            filled == at.len(),
            kept.take(at.len() as int) == at,
            filled < slots ==> at == kept,
            forall|k: int| 0 <= k < filled ==> #[trigger] out@[k] == slot_of(at[k], targets@),
            forall|k: int| filled <= k < out@.len() ==> #[trigger] out@[k] == off_slot(off_depth),
        decreases slots - out@.len(),
    {
        out.push(RouteSlot { on: false, src: 0, target: 0, depth: off_depth, exp: false });
    }
    proof {
        let p = packed(rs, targets@, lfo_count as nat, slots as nat, off_depth);
        assert forall|k: int| 0 <= k < slots implies #[trigger] out@[k] == p[k] by {
            if k < filled {
                assert(kept[k] == at[k]);
            }
        }
        assert(out@ =~= p);
    }
    out
}

/// The routes the route slots of a genome say: each slot that is on and
/// aims at a target that exists, in slot order.
pub fn unpack_routes<D: Copy>(slots: &Vec<RouteSlot<D>>, targets: &Vec<ModTarget>) -> (r: Vec<Route<D>>)
    ensures
        routes_view(r@) == unpacked(slots@, targets@, slots@.len() as int),
{
    let mut out: Vec<Route<D>> = Vec::new();
    let mut i: usize = 0;
    while i < slots.len()
        invariant
            i <= slots@.len(),
            routes_view(out@) == unpacked(slots@, targets@, i as int),
        decreases slots@.len() - i,
    {
        let s = slots[i];
        if s.on && s.target < targets.len() {
            let t = &targets[s.target];
            let route = Route {
                src: s.src,
                target: t.target.clone(),
                param: t.param.clone(),
                depth: s.depth,
                exp: s.exp,
            };
            let ghost before = out@;
            out.push(route);
            proof {
                assert(routes_view(out@) =~= routes_view(before).push(route_view(route)));
            }
        }
        i = i + 1;
    }
    out
}

/// Reading the slots back gives the routes that were packed: the first
/// `slots` routes the genome can hold, with their sources, targets, depths
/// and octave flags.
pub proof fn lemma_unpack_after_pack<D>(
    rs: Seq<RouteView<D>>,
    targets: Seq<ModTarget>,
    lfo_count: nat,
    slots: nat,
    off_depth: D,
)
    requires
        targets.len() <= usize::MAX,
    ensures
        ({
            let kept = holdable_routes(rs, targets, lfo_count, rs.len() as int);
            let n = if kept.len() < slots { kept.len() } else { slots };
            unpacked(packed(rs, targets, lfo_count, slots, off_depth), targets, slots as int) == kept.take(n as int)
        }),
{
    let kept = holdable_routes(rs, targets, lfo_count, rs.len() as int);
    let n = if kept.len() < slots { kept.len() } else { slots };
    let p = packed(rs, targets, lfo_count, slots, off_depth);
    lemma_holdable_all_held(rs, targets, lfo_count, rs.len() as int);
    lemma_unpacked_prefix(p, targets, kept, n as int, slots as int, lfo_count);
}

proof fn lemma_holdable_all_held<D>(rs: Seq<RouteView<D>>, targets: Seq<ModTarget>, lfo_count: nat, n: int)
    ensures
        forall|k: int|
            0 <= k < holdable_routes(rs, targets, lfo_count, n).len() ==> has_target(
                targets,
                #[trigger] holdable_routes(rs, targets, lfo_count, n)[k].target,
                holdable_routes(rs, targets, lfo_count, n)[k].param,
            ),
    decreases n,
{
    if n > 0 {
        lemma_holdable_all_held(rs, targets, lfo_count, n - 1);
        let h = holdable_routes(rs, targets, lfo_count, n - 1);
        let g = holdable_routes(rs, targets, lfo_count, n);
        assert forall|k: int| 0 <= k < g.len() implies has_target(targets, #[trigger] g[k].target, g[k].param) by {
            if k < h.len() {
                assert(g[k] == h[k]);
            }
        }
    }
}

proof fn lemma_unpacked_prefix<D>(
    p: Seq<RouteSlot<D>>,
    targets: Seq<ModTarget>,
    kept: Seq<RouteView<D>>,
    n: int,
    m: int,
    lfo_count: nat,
)
    requires
        targets.len() <= usize::MAX,
        0 <= n <= kept.len(),
        n <= m <= p.len(),
        forall|k: int| 0 <= k < kept.len() ==> has_target(targets, #[trigger] kept[k].target, kept[k].param),
        forall|k: int| 0 <= k < n ==> #[trigger] p[k] == slot_of(kept[k], targets),
        forall|k: int| n <= k < p.len() ==> !(#[trigger] p[k]).on,
    ensures
        unpacked(p, targets, m) == kept.take(n),
    decreases m,
{
    if m > n {
        lemma_unpacked_prefix(p, targets, kept, n, m - 1, lfo_count);
        assert(!p[m - 1].on);
    } else {
        lemma_unpacked_on(p, targets, kept, m);
    }
}

proof fn lemma_unpacked_on<D>(p: Seq<RouteSlot<D>>, targets: Seq<ModTarget>, kept: Seq<RouteView<D>>, m: int)
    requires
        targets.len() <= usize::MAX,
        0 <= m <= kept.len(),
        m <= p.len(),
        forall|k: int| 0 <= k < kept.len() ==> has_target(targets, #[trigger] kept[k].target, kept[k].param),
        forall|k: int| 0 <= k < m ==> #[trigger] p[k] == slot_of(kept[k], targets),
    ensures
        unpacked(p, targets, m) == kept.take(m),
    decreases m,
{
    if m > 0 {
        lemma_unpacked_on(p, targets, kept, m - 1);
        let k = m - 1;
        let r = kept[k];
        assert(has_target(targets, r.target, r.param));
        let j = choose|j: int|
            0 <= j < targets.len() && #[trigger] targets[j].target@ == r.target && targets[j].param@ == r.param;
        let first = first_target_of(targets, r.target, r.param, j);
        lemma_target_index(targets, r.target, r.param, first);
        assert(p[k] == slot_of(r, targets));
        assert(p[k].target as int == first);
        assert(kept.take(m) =~= kept.take(m - 1).push(r));
    } else {
        assert(kept.take(0) =~= Seq::<RouteView<D>>::empty());
    }
}

/// Some target that aims at `param` of `target` has a first one.
proof fn first_target_of(targets: Seq<ModTarget>, target: Seq<char>, param: Seq<char>, j: int) -> (f: int)
    requires
        0 <= j < targets.len(),
        targets[j].target@ == target && targets[j].param@ == param,
    ensures
        is_first_target(targets, target, param, f),
    decreases j,
{
    if exists|k: int| 0 <= k < j && #[trigger] targets[k].target@ == target && targets[k].param@ == param {
        let k = choose|k: int| 0 <= k < j && #[trigger] targets[k].target@ == target && targets[k].param@ == param;
        first_target_of(targets, target, param, k)
    } else {
        j
    }
}

} // verus!
