//! The bookkeeping of the directed search: where the search stands
//! (`current`), the point it steps from (`anchor`), the bounded undo history,
//! and the version that tells a stale scout proposal from a fresh one.
//!
//! How a like or a dislike chooses its next point — the spread, the momentum,
//! the mutation — is the floating-point side's; it hands the chosen point in,
//! and this records the step:
//!
//! * **like** — anchor on the liked point and move on;
//! * **dislike** — move on from the same anchor;
//! * **surprise** — jump to a point and restart the search there;
//! * **load** — a fresh start, history cleared;
//! * **undo** — pop the last change.

use vstd::prelude::*;

verus! {

/// The last thing that happened to the search.
#[derive(Clone, Copy, PartialEq, Eq, Debug, Structural)]
pub enum ExplorerAction {
    Load,
    Like,
    Dislike,
    Surprise,
    Undo,
}

/// `G`'s clone gives back an equal value (true of plain data).
pub open spec fn clone_exact<G: Clone>() -> bool {
    forall|a: G, b: G| #[trigger] cloned(a, b) ==> a == b
}

/// The search's state as the laws see it.
pub struct TrailModel<G> {
    pub current: G,
    pub anchor: G,
    pub history: Seq<G>,
    pub depth: nat,
    pub version: int,
    pub last_action: ExplorerAction,
}

/// `h` with `g` appended, the oldest entry dropped when that passes `depth`.
pub open spec fn bounded_push<G>(h: Seq<G>, g: G, depth: nat) -> Seq<G> {
    if h.len() + 1 > depth {
        h.push(g).skip(1)
    } else {
        h.push(g)
    }
}

pub open spec fn like_model<G>(m: TrailModel<G>, next: G) -> TrailModel<G> {
    TrailModel {
        current: next,
        anchor: m.current,
        history: bounded_push(m.history, m.current, m.depth),
        depth: m.depth,
        version: m.version + 1,
        last_action: ExplorerAction::Like,
    }
}

pub open spec fn dislike_model<G>(m: TrailModel<G>, next: G) -> TrailModel<G> {
    TrailModel {
        current: next,
        anchor: m.anchor,
        history: bounded_push(m.history, m.current, m.depth),
        depth: m.depth,
        version: m.version + 1,
        last_action: ExplorerAction::Dislike,
    }
}

pub open spec fn surprise_model<G>(m: TrailModel<G>, next: G) -> TrailModel<G> {
    TrailModel {
        current: next,
        anchor: next,
        history: bounded_push(m.history, m.current, m.depth),
        depth: m.depth,
        version: m.version + 1,
        last_action: ExplorerAction::Surprise,
    }
}

pub open spec fn load_model<G>(m: TrailModel<G>, g: G) -> TrailModel<G> {
    TrailModel {
        current: g,
        anchor: g,
        history: Seq::empty(),
        depth: m.depth,
        version: m.version + 1,
        last_action: ExplorerAction::Load,
    }
}

/// Undo: the last entry becomes both the current point and the anchor; with
/// nothing to undo, nothing changes.
pub open spec fn undo_model<G>(m: TrailModel<G>) -> TrailModel<G> {
    if m.history.len() == 0 {
        m
    } else {
        TrailModel {
            current: m.history.last(),
            anchor: m.history.last(),
            history: m.history.drop_last(),
            depth: m.depth,
            version: m.version + 1,
            last_action: ExplorerAction::Undo,
        }
    }
}

/// The search's position and its undo history.
pub struct SearchTrail<G> {
    current: G,
    anchor: G,
    history: Vec<G>,
    depth: usize,
    version: u64,
    last_action: ExplorerAction,
}

impl<G: Clone> SearchTrail<G> {
    pub closed spec fn model(&self) -> TrailModel<G> {
        TrailModel {
            current: self.current,
            anchor: self.anchor,
            history: self.history@,
            depth: self.depth as nat,
            version: self.version as int,
            last_action: self.last_action,
        }
    }

    /// The history never holds more than `depth` entries.
    pub open spec fn well_formed(&self) -> bool {
        self.model().history.len() <= self.model().depth
    }

    /// A search starting at `initial`, keeping up to `depth` undo steps.
    pub fn new(initial: G, depth: usize) -> (r: Self)
        ensures
            r.well_formed(),
            r.model().current == initial,
            cloned(initial, r.model().anchor),
            r.model().history.len() == 0,
            r.model().depth == depth,
            r.model().version == 0,
            r.model().last_action == ExplorerAction::Load,
    {
        let anchor = initial.clone();
        SearchTrail {
            current: initial,
            anchor,
            history: Vec::new(),
            depth,
            version: 0,
            last_action: ExplorerAction::Load,
        }
    }

    pub fn current(&self) -> (r: &G)
        ensures
            *r == self.model().current,
    {
        &self.current
    }

    pub fn anchor(&self) -> (r: &G)
        ensures
            *r == self.model().anchor,
    {
        &self.anchor
    }

    /// Bumped on every committed change, so a stale proposal can be spotted.
    pub fn version(&self) -> (r: u64)
        ensures
            r == self.model().version,
    {
        self.version
    }

    pub fn last_action(&self) -> (r: ExplorerAction)
        ensures
            r == self.model().last_action,
    {
        self.last_action
    }

    pub fn can_undo(&self) -> (r: bool)
        ensures
            r == (self.model().history.len() > 0),
    {
        self.history.len() > 0
    }

    pub fn undo_depth(&self) -> (r: usize)
        ensures
            r == self.model().history.len(),
    {
        self.history.len()
    }

    /// Appends `g` to the history, dropping the oldest entry past the depth.
    fn record(&mut self, g: G)
        requires
            old(self).well_formed(),
        ensures
            final(self).well_formed(),
            final(self).model().history == bounded_push(old(self).model().history, g, old(self).model().depth),
            final(self).model().current == old(self).model().current,
            final(self).model().anchor == old(self).model().anchor,
            final(self).model().depth == old(self).model().depth,
            final(self).model().version == old(self).model().version,
            final(self).model().last_action == old(self).model().last_action,
    {
        self.history.push(g);
        if self.history.len() > self.depth {
            self.history.remove(0);
            proof {
                assert(self.history@ =~= old(self).history@.push(g).skip(1));
            }
        }
    }

    /// "Keep going this way": the point the search was on becomes the
    /// anchor, and `next` (the chosen proposal) the current point.
    pub fn like(&mut self, next: G)
        requires
            old(self).well_formed(),
            old(self).model().version < u64::MAX,
        ensures
            final(self).well_formed(),
            final(self).model().current == next,
            final(self).model().anchor == old(self).model().current,
            final(self).model().version == old(self).model().version + 1,
            final(self).model().last_action == ExplorerAction::Like,
            final(self).model().depth == old(self).model().depth,
            exists|c: G|
                cloned(old(self).model().current, c) && final(self).model().history == bounded_push(
                    old(self).model().history,
                    c,
                    old(self).model().depth,
                ),
            clone_exact::<G>() ==> final(self).model() == like_model(old(self).model(), next),
    {
        let mut prev = next;
        std::mem::swap(&mut self.current, &mut prev);
        let copy = prev.clone();
        proof {
            assert(cloned(prev, copy));
        }
        self.record(copy);
        self.anchor = prev;
        self.last_action = ExplorerAction::Like;
        self.version = self.version + 1;
        proof {
            if clone_exact::<G>() {
                assert(copy == prev);
            }
        }
    }

    /// "Go back and try elsewhere": `next` becomes the current point, the
    /// anchor stays.
    pub fn dislike(&mut self, next: G)
        requires
            old(self).well_formed(),
            old(self).model().version < u64::MAX,
        ensures
            final(self).well_formed(),
            final(self).model() == dislike_model(old(self).model(), next),
    {
        let mut prev = next;
        std::mem::swap(&mut self.current, &mut prev);
        self.record(prev);
        self.last_action = ExplorerAction::Dislike;
        self.version = self.version + 1;
    }

    /// Jumps to `next` (a point near a preset) and restarts the search there.
    pub fn surprise(&mut self, next: G)
        requires
            old(self).well_formed(),
            old(self).model().version < u64::MAX,
        ensures
            final(self).well_formed(),
            final(self).model().current == next,
            cloned(next, final(self).model().anchor),
            final(self).model().history == bounded_push(
                old(self).model().history,
                old(self).model().current,
                old(self).model().depth,
            ),
            final(self).model().version == old(self).model().version + 1,
            final(self).model().last_action == ExplorerAction::Surprise,
            final(self).model().depth == old(self).model().depth,
            clone_exact::<G>() ==> final(self).model() == surprise_model(old(self).model(), next),
    {
        let copy = next.clone();
        let mut prev = next;
        std::mem::swap(&mut self.current, &mut prev);
        self.record(prev);
        self.anchor = copy;
        self.last_action = ExplorerAction::Surprise;
        self.version = self.version + 1;
    }

    /// Loads a point: fresh start, history cleared.
    pub fn load(&mut self, g: G)
        requires
            old(self).model().version < u64::MAX,
        ensures
            final(self).well_formed(),
            final(self).model().current == g,
            cloned(g, final(self).model().anchor),
            final(self).model().history.len() == 0,
            final(self).model().version == old(self).model().version + 1,
            final(self).model().last_action == ExplorerAction::Load,
            final(self).model().depth == old(self).model().depth,
            clone_exact::<G>() ==> final(self).model() == load_model(old(self).model(), g),
    {
        let copy = g.clone();
        proof {
            assert(cloned(g, copy));
            if clone_exact::<G>() {
                assert(copy == g);
            }
        }
        self.anchor = copy;
        self.current = g;
        self.history.clear();
        self.last_action = ExplorerAction::Load;
        self.version = self.version + 1;
        proof {
            assert(self.history@ =~= Seq::<G>::empty());
        }
    }

    /// Reverts the last change; `None` when there is nothing to undo.
    pub fn undo(&mut self) -> (r: Option<&G>)
        requires
            old(self).well_formed(),
            old(self).model().version < u64::MAX,
        ensures
            final(self).well_formed(),
            old(self).model().history.len() == 0 ==> r is None && final(self).model() == old(self).model(),
            old(self).model().history.len() > 0 ==> {
                &&& r == Some(&final(self).model().current)
                &&& final(self).model().current == old(self).model().history.last()
                &&& cloned(old(self).model().history.last(), final(self).model().anchor)
                &&& final(self).model().history == old(self).model().history.drop_last()
                &&& final(self).model().version == old(self).model().version + 1
                &&& final(self).model().last_action == ExplorerAction::Undo
                &&& final(self).model().depth == old(self).model().depth
            },
            clone_exact::<G>() ==> final(self).model() == undo_model(old(self).model()),
    {
        match self.history.pop() {
            None => None,
            Some(prev) => {
                self.anchor = prev.clone();
                self.current = prev;
                self.last_action = ExplorerAction::Undo;
                self.version = self.version + 1;
                Some(&self.current)
            },
        }
    }
}

/// The last entry of a bounded push is what was pushed, whether or not the
/// oldest entry was dropped; while there is room, nothing else changes.
proof fn lemma_bounded_push_last<G>(h: Seq<G>, g: G, depth: nat)
    requires
        depth >= 1,
    ensures
        bounded_push(h, g, depth).len() > 0,
        bounded_push(h, g, depth).last() == g,
        h.len() < depth ==> bounded_push(h, g, depth).drop_last() == h,
{
    let p = bounded_push(h, g, depth);
    if h.len() + 1 > depth {
        assert(p.last() == h.push(g)[h.len() as int]);
    } else {
        assert(p.drop_last() =~= h);
    }
}

/// Undo reverts a like, a dislike and a surprise: the point the step left
/// becomes the current point and the anchor again, the last action is
/// `Undo`, and (while the history had room) the history is what it was
/// before.
pub proof fn lemma_undo_reverts_step<G>(m: TrailModel<G>, next: G)
    requires
        m.depth >= 1,
    ensures
        ({
            let steps = seq![like_model(m, next), dislike_model(m, next), surprise_model(m, next)];
            forall|i: int|
                0 <= i < 3 ==> {
                    let u = #[trigger] undo_model(steps[i]);
                    &&& steps[i].history.len() > 0
                    &&& u.current == m.current
                    &&& u.anchor == m.current
                    &&& u.last_action == ExplorerAction::Undo
                    &&& u.version == m.version + 2
                    &&& u.depth == m.depth
                    &&& m.history.len() < m.depth ==> u.history == m.history
                }
        }),
{
    lemma_bounded_push_last(m.history, m.current, m.depth);
}

/// With nothing to undo, undo changes nothing.
pub proof fn lemma_undo_on_empty_history<G>(m: TrailModel<G>)
    requires
        m.history.len() == 0,
    ensures
        undo_model(m) == m,
{
}

/// After `n` likes in a row the history holds the last `min(n + h, depth)`
/// points, where `h` is what it held before: undo walks back that many steps
/// and then stops.
pub open spec fn likes<G>(m: TrailModel<G>, nexts: Seq<G>) -> TrailModel<G>
    decreases nexts.len(),
{
    if nexts.len() == 0 {
        m
    } else {
        like_model(likes(m, nexts.drop_last()), nexts.last())
    }
}

pub open spec fn undos<G>(m: TrailModel<G>, k: nat) -> TrailModel<G>
    decreases k,
{
    if k == 0 {
        m
    } else {
        undo_model(undos(m, (k - 1) as nat))
    }
}

pub proof fn lemma_likes_fill_history<G>(m: TrailModel<G>, nexts: Seq<G>)
    requires
        m.history.len() <= m.depth,
    ensures
        likes(m, nexts).history.len() == if m.history.len() + nexts.len() > m.depth {
            m.depth as int
        } else {
            (m.history.len() + nexts.len()) as int
        },
        likes(m, nexts).depth == m.depth,
    decreases nexts.len(),
{
    if nexts.len() > 0 {
        lemma_likes_fill_history(m, nexts.drop_last());
    }
}

pub proof fn lemma_undos_shorten<G>(m: TrailModel<G>, k: nat)
    ensures
        undos(m, k).history.len() == if k >= m.history.len() {
            0int
        } else {
            m.history.len() - k
        },
        k >= m.history.len() ==> undo_model(undos(m, k)) == undos(m, k),
    decreases k,
{
    if k > 0 {
        lemma_undos_shorten(m, (k - 1) as nat);
    }
}

/// From a fresh start, `n` likes leave exactly `min(n, depth)` undo steps.
pub proof fn lemma_undo_depth_after_likes<G>(m: TrailModel<G>, nexts: Seq<G>)
    requires
        m.history.len() == 0,
    ensures
        ({
            let after = likes(m, nexts);
            let n = if nexts.len() > m.depth { m.depth as int } else { nexts.len() as int };
            &&& after.history.len() == n
            &&& forall|k: nat| k < n ==> undos(after, k).history.len() > 0
            &&& undo_model(undos(after, n as nat)) == undos(after, n as nat)
        }),
{
    lemma_likes_fill_history(m, nexts);
    let after = likes(m, nexts);
    let n = if nexts.len() > m.depth { m.depth as int } else { nexts.len() as int };
    assert forall|k: nat| k < n implies undos(after, k).history.len() > 0 by {
        lemma_undos_shorten(after, k);
    }
    lemma_undos_shorten(after, n as nat);
}

} // verus!
