//! Pipeline orchestration: the stage dependency graph and its schedule.
//!
//! The pipeline is a directed acyclic graph of stages with explicit
//! "depends-on" edges. Stages are identified by the small integer handles
//! that [`StageGraph::add_stage`] hands out; the dispatcher that actually
//! runs the stages binds each handle to its system. Once per setup the graph
//! is sorted topologically; the resulting order is then executed every step,
//! so a stage never begins before all of its declared dependencies have
//! completed for the same step. A graph whose dependencies cannot be ordered
//! (a cycle) is a fatal configuration error.

use vstd::prelude::*;

verus! {

/// `st` is one of the stages listed in `o`.
pub open spec fn appears(o: Seq<usize>, st: int) -> bool {
    exists|k: int| 0 <= k < o.len() && o[k] as int == st
}

/// `o` is an admissible execution order for `n` stages under the dependency
/// edges `deps`: every stage appears exactly once, and no stage stands
/// before a stage it depends on.
pub open spec fn valid_order_for(n: nat, deps: Seq<(usize, usize)>, o: Seq<usize>) -> bool {
    &&& o.len() == n
    &&& forall|k: int| 0 <= k < o.len() ==> (#[trigger] o[k] as int) < n
    &&& forall|k1: int, k2: int| 0 <= k1 < k2 < o.len() ==> o[k1] != o[k2]
    &&& forall|st: int| 0 <= st < n ==> appears(o, st)
    &&& forall|e: int, k1: int, k2: int|
        #![trigger deps[e], o[k1], o[k2]]
        0 <= e < deps.len() && 0 <= k1 < o.len() && 0 <= k2 < o.len() && o[k1] == deps[e].0
            && o[k2] == deps[e].1 ==> k1 < k2
}

/// `order` lists exactly the stages marked in `placed`, each of them once.
spec fn placed_matches(placed: Seq<bool>, order: Seq<usize>) -> bool {
    &&& forall|k: int|
        0 <= k < order.len()
            ==> (#[trigger] order[k] as int) < placed.len() && placed[order[k] as int]
    &&& forall|k1: int, k2: int| 0 <= k1 < k2 < order.len() ==> order[k1] != order[k2]
    &&& forall|st: int| 0 <= st < placed.len() && placed[st] ==> appears(order, st)
}

/// Every stage of `order` stands after all stages it depends on.
spec fn order_respects(deps: Seq<(usize, usize)>, order: Seq<usize>) -> bool {
    forall|e: int, k: int|
        #![trigger deps[e], order[k]]
        0 <= e < deps.len() && 0 <= k < order.len() && order[k] == deps[e].1
            ==> exists|k0: int| 0 <= k0 < k && order[k0] == deps[e].0
}

/// Every unplaced stage waits on an unplaced dependency: the scheduler can
/// make no further progress.
spec fn stalled(deps: Seq<(usize, usize)>, placed: Seq<bool>) -> bool {
    forall|st: int|
        0 <= st < placed.len() && !placed[st]
            ==> exists|e: int|
                0 <= e < deps.len() && deps[e].1 as int == st && !placed[deps[e].0 as int]
}

/// Number of true entries of `s`.
spec fn count_true(s: Seq<bool>) -> int
    decreases s.len(),
{
    if s.len() == 0 {
        0
    } else {
        count_true(s.drop_last()) + if s.last() { 1int } else { 0int }
    }
}

proof fn lemma_count_true_zero(s: Seq<bool>)
    requires
        forall|i: int| 0 <= i < s.len() ==> !s[i],
    ensures
        count_true(s) == 0,
    decreases s.len(),
{
    if s.len() > 0 {
        assert(forall|i: int| 0 <= i < s.drop_last().len() ==> !s.drop_last()[i]);
        lemma_count_true_zero(s.drop_last());
    }
}

proof fn lemma_count_true_bound(s: Seq<bool>)
    ensures
        0 <= count_true(s) <= s.len(),
    decreases s.len(),
{
    if s.len() > 0 {
        lemma_count_true_bound(s.drop_last());
    }
}

proof fn lemma_count_true_update(s: Seq<bool>, i: int)
    requires
        0 <= i < s.len(),
        !s[i],
    ensures
        count_true(s.update(i, true)) == count_true(s) + 1,
    decreases s.len(),
{
    let t = s.update(i, true);
    if i == s.len() - 1 {
        assert(t.drop_last() =~= s.drop_last());
    } else {
        assert(t.drop_last() =~= s.drop_last().update(i, true));
        lemma_count_true_update(s.drop_last(), i);
    }
}

proof fn lemma_count_true_full(s: Seq<bool>)
    requires
        count_true(s) == s.len(),
    ensures
        forall|i: int| 0 <= i < s.len() ==> s[i],
    decreases s.len(),
{
    if s.len() > 0 {
        lemma_count_true_bound(s.drop_last());
        lemma_count_true_full(s.drop_last());
        assert forall|i: int| 0 <= i < s.len() implies s[i] by {
            if i < s.len() - 1 {
                assert(s.drop_last()[i]);
            }
        }
    }
}

proof fn lemma_count_true_missing(s: Seq<bool>)
    requires
        count_true(s) < s.len(),
    ensures
        exists|i: int| 0 <= i < s.len() && !s[i],
    decreases s.len(),
{
    if s.len() > 0 {
        if !s.last() {
            assert(!s[s.len() - 1]);
        } else {
            lemma_count_true_missing(s.drop_last());
            let i = choose|i: int| 0 <= i < s.drop_last().len() && !s.drop_last()[i];
            assert(!s[i]);
        }
    }
}

/// The first position of `o` at or before `k0` whose stage is unplaced.
proof fn lemma_first_unplaced(o: Seq<usize>, placed: Seq<bool>, k0: int)
    requires
        0 <= k0 < o.len(),
        forall|k: int| 0 <= k < o.len() ==> (#[trigger] o[k] as int) < placed.len(),
        !placed[o[k0] as int],
    ensures
        exists|k: int|
            0 <= k <= k0 && !placed[o[k] as int] && (forall|j: int|
                0 <= j < k ==> placed[o[j] as int]),
    decreases k0,
{
    if exists|j: int| 0 <= j < k0 && !placed[o[j] as int] {
        let j = choose|j: int| 0 <= j < k0 && !placed[o[j] as int];
        lemma_first_unplaced(o, placed, j);
    } else {
        assert(forall|j: int| 0 <= j < k0 ==> placed[o[j] as int]);
    }
}

/// A stalled scheduler refutes every order: if some stage is unplaced and
/// every unplaced stage waits on an unplaced dependency, the dependencies
/// contain a cycle, so no admissible order exists.
#[verifier::rlimit(60)]
proof fn lemma_stalled_refutes_order(
    n: nat,
    deps: Seq<(usize, usize)>,
    placed: Seq<bool>,
    o: Seq<usize>,
)
    requires
        placed.len() == n,
        forall|e: int|
            0 <= e < deps.len()
                ==> (#[trigger] deps[e].0 as int) < n && (deps[e].1 as int) < n,
        exists|st: int| 0 <= st < n && !placed[st],
        stalled(deps, placed),
    ensures
        !valid_order_for(n, deps, o),
{
    if valid_order_for(n, deps, o) {
        let st0 = choose|st: int| 0 <= st < n && !placed[st];
        assert(appears(o, st0));
        let k0 = choose|k: int| 0 <= k < o.len() && o[k] as int == st0;
        lemma_first_unplaced(o, placed, k0);
        let k = choose|k: int|
            0 <= k <= k0 && !placed[o[k] as int] && (forall|j: int|
                0 <= j < k ==> placed[o[j] as int]);
        let st = o[k] as int;
        let e = choose|e: int|
            0 <= e < deps.len() && deps[e].1 as int == st && !placed[deps[e].0 as int];
        let p = deps[e].0 as int;
        assert(appears(o, p));
        let kp = choose|k2: int| 0 <= k2 < o.len() && o[k2] as int == p;
        assert(o[kp] == deps[e].0);
        assert(o[k] == deps[e].1);
        assert(kp < k);
        assert(placed[o[kp] as int]);
        assert(false);
    }
}

/// Error raised at setup when the stage dependencies are cyclic, so no
/// execution order can respect them all.
#[derive(Clone, Copy, Debug, PartialEq, Eq, Structural)]
pub struct DependencyCycleError;

/// Directed graph of pipeline stages and their "depends-on" edges.
pub struct StageGraph {
    stages: usize,
    edges: Vec<(usize, usize)>,
}

impl StageGraph {
    /// Number of stages added so far.
    pub closed spec fn stage_count(&self) -> nat {
        self.stages as nat
    }

    /// The dependency edges: `(before, after)` means `after` must not begin
    /// until `before` has completed for the same step.
    pub closed spec fn deps(&self) -> Seq<(usize, usize)> {
        self.edges@
    }

    /// Every edge joins two existing stages.
    pub open spec fn wf(&self) -> bool {
        forall|e: int|
            0 <= e < self.deps().len()
                ==> (#[trigger] self.deps()[e].0 as int) < self.stage_count()
                    && (self.deps()[e].1 as int) < self.stage_count()
    }

    /// `o` is an admissible execution order for this graph.
    pub open spec fn is_valid_order(&self, o: Seq<usize>) -> bool {
        valid_order_for(self.stage_count(), self.deps(), o)
    }

    /// An empty pipeline: no stages, no dependencies.
    pub fn new() -> (r: Self)
        ensures
            r.wf(),
            r.stage_count() == 0,
            r.deps().len() == 0,
    {
        StageGraph { stages: 0, edges: Vec::new() }
    }

    /// Number of stages added so far.
    pub fn num_stages(&self) -> (n: usize)
        ensures
            n == self.stage_count(),
    {
        self.stages
    }

    /// Registers a new stage and hands out its identifier.
    pub fn add_stage(&mut self) -> (id: usize)
        requires
            old(self).stage_count() < usize::MAX,
        ensures
            id == old(self).stage_count(),
            final(self).stage_count() == old(self).stage_count() + 1,
            final(self).deps() == old(self).deps(),
            old(self).wf() ==> final(self).wf(),
    {
        let id = self.stages;
        self.stages = self.stages + 1;
        id
    }

    /// Declares that stage `after` depends on stage `before`.
    pub fn add_dependency(&mut self, before: usize, after: usize)
        requires
            old(self).wf(),
            (before as int) < old(self).stage_count(),
            (after as int) < old(self).stage_count(),
        ensures
            final(self).wf(),
            final(self).stage_count() == old(self).stage_count(),
            final(self).deps() == old(self).deps().push((before, after)),
    {
        self.edges.push((before, after));
        proof {
            assert forall|e: int| 0 <= e < self.deps().len() implies
                (#[trigger] self.deps()[e].0 as int) < self.stage_count()
                    && (self.deps()[e].1 as int) < self.stage_count() by {
                if e < old(self).deps().len() {
                    assert(self.deps()[e] == old(self).deps()[e]);
                } else {
                    assert(self.deps()[e] == (before, after));
                }
            }
        }
    }

    /// True when every dependency of stage `s` is already placed.
    fn ready(&self, s: usize, placed: &Vec<bool>) -> (b: bool)
        requires
            self.wf(),
            placed@.len() == self.stage_count(),
            (s as int) < self.stage_count(),
        ensures
            b <==> (forall|e: int|
                0 <= e < self.deps().len() && #[trigger] self.deps()[e].1 == s
                    ==> placed@[self.deps()[e].0 as int]),
    {
        let m = self.edges.len();
        let mut e: usize = 0;
        while e < m
            invariant
                self.wf(),
                placed@.len() == self.stage_count(),
                m == self.deps().len(),
                e <= m,
                forall|i: int|
                    0 <= i < e && #[trigger] self.deps()[i].1 == s
                        ==> placed@[self.deps()[i].0 as int],
            decreases m - e,
        {
            let edge = self.edges[e];
            if edge.1 == s && !placed[edge.0] {
                proof {
                    assert(self.deps()[e as int].1 == s
                        && !placed@[self.deps()[e as int].0 as int]);
                }
                return false;
            }
            e = e + 1;
        }
        true
    }

    /// Computes the execution order of the pipeline for this setup.
    ///
    /// Succeeds exactly when the dependencies are acyclic; the returned order
    /// then lists every stage once, each stage after all of its dependencies.
    /// With a cycle among the dependencies, no admissible order exists and
    /// the fatal [`DependencyCycleError`] is reported instead.
    pub fn schedule(&self) -> (r: Result<Vec<usize>, DependencyCycleError>)
        requires
            self.wf(),
        ensures
            match r {
                Ok(o) => self.is_valid_order(o@),
                Err(_) => !(exists|o: Seq<usize>| self.is_valid_order(o)),
            },
    {
        let n = self.stages;
        let mut placed: Vec<bool> = Vec::new();
        let mut k: usize = 0;
        while k < n
            invariant
                k <= n,
                placed@.len() == k,
                forall|i: int| 0 <= i < k ==> !placed@[i],
            decreases n - k,
        {
            placed.push(false);
            k = k + 1;
        }
        proof {
            lemma_count_true_zero(placed@);
        }
        let mut order: Vec<usize> = Vec::new();
        let mut progressed = true;
        while progressed
            invariant
                self.wf(),
                n == self.stage_count(),
                placed@.len() == n,
                placed_matches(placed@, order@),
                order_respects(self.deps(), order@),
                count_true(placed@) == order@.len(),
                order@.len() <= n,
                !progressed ==> stalled(self.deps(), placed@),
            decreases 2 * (n - order@.len()) + if progressed { 1int } else { 0int },
        {
            let ghost len0 = order@.len();
            progressed = false;
            let mut s: usize = 0;
            while s < n
                invariant
                    self.wf(),
                    n == self.stage_count(),
                    placed@.len() == n,
                    s <= n,
                    placed_matches(placed@, order@),
                    order_respects(self.deps(), order@),
                    count_true(placed@) == order@.len(),
                    order@.len() <= n,
                    order@.len() >= len0,
                    progressed ==> order@.len() > len0,
                    !progressed ==> (forall|st: int|
                        0 <= st < s && !placed@[st] ==> exists|e: int|
                            0 <= e < self.deps().len() && self.deps()[e].1 as int == st
                                && !placed@[self.deps()[e].0 as int]),
                decreases n - s,
            {
                if !placed[s] {
                    if self.ready(s, &placed) {
                        let ghost old_placed = placed@;
                        let ghost old_order = order@;
                        order.push(s);
                        placed.set(s, true);
                        progressed = true;
                        proof {
                            lemma_count_true_update(old_placed, s as int);
                            lemma_count_true_bound(placed@);
                            assert forall|k1: int, k2: int|
                                0 <= k1 < k2 < order@.len() implies order@[k1] != order@[k2] by {
                                if k2 == order@.len() - 1 {
                                    assert(old_placed[old_order[k1] as int]);
                                }
                            }
                            assert forall|st: int|
                                0 <= st < placed@.len() && placed@[st] implies appears(
                                order@,
                                st,
                            ) by {
                                if st == s as int {
                                    assert(order@[order@.len() - 1] as int == st);
                                } else {
                                    let k1 = choose|k1: int|
                                        0 <= k1 < old_order.len() && old_order[k1] as int == st;
                                    assert(order@[k1] as int == st);
                                }
                            }
                            assert forall|e: int, k1: int|
                                #![trigger self.deps()[e], order@[k1]]
                                0 <= e < self.deps().len() && 0 <= k1 < order@.len()
                                    && order@[k1] == self.deps()[e].1 implies exists|k0: int|
                                0 <= k0 < k1 && order@[k0] == self.deps()[e].0 by {
                                if k1 == order@.len() - 1 {
                                    assert(placed@[self.deps()[e].0 as int]);
                                    if self.deps()[e].0 == s {
                                        assert(order@[k1] == self.deps()[e].1);
                                        assert(!old_placed[s as int]);
                                        assert(old_placed[self.deps()[e].0 as int]);
                                        assert(false);
                                    }
                                    assert(old_placed[self.deps()[e].0 as int]);
                                    let k0 = choose|k0: int|
                                        0 <= k0 < old_order.len() && old_order[k0] as int
                                            == self.deps()[e].0 as int;
                                    assert(order@[k0] == self.deps()[e].0);
                                } else {
                                    let k0 = choose|k0: int|
                                        0 <= k0 < k1 && old_order[k0] == self.deps()[e].0;
                                    assert(order@[k0] == self.deps()[e].0);
                                }
                            }
                        }
                    }
                }
                s = s + 1;
            }
        }
        if order.len() == n {
            proof {
                lemma_count_true_full(placed@);
                assert forall|e: int, k1: int, k2: int|
                    #![trigger self.deps()[e], order@[k1], order@[k2]]
                    0 <= e < self.deps().len() && 0 <= k1 < order@.len() && 0 <= k2
                        < order@.len() && order@[k1] == self.deps()[e].0 && order@[k2]
                        == self.deps()[e].1 implies k1 < k2 by {
                    let k0 = choose|k0: int| 0 <= k0 < k2 && order@[k0] == self.deps()[e].0;
                    if k0 != k1 {
                        assert(order@[k0] == order@[k1]);
                        assert(false);
                    }
                }
            }
            Ok(order)
        } else {
            proof {
                lemma_count_true_bound(placed@);
                lemma_count_true_missing(placed@);
                assert(!(exists|o: Seq<usize>| self.is_valid_order(o))) by {
                    if exists|o: Seq<usize>| self.is_valid_order(o) {
                        let o = choose|o: Seq<usize>| self.is_valid_order(o);
                        lemma_stalled_refutes_order(self.stage_count(), self.deps(), placed@, o);
                    }
                }
            }
            Err(DependencyCycleError)
        }
    }
}

/// In every admissible order, a stage stands strictly after each stage it
/// depends on.
pub proof fn lemma_order_respects_dependency(
    g: &StageGraph,
    o: Seq<usize>,
    before: usize,
    after: usize,
    kb: int,
    ka: int,
)
    requires
        g.deps().contains((before, after)),
        g.is_valid_order(o),
        0 <= kb < o.len(),
        0 <= ka < o.len(),
        o[kb] == before,
        o[ka] == after,
    ensures
        kb < ka,
{
    let e = choose|e: int| 0 <= e < g.deps().len() && g.deps()[e] == (before, after);
    assert(o[kb] == g.deps()[e].0);
    assert(o[ka] == g.deps()[e].1);
}

} // verus!
