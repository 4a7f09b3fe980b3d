use vstd::pervasive::VecAdditionalExecFns;
use vstd::prelude::*;

verus! {

/// One propagation step over an adjacency matrix `em`: everything
/// already in `prev`, plus every in-range node with an edge from a
/// `prev` node. Every fixed-point computation of the pipeline —
/// opaqueness propagation, the unsupported-dependent cascade, and
/// reachability pruning — is specified by iterating this step.
pub open spec fn step_set(prev: Set<int>, em: Seq<Seq<bool>>) -> Set<int> {
    Set::new(
        |i: int|
            prev.contains(i) || (0 <= i < em.len() && exists|j: int|
                0 <= j < em.len() && #[trigger] prev.contains(j) && em[j][i]),
    )
}

/// The nodes reached from the seed set in at most `k` forward steps.
pub open spec fn reach_set(init: Set<int>, em: Seq<Seq<bool>>, k: nat) -> Set<int>
    decreases k,
{
    if k == 0 {
        init
    } else {
        step_set(reach_set(init, em, (k - 1) as nat), em)
    }
}

/// Node `i` lies in the least set that contains the seeds and is
/// closed under following edges forward.
pub open spec fn reached(init: Set<int>, em: Seq<Seq<bool>>, i: int) -> bool {
    exists|k: nat| reach_set(init, em, k).contains(i)
}

/// The edge matrix of an executable adjacency structure.
pub open spec fn em_of(edges: Seq<Vec<bool>>) -> Seq<Seq<bool>> {
    edges.map_values(|r: Vec<bool>| r@)
}

/// The seed set of an executable seed vector.
pub open spec fn init_set_of(init: Seq<bool>) -> Set<int> {
    Set::new(|i: int| 0 <= i < init.len() && init[i])
}

/// Seeds are reached immediately.
pub proof fn lemma_reach_seed(init: Set<int>, em: Seq<Seq<bool>>, i: int)
    requires
        init.contains(i),
    ensures
        reached(init, em, i),
{
    assert(reach_set(init, em, 0).contains(i));
}

/// Following one more edge from a reached node reaches its target.
pub proof fn lemma_reach_step(init: Set<int>, em: Seq<Seq<bool>>, j: int, i: int)
    requires
        reached(init, em, j),
        0 <= j < em.len(),
        0 <= i < em.len(),
        em[j][i],
    ensures
        reached(init, em, i),
{
    let kw = choose|k: nat| reach_set(init, em, k).contains(j);
    assert(step_set(reach_set(init, em, kw), em).contains(i));
    assert(reach_set(init, em, (kw + 1) as nat).contains(i));
}

/// Any mark assignment that contains the seeds and is closed under the
/// edges covers everything reachable: reachability is the least such
/// set.
pub proof fn lemma_reach_closed(init: Set<int>, em: Seq<Seq<bool>>, marks: Seq<bool>, k: nat)
    requires
        marks.len() == em.len(),
        forall|p: int| 0 <= p < em.len() && init.contains(p) ==> marks[p],
        forall|p: int, q: int|
            0 <= p < em.len() && 0 <= q < em.len() && marks[p] && #[trigger] em[p][q] ==> marks[q],
    ensures
        forall|i: int|
            0 <= i < em.len() && #[trigger] reach_set(init, em, k).contains(i) ==> marks[i],
    decreases k,
{
    if k > 0 {
        lemma_reach_closed(init, em, marks, (k - 1) as nat);
        let prev = reach_set(init, em, (k - 1) as nat);
        assert forall|i: int|
            0 <= i < em.len() && #[trigger] reach_set(init, em, k).contains(i) implies marks[i] by {
            assert(step_set(prev, em).contains(i));
            if prev.contains(i) {
            } else {
                let j = choose|j: int| 0 <= j < em.len() && #[trigger] prev.contains(j) && em[j][i];
                assert(marks[j]);
            }
        }
    }
}

/// How many positions of a mark vector are still unset; the termination
/// measure of the fixed-point sweep.
pub open spec fn count_false(s: Seq<bool>) -> nat
    decreases s.len(),
{
    if s.len() == 0 {
        0
    } else {
        (if s[0] {
            0nat
        } else {
            1nat
        }) + count_false(s.drop_first())
    }
}

/// Setting marks never increases the number of unset positions.
pub proof fn lemma_count_false_le(a: Seq<bool>, b: Seq<bool>)
    requires
        a.len() == b.len(),
        forall|i: int| 0 <= i < a.len() && a[i] ==> b[i],
    ensures
        count_false(b) <= count_false(a),
    decreases a.len(),
{
    if a.len() > 0 {
        assert(forall|i: int|
            0 <= i < a.drop_first().len() && a.drop_first()[i] ==> b.drop_first()[i]) by {
            assert(forall|i: int| 0 <= i < a.drop_first().len() ==> a.drop_first()[i] == a[i + 1]);
            assert(forall|i: int| 0 <= i < b.drop_first().len() ==> b.drop_first()[i] == b[i + 1]);
        }
        lemma_count_false_le(a.drop_first(), b.drop_first());
    }
}

/// Newly setting at least one mark strictly shrinks the number of
/// unset positions.
pub proof fn lemma_count_false_strict(a: Seq<bool>, b: Seq<bool>)
    requires
        a.len() == b.len(),
        forall|i: int| 0 <= i < a.len() && a[i] ==> b[i],
        exists|i: int| 0 <= i < a.len() && !a[i] && b[i],
    ensures
        count_false(b) < count_false(a),
    decreases a.len(),
{
    let w = choose|i: int| 0 <= i < a.len() && !a[i] && b[i];
    assert(forall|i: int| 0 <= i < a.drop_first().len() ==> a.drop_first()[i] == a[i + 1]);
    assert(forall|i: int| 0 <= i < b.drop_first().len() ==> b.drop_first()[i] == b[i + 1]);
    if !a[0] && b[0] {
        lemma_count_false_le(a.drop_first(), b.drop_first());
    } else {
        assert(w >= 1);
        assert(!a.drop_first()[w - 1] && b.drop_first()[w - 1]);
        lemma_count_false_strict(a.drop_first(), b.drop_first());
    }
}

/// Compute, by sweeping to a fixed point, exactly the set of nodes
/// reachable from the seeds along the edge matrix.
pub fn closure_marks(init: &Vec<bool>, edges: &Vec<Vec<bool>>) -> (marks: Vec<bool>)
    requires
        init@.len() == edges@.len(),
        forall|j: int| 0 <= j < edges@.len() ==> #[trigger] edges@[j]@.len() == edges@.len(),
    ensures
        marks.len() == edges.len(),
        forall|i: int|
            0 <= i < edges.len() ==> (marks[i] == reached(init_set_of(init@), em_of(edges@), i)),
{
    let ghost em = em_of(edges@);
    let ghost iset = init_set_of(init@);
    let n = edges.len();
    let mut marks: Vec<bool> = Vec::new();
    let mut i: usize = 0;
    while i < n
        invariant
            i <= n,
            n == init@.len(),
            marks@.len() == i,
            forall|p: int| 0 <= p < i ==> marks[p] == init[p],
        decreases n - i,
    {
        marks.push(init[i]);
        i = i + 1;
    }
    proof {
        assert forall|p: int| 0 <= p < n && marks@[p] implies reached(iset, em, p) by {
            lemma_reach_seed(iset, em, p);
        }
    }
    proof {
        assert forall|j: int| 0 <= j < n implies #[trigger] em[j].len() == n by {
            assert(em[j] == edges@[j]@);
        }
    }
    let mut changed = true;
    while changed
        invariant
            n == edges@.len(),
            n == init@.len(),
            em == em_of(edges@),
            iset == init_set_of(init@),
            em.len() == n,
            forall|j: int| 0 <= j < n ==> #[trigger] em[j].len() == n,
            forall|q: int| 0 <= q < n ==> #[trigger] edges@[q]@.len() == n,
            marks@.len() == n,
            forall|p: int| 0 <= p < n && iset.contains(p) ==> marks[p],
            forall|p: int| 0 <= p < n && marks[p] ==> reached(iset, em, p),
            !changed ==> (forall|p: int, q: int|
                0 <= p < n && 0 <= q < n && marks[p] && #[trigger] em[p][q] ==> marks[q]),
        decreases count_false(marks@) * 2 + (if changed {
            1int
        } else {
            0int
        }),
    {
        let ghost start = marks@;
        changed = false;
        let mut i: usize = 0;
        while i < n
            invariant
                n == edges@.len(),
                n == init@.len(),
                em == em_of(edges@),
                iset == init_set_of(init@),
                em.len() == n,
                forall|j: int| 0 <= j < n ==> #[trigger] em[j].len() == n,
                forall|q: int| 0 <= q < n ==> #[trigger] edges@[q]@.len() == n,
                marks@.len() == n,
                start.len() == n,
                i <= n,
                forall|p: int| 0 <= p < n && start[p] ==> marks[p],
                forall|p: int| 0 <= p < n && iset.contains(p) ==> marks[p],
                forall|p: int| 0 <= p < n && marks[p] ==> reached(iset, em, p),
                !changed ==> marks@ == start,
                changed ==> (exists|p: int| 0 <= p < n && !start[p] && marks[p]),
                !changed ==> (forall|p: int, q: int|
                    0 <= p < n && 0 <= q < i && marks[p] && #[trigger] em[p][q] ==> marks[q]),
            decreases n - i,
        {
            if !marks[i] {
                let mut hit = false;
                let mut j: usize = 0;
                while j < n
                    invariant
                        n == edges@.len(),
                        em == em_of(edges@),
                        em.len() == n,
                        forall|q: int| 0 <= q < n ==> #[trigger] em[q].len() == n,
                        forall|q: int| 0 <= q < n ==> #[trigger] edges@[q]@.len() == n,
                        marks@.len() == n,
                        i < n,
                        j <= n,
                        hit == (exists|p: int|
                            0 <= p < j && marks@[p] && #[trigger] em[p][i as int]),
                    decreases n - j,
                {
                    if marks[j] && edges[j][i] {
                        proof {
                            assert(marks@[j as int] && em[j as int][i as int]);
                        }
                        hit = true;
                    }
                    j = j + 1;
                }
                if hit {
                    proof {
                        let p = choose|p: int|
                            0 <= p < n && marks@[p] && #[trigger] em[p][i as int];
                        lemma_reach_step(iset, em, p, i as int);
                    }
                    marks.set(i, true);
                    changed = true;
                }
            }
            i = i + 1;
        }
        proof {
            if changed {
                lemma_count_false_strict(start, marks@);
            }
        }
    }
    proof {
        assert forall|i: int| 0 <= i < n && reached(iset, em, i) implies marks@[i] by {
            let k = choose|k: nat| reach_set(iset, em, k).contains(i);
            lemma_reach_closed(iset, em, marks@, k);
        }
    }
    marks
}

} // verus!
