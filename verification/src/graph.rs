//! Reachability in finite directed graphs given by adjacency lists, and the counting
//! facts that bound worklist searches.
use vstd::prelude::*;

verus! {

/// The set of marked nodes.
pub open spec fn marked_set(marked: Seq<bool>) -> Set<int> {
    Set::new(|b: int| 0 <= b < marked.len() && marked[b])
}

/// Number of `true` entries.
pub open spec fn count_true(s: Seq<bool>) -> nat
    decreases s.len(),
{
    if s.len() == 0 {
        0
    } else {
        count_true(s.drop_last()) + if s.last() { 1nat } else { 0nat }
    }
}

pub proof fn lemma_count_true_bound(s: Seq<bool>)
    ensures
        count_true(s) <= s.len(),
    decreases s.len(),
{
    if s.len() > 0 {
        lemma_count_true_bound(s.drop_last());
    }
}

pub proof fn lemma_count_true_set(s: Seq<bool>, i: int)
    requires
        0 <= i < s.len(),
        !s[i],
    ensures
        count_true(s.update(i, true)) == count_true(s) + 1,
    decreases s.len(),
{
    let t = s.update(i, true);
    if i == s.len() - 1 {
        assert(t.drop_last() =~= s.drop_last());
    } else {
        assert(t.drop_last() =~= s.drop_last().update(i, true));
        lemma_count_true_set(s.drop_last(), i);
    }
}

/// Pointwise `a` implies `b`.
pub open spec fn le_bools(a: Seq<bool>, b: Seq<bool>) -> bool {
    a.len() == b.len() && forall|i: int| 0 <= i < a.len() ==> a[i] ==> b[i]
}

pub proof fn lemma_count_true_le(a: Seq<bool>, b: Seq<bool>)
    requires
        le_bools(a, b),
    ensures
        count_true(a) <= count_true(b),
        count_true(a) == count_true(b) ==> a == b,
    decreases a.len(),
{
    if a.len() > 0 {
        lemma_count_true_le(a.drop_last(), b.drop_last());
        if count_true(a) == count_true(b) {
            assert(count_true(a.drop_last()) == count_true(b.drop_last()));
            assert(a.drop_last() == b.drop_last());
            assert(a.last() == b.last());
            assert forall|i: int| 0 <= i < a.len() implies a[i] == b[i] by {
                if i < a.len() - 1 {
                    assert(a[i] == a.drop_last()[i]);
                    assert(b[i] == b.drop_last()[i]);
                }
            }
            assert(a =~= b);
        }
    } else {
        assert(a =~= b);
    }
}


pub proof fn lemma_count_true_zero(s: Seq<bool>)
    requires
        forall|i: int| 0 <= i < s.len() ==> !s[i],
    ensures
        count_true(s) == 0,
    decreases s.len(),
{
    if s.len() > 0 {
        lemma_count_true_zero(s.drop_last());
    }
}



/// The successor lists of an adjacency list, as sequences.
pub open spec fn adj_view(g: Seq<Vec<usize>>) -> Seq<Seq<usize>> {
    Seq::new(g.len(), |i: int| g[i]@)
}

/// There is an edge from node `a` to node `b`.
pub open spec fn adj_edge(g: Seq<Seq<usize>>, a: int, b: int) -> bool {
    &&& 0 <= a < g.len()
    &&& 0 <= b < g.len()
    &&& g[a].contains(b as usize)
}

/// A set of nodes closed under edges.
pub open spec fn adj_closed(g: Seq<Seq<usize>>, c: Set<int>) -> bool {
    forall|a: int, b: int| c.contains(a) && #[trigger] adj_edge(g, a, b) ==> c.contains(b)
}

/// Node `b` is reached from `src` along one or more edges: it lies in every edge-closed set
/// that holds the successors of `src`.
pub open spec fn reaches(g: Seq<Seq<usize>>, src: int, b: int) -> bool {
    &&& 0 <= b < g.len()
    &&& forall|c: Set<int>| #[trigger] adj_closed(g, c) && (forall|s: int| adj_edge(g, src, s) ==> c.contains(s)) ==> c.contains(b)
}

/// A successor of `src` is reached from it, and what a reached node leads to is reached too.
pub proof fn lemma_reaches_step(g: Seq<Seq<usize>>, src: int, a: int, b: int)
    requires
        adj_edge(g, a, b),
        a == src || reaches(g, src, a),
    ensures
        reaches(g, src, b),
{
    assert forall|c: Set<int>| #[trigger] adj_closed(g, c) && (forall|s: int| adj_edge(g, src, s) ==> c.contains(s)) implies c.contains(b) by {
        if a == src {
        } else {
            assert(c.contains(a));
        }
    }
}

/// Which nodes `src` reaches along one or more edges, by a worklist search.
#[verifier::loop_isolation(false)]
pub fn reached_from(g: &Vec<Vec<usize>>, src: usize) -> (r: Vec<bool>)
    requires
        src < g@.len(),
    ensures
        r@.len() == g@.len(),
        forall|b: int| 0 <= b < g@.len() ==> #[trigger] r@[b] == reaches(adj_view(g@), src as int, b),
{
    let ghost gv = adj_view(g@);
    let n = g.len();
    let mut marks: Vec<bool> = Vec::new();
    let mut i: usize = 0;
    while i < n
        invariant
            i <= n,
            marks@.len() == i,
            forall|b: int| 0 <= b < i ==> !marks@[b],
        decreases n - i,
    {
        marks.push(false);
        i += 1;
    }
    proof {
        lemma_count_true_zero(marks@);
    }
    let mut work: Vec<usize> = g[src].clone();
    proof {
        assert(work@ == gv[src as int]);
    }
    loop
        invariant
            n == g@.len() == gv.len(),
            gv == adj_view(g@),
            src < n,
            marks@.len() == n,
            count_true(marks@) <= n,
            forall|c: Set<int>| #[trigger] adj_closed(gv, c) && (forall|s: int| adj_edge(gv, src as int, s) ==> c.contains(s)) ==> (forall|b: int|
                0 <= b < n && marks@[b] ==> c.contains(b)) && (forall|k: int|
                0 <= k < work@.len() && (work@[k] as int) < n ==> c.contains(work@[k] as int)),
            forall|a: int, b: int|
                0 <= a < n && marks@[a] && #[trigger] adj_edge(gv, a, b) ==> marks@[b] || work@.contains(b as usize),
            forall|b: int| #[trigger] adj_edge(gv, src as int, b) ==> marks@[b] || work@.contains(b as usize),
        decreases n - count_true(marks@), work@.len(),
    {
        let ghost old_work = work@;
        let ghost old_marks = marks@;
        match work.pop() {
            None => {
                proof {
                    let m = marked_set(marks@);
                    assert(adj_closed(gv, m)) by {
                        assert forall|a: int, b: int| m.contains(a) && #[trigger] adj_edge(gv, a, b) implies m.contains(b) by {
                            if !marks@[b] {
                                assert(work@.contains(b as usize));
                            }
                        }
                    }
                    assert forall|b: int| 0 <= b < n implies #[trigger] marks@[b] == reaches(gv, src as int, b) by {
                        if !marks@[b] && reaches(gv, src as int, b) {
                            assert forall|s: int| adj_edge(gv, src as int, s) implies m.contains(s) by {
                                if !marks@[s] {
                                    assert(work@.contains(s as usize));
                                }
                            }
                            assert(m.contains(b));
                        }
                    }
                }
                break;
            },
            Some(index) => {
                if index >= n || marks[index] {
                    proof {
                        assert forall|a: int, b: int|
                            0 <= a < n && marks@[a] && #[trigger] adj_edge(gv, a, b) implies marks@[b] || work@.contains(b as usize) by {
                            if !marks@[b] {
                                assert(old_work.contains(b as usize));
                                let k = choose|k: int| 0 <= k < old_work.len() && old_work[k] == b as usize;
                                if k < work@.len() {
                                    assert(work@[k] == b as usize);
                                }
                            }
                        }
                        assert forall|b: int| #[trigger] adj_edge(gv, src as int, b) implies marks@[b] || work@.contains(b as usize) by {
                            if !marks@[b] {
                                assert(old_work.contains(b as usize));
                                let k = choose|k: int| 0 <= k < old_work.len() && old_work[k] == b as usize;
                                if k < work@.len() {
                                    assert(work@[k] == b as usize);
                                }
                            }
                        }
                    }
                    continue;
                }
                proof {
                    lemma_count_true_set(marks@, index as int);
                    lemma_count_true_bound(marks@.update(index as int, true));
                }
                marks.set(index, true);
                let ghost popped = work@;
                let succ = &g[index];
                let mut j: usize = 0;
                while j < succ.len()
                    invariant
                        j <= succ@.len(),
                        *succ == g@[index as int],
                        work@.len() == popped.len() + j,
                        forall|k: int| 0 <= k < popped.len() ==> work@[k] == popped[k],
                        forall|k: int| 0 <= k < j ==> work@[popped.len() + k] == succ@[k],
                    decreases succ.len() - j,
                {
                    work.push(succ[j]);
                    j = j + 1;
                }
                proof {
                    assert(gv[index as int] == succ@);
                    assert forall|k: int| popped.len() <= k < work@.len() implies gv[index as int].contains(#[trigger] work@[k]) by {
                        assert(work@[k] == succ@[k - popped.len()]);
                    }
                    assert forall|b: int| #[trigger] adj_edge(gv, index as int, b) implies work@.contains(b as usize) by {
                        let k = choose|k: int| 0 <= k < succ@.len() && succ@[k] == b as usize;
                        assert(work@[popped.len() + k] == b as usize);
                    }
                    assert forall|c: Set<int>| #[trigger] adj_closed(gv, c) && (forall|s: int| adj_edge(gv, src as int, s) ==> c.contains(s)) implies (forall|b: int|
                        0 <= b < n && marks@[b] ==> c.contains(b)) && (forall|k: int|
                        0 <= k < work@.len() && (work@[k] as int) < n ==> c.contains(work@[k] as int)) by {
                        assert(old_work[old_work.len() - 1] == index);
                        assert(c.contains(index as int));
                        assert forall|k: int| 0 <= k < work@.len() && (work@[k] as int) < n implies c.contains(work@[k] as int) by {
                            if k >= popped.len() {
                                assert(gv[index as int].contains(work@[k]));
                                assert(adj_edge(gv, index as int, work@[k] as int));
                            } else {
                                assert(popped[k] == old_work[k]);
                                assert(work@[k] == old_work[k]);
                            }
                        }
                    }
                    assert forall|a: int, b: int|
                        0 <= a < n && marks@[a] && #[trigger] adj_edge(gv, a, b) implies marks@[b] || work@.contains(b as usize) by {
                        if a != index as int && !marks@[b] {
                            assert(old_marks[a]);
                            assert(old_work.contains(b as usize));
                            let k = choose|k: int| 0 <= k < old_work.len() && old_work[k] == b as usize;
                            if k < popped.len() {
                                assert(popped[k] == old_work[k]);
                                assert(work@[k] == b as usize);
                            } else {
                                assert(b as usize == index);
                            }
                        }
                    }
                    assert forall|b: int| #[trigger] adj_edge(gv, src as int, b) implies marks@[b] || work@.contains(b as usize) by {
                        if !marks@[b] {
                            assert(old_work.contains(b as usize));
                            let k = choose|k: int| 0 <= k < old_work.len() && old_work[k] == b as usize;
                            if k < popped.len() {
                                assert(popped[k] == old_work[k]);
                                assert(work@[k] == b as usize);
                            } else {
                                assert(b as usize == index);
                            }
                        }
                    }
                }
            },
        }
    }
    marks
}

} // verus!
