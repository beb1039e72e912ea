//! Orders used when a program is assembled: a stable sort of table entries by
//! their identifiers, and the depth-first post-order in which module initializers
//! run, each module after the modules it imports.
use vstd::prelude::*;

verus! {

/// Inserting index `x` into an order `s`: after every index whose key is at most `x`'s.
pub open spec fn insort(keys: Seq<u32>, s: Seq<int>, x: int) -> Seq<int>
    decreases s.len(),
{
    if s.len() == 0 {
        seq![x]
    } else if keys[s.last()] <= keys[x] {
        s.push(x)
    } else {
        insort(keys, s.drop_last(), x).push(s.last())
    }
}

/// The indices `0..n` ordered by their keys; equal keys keep their index order.
pub open spec fn stable_order(keys: Seq<u32>, n: nat) -> Seq<int>
    decreases n,
{
    if n == 0 {
        Seq::empty()
    } else {
        insort(keys, stable_order(keys, (n - 1) as nat), n - 1)
    }
}

proof fn lemma_insort_at(keys: Seq<u32>, s: Seq<int>, x: int, j: int)
    requires
        0 <= j <= s.len(),
        forall|k: int| j <= k < s.len() ==> keys[#[trigger] s[k]] > keys[x],
        j == 0 || keys[s[j - 1]] <= keys[x],
    ensures
        insort(keys, s, x) == s.insert(j, x),
    decreases s.len(),
{
    if s.len() == 0 {
        assert(s.insert(j, x) =~= seq![x]);
    } else if j == s.len() {
        assert(s.insert(j, x) =~= s.push(x));
    } else {
        assert(keys[s[s.len() - 1]] > keys[x]);
        let d = s.drop_last();
        assert forall|k: int| j <= k < d.len() implies keys[#[trigger] d[k]] > keys[x] by {
            assert(d[k] == s[k]);
        }
        lemma_insort_at(keys, d, x, j);
        assert(d.insert(j, x).push(s.last()) =~= s.insert(j, x));
    }
}

proof fn lemma_insort_elems(keys: Seq<u32>, s: Seq<int>, x: int, bound: int)
    requires
        forall|k: int| 0 <= k < s.len() ==> 0 <= #[trigger] s[k] < bound,
        0 <= x < bound,
    ensures
        insort(keys, s, x).len() == s.len() + 1,
        forall|k: int| 0 <= k < s.len() + 1 ==> 0 <= #[trigger] insort(keys, s, x)[k] < bound,
    decreases s.len(),
{
    if s.len() > 0 && keys[s.last()] > keys[x] {
        let d = s.drop_last();
        assert forall|k: int| 0 <= k < d.len() implies 0 <= #[trigger] d[k] < bound by {
            assert(d[k] == s[k]);
        }
        lemma_insort_elems(keys, d, x, bound);
        let t = insort(keys, d, x);
        assert forall|k: int| 0 <= k < s.len() + 1 implies 0 <= #[trigger] t.push(s.last())[k] < bound by {
            if k < t.len() {
                assert(t.push(s.last())[k] == t[k]);
            }
        }
    }
}

/// The stable order holds `n` indices, each below `n`.
pub proof fn lemma_stable_order(keys: Seq<u32>, n: nat)
    ensures
        stable_order(keys, n).len() == n,
        forall|i: int| 0 <= i < n ==> 0 <= #[trigger] stable_order(keys, n)[i] < n,
    decreases n,
{
    if n > 0 {
        lemma_stable_order(keys, (n - 1) as nat);
        lemma_insort_elems(keys, stable_order(keys, (n - 1) as nat), n - 1, n as int);
    }
}

/// The indices of `keys`, ordered by key; equal keys keep their order.
pub fn stable_order_of(keys: &Vec<u32>) -> (r: Vec<usize>)
    ensures
        r@.len() == keys@.len(),
        forall|i: int| 0 <= i < r@.len() ==> r@[i] as int == #[trigger] stable_order(keys@, keys@.len())[i],
        forall|i: int| 0 <= i < r@.len() ==> (#[trigger] r@[i]) < keys@.len(),
{
    let n = keys.len();
    let mut r: Vec<usize> = Vec::new();
    let mut i: usize = 0;
    while i < n
        invariant
            n == keys@.len(),
            i <= n,
            r@.len() == i,
            forall|k: int| 0 <= k < i ==> r@[k] as int == #[trigger] stable_order(keys@, i as nat)[k],
            forall|k: int| 0 <= k < i ==> (#[trigger] r@[k]) < i,
        decreases n - i,
    {
        let ghost s = r@.map_values(|v: usize| v as int);
        proof {
            lemma_stable_order(keys@, i as nat);
            assert(s =~= stable_order(keys@, i as nat));
        }
        let mut j: usize = r.len();
        while j > 0 && keys[r[j - 1]] > keys[i]
            invariant
                n == keys@.len(),
                i < n,
                j <= r@.len(),
                r@.len() == i,
                s == r@.map_values(|v: usize| v as int),
                forall|k: int| 0 <= k < i ==> (#[trigger] r@[k]) < i,
                forall|k: int| j <= k < r@.len() ==> keys@[#[trigger] s[k]] > keys@[i as int],
            decreases j,
        {
            j -= 1;
        }
        proof {
            if j > 0 {
                assert(s[j - 1] == r@[j - 1] as int);
            }
            lemma_insort_at(keys@, s, i as int, j as int);
            assert(stable_order(keys@, (i + 1) as nat) == insort(keys@, stable_order(keys@, i as nat), i as int));
        }
        r.insert(j, i);
        proof {
            assert(r@.map_values(|v: usize| v as int) =~= s.insert(j as int, i as int));
            assert forall|k: int| 0 <= k < i + 1 implies r@[k] as int == #[trigger] stable_order(keys@, (i + 1) as nat)[k] by {
                assert(r@.map_values(|v: usize| v as int)[k] == r@[k] as int);
            }
            assert forall|k: int| 0 <= k < i + 1 implies (#[trigger] r@[k]) < i + 1 by {
                assert(r@.map_values(|v: usize| v as int)[k] == r@[k] as int);
                if k < j {
                    assert(s[k] == r@[k] as int);
                } else if k > j {
                    assert(s[k - 1] == r@[k] as int);
                }
            }
        }
        i += 1;
    }
    r
}

/// How many modules have not been visited.
pub open spec fn unvisited(state: Seq<u8>) -> nat
    decreases state.len(),
{
    if state.len() == 0 {
        0
    } else {
        unvisited(state.drop_last()) + if state.last() == 0 { 1nat } else { 0nat }
    }
}

proof fn lemma_unvisited_update(state: Seq<u8>, i: int, v: u8)
    requires
        0 <= i < state.len(),
    ensures
        state[i] == 0 && v != 0 ==> unvisited(state.update(i, v)) + 1 == unvisited(state),
        state[i] != 0 && v != 0 ==> unvisited(state.update(i, v)) == unvisited(state),
        state[i] == 0 ==> unvisited(state) >= 1,
    decreases state.len(),
{
    let t = state.update(i, v);
    if i == state.len() - 1 {
        assert(t.drop_last() =~= state.drop_last());
    } else {
        lemma_unvisited_update(state.drop_last(), i, v);
        assert(t.drop_last() =~= state.drop_last().update(i, v));
    }
}

pub proof fn lemma_unvisited_bound(state: Seq<u8>)
    ensures
        unvisited(state) <= state.len(),
    decreases state.len(),
{
    if state.len() > 0 {
        lemma_unvisited_bound(state.drop_last());
    }
}

/// Visiting a module depth-first: once, after the modules it imports, with `fuel`
/// bounding how many modules are still to be visited.
pub open spec fn spec_visit(deps: Seq<Seq<int>>, index: int, state: Seq<u8>, out: Seq<int>, fuel: nat) -> (Seq<u8>, Seq<int>)
    decreases fuel, 0int,
{
    if !(0 <= index < state.len()) || state[index] != 0 || fuel == 0 {
        (state, out)
    } else {
        let (s1, o1) = spec_visit_deps(deps, if index < deps.len() { deps[index] } else { Seq::empty() }, state.update(index, 1), out, (fuel - 1) as nat);
        (s1.update(index, 2), o1.push(index))
    }
}

/// Visiting the given modules in order.
pub open spec fn spec_visit_deps(deps: Seq<Seq<int>>, ds: Seq<int>, state: Seq<u8>, out: Seq<int>, fuel: nat) -> (Seq<u8>, Seq<int>)
    decreases fuel, ds.len() + 1,
{
    if ds.len() == 0 {
        (state, out)
    } else {
        let (s1, o1) = spec_visit_deps(deps, ds.drop_last(), state, out, fuel);
        spec_visit(deps, ds.last(), s1, o1, fuel)
    }
}

/// The post-order of a depth-first walk over all modules in index order, each
/// module's imports in the order they were written: a module comes after the
/// modules it imports, unless they import it back.
pub open spec fn init_order(deps: Seq<Seq<int>>, n: nat) -> Seq<int> {
    spec_visit_all(deps, n, n).1
}

pub open spec fn spec_visit_all(deps: Seq<Seq<int>>, n: nat, k: nat) -> (Seq<u8>, Seq<int>)
    decreases k,
{
    if k == 0 {
        (Seq::new(n, |i: int| 0u8), Seq::empty())
    } else {
        let (s1, o1) = spec_visit_all(deps, n, (k - 1) as nat);
        spec_visit(deps, k - 1, s1, o1, n)
    }
}

fn visit(deps: &Vec<Vec<usize>>, index: usize, state: &mut Vec<u8>, out: &mut Vec<usize>, Ghost(fuel): Ghost<nat>)
    requires
        unvisited(old(state)@) <= fuel,
        forall|m: int, k: int| 0 <= m < deps@.len() && 0 <= k < deps@[m]@.len() ==> (#[trigger] deps@[m]@[k]) < old(state)@.len(),
        deps@.len() == old(state)@.len(),
    ensures
        final(state)@.len() == old(state)@.len(),
        unvisited(final(state)@) <= unvisited(old(state)@),
        final(out)@.len() >= old(out)@.len(),
        final(out)@.subrange(0, old(out)@.len() as int) == old(out)@,
        forall|i: int| old(out)@.len() <= i < final(out)@.len() ==> (#[trigger] final(out)@[i]) < old(state)@.len(),
        (final(state)@, final(out)@.map_values(|v: usize| v as int)) == spec_visit(deps_model(deps@), index as int, old(state)@, old(out)@.map_values(|v: usize| v as int), fuel),
    decreases fuel, 0int,
{
    if index >= state.len() || state[index] != 0 {
        return;
    }
    proof {
        lemma_unvisited_update(state@, index as int, 1u8);
    }
    let ghost s0 = state@;
    let ghost o0 = out@.map_values(|v: usize| v as int);
    state.set(index, 1);
    visit_deps(deps, &deps[index], state, out, Ghost((fuel - 1) as nat));
    proof {
        lemma_unvisited_update(state@, index as int, 2u8);
    }
    let ghost o1 = out@.map_values(|v: usize| v as int);
    let ghost raw1 = out@;
    state.set(index, 2);
    out.push(index);
    proof {
        assert(out@.subrange(0, old(out)@.len() as int) =~= raw1.subrange(0, old(out)@.len() as int));
    }
    proof {
        assert(out@.map_values(|v: usize| v as int) =~= o1.push(index as int));
        assert(deps_model(deps@)[index as int] == deps@[index as int]@.map_values(|v: usize| v as int));
    }
}

fn visit_deps(deps: &Vec<Vec<usize>>, ds: &Vec<usize>, state: &mut Vec<u8>, out: &mut Vec<usize>, Ghost(fuel): Ghost<nat>)
    requires
        unvisited(old(state)@) <= fuel,
        forall|m: int, k: int| 0 <= m < deps@.len() && 0 <= k < deps@[m]@.len() ==> (#[trigger] deps@[m]@[k]) < old(state)@.len(),
        forall|k: int| 0 <= k < ds@.len() ==> (#[trigger] ds@[k]) < old(state)@.len(),
        deps@.len() == old(state)@.len(),
    ensures
        final(state)@.len() == old(state)@.len(),
        unvisited(final(state)@) <= unvisited(old(state)@),
        final(out)@.len() >= old(out)@.len(),
        final(out)@.subrange(0, old(out)@.len() as int) == old(out)@,
        forall|i: int| old(out)@.len() <= i < final(out)@.len() ==> (#[trigger] final(out)@[i]) < old(state)@.len(),
        (final(state)@, final(out)@.map_values(|v: usize| v as int)) == spec_visit_deps(deps_model(deps@), ds@.map_values(|v: usize| v as int), old(state)@, old(out)@.map_values(|v: usize| v as int), fuel),
    decreases fuel, ds@.len() + 1,
{
    let ghost dm = ds@.map_values(|v: usize| v as int);
    let ghost s0 = state@;
    let ghost o0 = out@.map_values(|v: usize| v as int);
    let mut i: usize = 0;
    proof {
        assert(dm.subrange(0, 0) =~= Seq::<int>::empty());
    }
    while i < ds.len()
        invariant
            i <= ds@.len(),
            dm == ds@.map_values(|v: usize| v as int),
            state@.len() == s0.len(),
            s0 == old(state)@,
            o0 == old(out)@.map_values(|v: usize| v as int),
            unvisited(state@) <= unvisited(s0),
            unvisited(s0) <= fuel,
            out@.len() >= old(out)@.len(),
            out@.subrange(0, old(out)@.len() as int) == old(out)@,
            forall|k: int| old(out)@.len() <= k < out@.len() ==> (#[trigger] out@[k]) < s0.len(),
            deps@.len() == s0.len(),
            forall|m: int, k: int| 0 <= m < deps@.len() && 0 <= k < deps@[m]@.len() ==> (#[trigger] deps@[m]@[k]) < s0.len(),
            forall|k: int| 0 <= k < ds@.len() ==> (#[trigger] ds@[k]) < s0.len(),
            (state@, out@.map_values(|v: usize| v as int)) == spec_visit_deps(deps_model(deps@), dm.subrange(0, i as int), s0, o0, fuel),
        decreases ds.len() - i,
    {
        proof {
            assert(dm.subrange(0, i + 1).drop_last() =~= dm.subrange(0, i as int));
            assert(dm.subrange(0, i + 1).last() == ds@[i as int] as int);
        }
        let ghost raw0 = out@;
        visit(deps, ds[i], state, out, Ghost(fuel));
        proof {
            assert(out@.subrange(0, old(out)@.len() as int) =~= out@.subrange(0, raw0.len() as int).subrange(0, old(out)@.len() as int));
            assert forall|k: int| old(out)@.len() <= k < out@.len() implies (#[trigger] out@[k]) < s0.len() by {
                if k < raw0.len() {
                    assert(out@.subrange(0, raw0.len() as int)[k] == raw0[k]);
                }
            }
        }
        i += 1;
    }
    proof {
        assert(dm.subrange(0, dm.len() as int) =~= dm);
    }
}

pub open spec fn deps_model(deps: Seq<Vec<usize>>) -> Seq<Seq<int>> {
    deps.map_values(|d: Vec<usize>| d@.map_values(|v: usize| v as int))
}

/// The depth-first post-order of the modules `0..deps.len()`, given each module's imports.
pub fn initializer_order(deps: &Vec<Vec<usize>>) -> (r: Vec<usize>)
    requires
        forall|m: int, k: int| 0 <= m < deps@.len() && 0 <= k < deps@[m]@.len() ==> (#[trigger] deps@[m]@[k]) < deps@.len(),
    ensures
        r@.map_values(|v: usize| v as int) == init_order(deps_model(deps@), deps@.len()),
        forall|i: int| 0 <= i < r@.len() ==> (#[trigger] r@[i]) < deps@.len(),
{
    let n = deps.len();
    let mut state: Vec<u8> = Vec::new();
    let mut k: usize = 0;
    while k < n
        invariant
            k <= n,
            n == deps@.len(),
            state@ == Seq::new(k as nat, |i: int| 0u8),
        decreases n - k,
    {
        state.push(0);
        proof {
            assert(state@ =~= Seq::new((k + 1) as nat, |i: int| 0u8));
        }
        k += 1;
    }
    let mut out: Vec<usize> = Vec::new();
    let mut i: usize = 0;
    proof {
        assert(out@.map_values(|v: usize| v as int) =~= Seq::<int>::empty());
        assert(state@ =~= spec_visit_all(deps_model(deps@), n as nat, 0).0);
    }
    while i < n
        invariant
            i <= n,
            n == deps@.len(),
            state@.len() == n,
            forall|m: int, k: int| 0 <= m < deps@.len() && 0 <= k < deps@[m]@.len() ==> (#[trigger] deps@[m]@[k]) < deps@.len(),
            (state@, out@.map_values(|v: usize| v as int)) == spec_visit_all(deps_model(deps@), n as nat, i as nat),
            forall|k: int| 0 <= k < out@.len() ==> (#[trigger] out@[k]) < n,
        decreases n - i,
    {
        proof {
            lemma_unvisited_bound(state@);
        }
        let ghost raw0 = out@;
        visit(deps, i, &mut state, &mut out, Ghost(n as nat));
        proof {
            assert forall|k: int| 0 <= k < out@.len() implies (#[trigger] out@[k]) < n by {
                if k < raw0.len() {
                    assert(out@.subrange(0, raw0.len() as int)[k] == raw0[k]);
                }
            }
        }
        i += 1;
    }
    out
}

/// What a walk from `(s, o)` to `(s2, o2)` did: it turned unvisited modules into
/// visited ones and touched no other, and appended exactly those, once each.
pub open spec fn walk_effect(s: Seq<u8>, o: Seq<int>, s2: Seq<u8>, o2: Seq<int>) -> bool {
    &&& s2.len() == s.len()
    &&& forall|j: int| 0 <= j < s.len() ==> (#[trigger] s2[j] == s[j] || (s[j] == 0 && s2[j] == 2))
    &&& o2.len() >= o.len()
    &&& o2.subrange(0, o.len() as int) == o
    &&& forall|i: int| o.len() <= i < o2.len() ==> 0 <= #[trigger] o2[i] < s.len() && s[o2[i]] == 0 && s2[o2[i]] == 2
    &&& forall|i: int, k: int| o.len() <= i < k < o2.len() ==> #[trigger] o2[i] != #[trigger] o2[k]
    &&& forall|j: int| 0 <= j < s.len() && s[j] == 0 && #[trigger] s2[j] == 2 ==> exists|i: int| o.len() <= i < o2.len() && o2[i] == j
}

proof fn lemma_walk_effect_refl(s: Seq<u8>, o: Seq<int>)
    ensures
        walk_effect(s, o, s, o),
{
    assert(o.subrange(0, o.len() as int) =~= o);
}

proof fn lemma_walk_effect_trans(s: Seq<u8>, o: Seq<int>, s1: Seq<u8>, o1: Seq<int>, s2: Seq<u8>, o2: Seq<int>)
    requires
        walk_effect(s, o, s1, o1),
        walk_effect(s1, o1, s2, o2),
    ensures
        walk_effect(s, o, s2, o2),
{
    assert(o2.subrange(0, o.len() as int) =~= o2.subrange(0, o1.len() as int).subrange(0, o.len() as int));
    assert forall|i: int| o.len() <= i < o2.len() implies 0 <= #[trigger] o2[i] < s.len() && s[o2[i]] == 0 && s2[o2[i]] == 2 by {
        if i < o1.len() {
            assert(o2.subrange(0, o1.len() as int)[i] == o1[i]);
            assert(s2[o1[i]] == s1[o1[i]] || (s1[o1[i]] == 0 && s2[o1[i]] == 2));
        } else {
            assert(s1[o2[i]] == s[o2[i]] || (s[o2[i]] == 0 && s1[o2[i]] == 2));
        }
    }
    assert forall|i: int, k: int| o.len() <= i < k < o2.len() implies #[trigger] o2[i] != #[trigger] o2[k] by {
        if k < o1.len() {
            assert(o2.subrange(0, o1.len() as int)[i] == o1[i]);
            assert(o2.subrange(0, o1.len() as int)[k] == o1[k]);
        } else if i < o1.len() {
            assert(o2.subrange(0, o1.len() as int)[i] == o1[i]);
            assert(s1[o1[i]] == 2);
            assert(s1[o2[k]] == 0);
        }
    }
    assert forall|j: int| 0 <= j < s.len() && s[j] == 0 && #[trigger] s2[j] == 2 implies exists|i: int| o.len() <= i < o2.len() && o2[i] == j by {
        assert(s1[j] == s[j] || (s[j] == 0 && s1[j] == 2));
        if s1[j] == 2 {
            let i = choose|i: int| o.len() <= i < o1.len() && o1[i] == j;
            assert(o2.subrange(0, o1.len() as int)[i] == o1[i]);
            assert(o2[i] == j);
        } else {
            let i = choose|i: int| o1.len() <= i < o2.len() && o2[i] == j;
            assert(o.len() <= i < o2.len() && o2[i] == j);
        }
    }
}

proof fn lemma_visit_effect(deps: Seq<Seq<int>>, index: int, state: Seq<u8>, out: Seq<int>, fuel: nat)
    ensures
        walk_effect(state, out, spec_visit(deps, index, state, out, fuel).0, spec_visit(deps, index, state, out, fuel).1),
    decreases fuel, 0int,
{
    if !(0 <= index < state.len()) || state[index] != 0 || fuel == 0 {
        lemma_walk_effect_refl(state, out);
    } else {
        let ds = if index < deps.len() { deps[index] } else { Seq::empty() };
        let s0 = state.update(index, 1);
        let (s1, o1) = spec_visit_deps(deps, ds, s0, out, (fuel - 1) as nat);
        lemma_visit_deps_effect(deps, ds, s0, out, (fuel - 1) as nat);
        let s2 = s1.update(index, 2);
        let o2 = o1.push(index);
        assert(s1[index] == 1) by {
            assert(s1[index] == s0[index] || (s0[index] == 0 && s1[index] == 2));
        }
        assert(o2.subrange(0, out.len() as int) =~= o1.subrange(0, out.len() as int));
        assert forall|j: int| 0 <= j < state.len() implies (#[trigger] s2[j] == state[j] || (state[j] == 0 && s2[j] == 2)) by {
            if j != index {
                assert(s1[j] == s0[j] || (s0[j] == 0 && s1[j] == 2));
            }
        }
        assert forall|i: int| out.len() <= i < o2.len() implies 0 <= #[trigger] o2[i] < state.len() && state[o2[i]] == 0 && s2[o2[i]] == 2 by {
            if i < o1.len() {
                assert(o2[i] == o1[i]);
                assert(s0[o1[i]] == 0);
                assert(o1[i] != index);
            }
        }
        assert forall|i: int, k: int| out.len() <= i < k < o2.len() implies #[trigger] o2[i] != #[trigger] o2[k] by {
            if k < o1.len() {
                assert(o2[i] == o1[i] && o2[k] == o1[k]);
            } else {
                assert(o2[i] == o1[i]);
                assert(s0[o1[i]] == 0);
            }
        }
        assert forall|j: int| 0 <= j < state.len() && state[j] == 0 && #[trigger] s2[j] == 2 implies exists|i: int| out.len() <= i < o2.len() && o2[i] == j by {
            if j == index {
                assert(o2[o1.len() as int] == j);
            } else {
                assert(s0[j] == 0 && s1[j] == 2);
                let i = choose|i: int| out.len() <= i < o1.len() && o1[i] == j;
                assert(o2[i] == o1[i]);
            }
        }
    }
}

proof fn lemma_visit_deps_effect(deps: Seq<Seq<int>>, ds: Seq<int>, state: Seq<u8>, out: Seq<int>, fuel: nat)
    ensures
        walk_effect(state, out, spec_visit_deps(deps, ds, state, out, fuel).0, spec_visit_deps(deps, ds, state, out, fuel).1),
    decreases fuel, ds.len() + 1,
{
    if ds.len() == 0 {
        lemma_walk_effect_refl(state, out);
    } else {
        let (s1, o1) = spec_visit_deps(deps, ds.drop_last(), state, out, fuel);
        lemma_visit_deps_effect(deps, ds.drop_last(), state, out, fuel);
        lemma_visit_effect(deps, ds.last(), s1, o1, fuel);
        let (s2, o2) = spec_visit(deps, ds.last(), s1, o1, fuel);
        lemma_walk_effect_trans(state, out, s1, o1, s2, o2);
    }
}

proof fn lemma_visit_all(deps: Seq<Seq<int>>, n: nat, k: nat)
    requires
        k <= n,
    ensures
        ({
            let (s, o) = spec_visit_all(deps, n, k);
            &&& s.len() == n
            &&& forall|j: int| 0 <= j < n ==> #[trigger] s[j] == 0 || s[j] == 2
            &&& forall|j: int| 0 <= j < k ==> #[trigger] s[j] == 2
            &&& forall|i: int| 0 <= i < o.len() ==> 0 <= #[trigger] o[i] < n && s[o[i]] == 2
            &&& forall|i: int, m: int| 0 <= i < m < o.len() ==> #[trigger] o[i] != #[trigger] o[m]
            &&& forall|j: int| 0 <= j < n && #[trigger] s[j] == 2 ==> exists|i: int| 0 <= i < o.len() && o[i] == j
        }),
    decreases k,
{
    if k > 0 {
        lemma_visit_all(deps, n, (k - 1) as nat);
        let (s1, o1) = spec_visit_all(deps, n, (k - 1) as nat);
        let (s2, o2) = spec_visit(deps, k - 1, s1, o1, n);
        lemma_visit_effect(deps, k - 1, s1, o1, n);
        assert forall|i: int| 0 <= i < o2.len() implies 0 <= #[trigger] o2[i] < n && s2[o2[i]] == 2 by {
            if i < o1.len() {
                assert(o2.subrange(0, o1.len() as int)[i] == o1[i]);
                assert(s2[o1[i]] == s1[o1[i]] || (s1[o1[i]] == 0 && s2[o1[i]] == 2));
            }
        }
        assert forall|i: int, m: int| 0 <= i < m < o2.len() implies #[trigger] o2[i] != #[trigger] o2[m] by {
            if m < o1.len() {
                assert(o2.subrange(0, o1.len() as int)[i] == o1[i]);
                assert(o2.subrange(0, o1.len() as int)[m] == o1[m]);
            } else if i < o1.len() {
                assert(o2.subrange(0, o1.len() as int)[i] == o1[i]);
                assert(s1[o1[i]] == 2);
            }
        }
        assert forall|j: int| 0 <= j < n && #[trigger] s2[j] == 2 implies exists|i: int| 0 <= i < o2.len() && o2[i] == j by {
            assert(s2[j] == s1[j] || (s1[j] == 0 && s2[j] == 2));
            if s1[j] == 2 {
                let i = choose|i: int| 0 <= i < o1.len() && o1[i] == j;
                assert(o2.subrange(0, o1.len() as int)[i] == o1[i]);
                assert(o2[i] == j);
            } else {
                let i = choose|i: int| o1.len() <= i < o2.len() && o2[i] == j;
                assert(0 <= i < o2.len() && o2[i] == j);
            }
        }
        assert forall|j: int| 0 <= j < k implies #[trigger] s2[j] == 2 by {
            assert(s2[j] == s1[j] || (s1[j] == 0 && s2[j] == 2));
            if j == k - 1 && s1[j] == 0 {
                let ds = if j < deps.len() { deps[j] } else { Seq::empty() };
                let (s3, o3) = spec_visit_deps(deps, ds, s1.update(j, 1), o1, (n - 1) as nat);
                lemma_visit_deps_effect(deps, ds, s1.update(j, 1), o1, (n - 1) as nat);
                assert(s3.len() == n);
                assert(s2 == s3.update(j, 2));
                assert(s2[j] == 2);
            }
        }
        assert forall|j: int| 0 <= j < n implies #[trigger] s2[j] == 0 || s2[j] == 2 by {
            assert(s2[j] == s1[j] || (s1[j] == 0 && s2[j] == 2));
        }
    }
}

/// The order of module initializers holds every module exactly once: each index
/// below `n` occurs, no index occurs twice, and none is out of range.
pub proof fn lemma_init_order_is_permutation(deps: Seq<Seq<int>>, n: nat)
    ensures
        forall|i: int| 0 <= i < init_order(deps, n).len() ==> 0 <= #[trigger] init_order(deps, n)[i] < n,
        forall|i: int, m: int| 0 <= i < m < init_order(deps, n).len() ==> #[trigger] init_order(deps, n)[i] != #[trigger] init_order(deps, n)[m],
        forall|j: int| 0 <= j < n ==> #[trigger] init_order(deps, n).contains(j),
{
    lemma_visit_all(deps, n, n);
    let (s, o) = spec_visit_all(deps, n, n);
    assert forall|j: int| 0 <= j < n implies #[trigger] o.contains(j) by {
        assert(s[j] == 2);
        let i = choose|i: int| 0 <= i < o.len() && o[i] == j;
        assert(o[i] == j);
    }
}

/// The initializer order lists each of the `n` modules exactly once, so it is `n` long.
pub proof fn lemma_init_order_len(deps: Seq<Seq<int>>, n: nat)
    ensures
        init_order(deps, n).len() == n,
{
    lemma_init_order_is_permutation(deps, n);
    let o = init_order(deps, n);
    assert(o.no_duplicates());
    o.unique_seq_to_set();
    vstd::set_lib::lemma_int_range(0, n as int);
    assert(o.to_set() =~= vstd::set_lib::set_int_range(0, n as int)) by {
        assert forall|j: int| o.to_set().contains(j) implies 0 <= j < n by {
            let i = choose|i: int| 0 <= i < o.len() && o[i] == j;
            assert(o[i] == j);
        }
        assert forall|j: int| 0 <= j < n implies o.to_set().contains(j) by {
            assert(o.contains(j));
        }
    }
}

/// Every import names a module below `n`, and there is a list of imports for each module.
pub open spec fn deps_in_range(deps: Seq<Seq<int>>, n: nat) -> bool {
    &&& deps.len() == n
    &&& forall|m: int, k: int| 0 <= m < n && 0 <= k < deps[m].len() ==> 0 <= #[trigger] deps[m][k] < n
}

/// `rank` numbers the modules so that each outranks every module it imports: there
/// is no cycle of imports.
pub open spec fn ranked(deps: Seq<Seq<int>>, n: nat, rank: Seq<int>) -> bool {
    &&& rank.len() == n
    &&& forall|m: int, k: int| 0 <= m < n && 0 <= k < deps[m].len() ==> rank[#[trigger] deps[m][k]] < rank[m]
}

/// Each module in the order comes after every module it imports.
pub open spec fn imports_first(deps: Seq<Seq<int>>, o: Seq<int>) -> bool {
    forall|p: int, k: int| #![trigger deps[o[p]][k]] 0 <= p < o.len() && 0 <= k < deps[o[p]].len()
        ==> imported_before(o, p, deps[o[p]][k])
}

/// Module `d` comes before position `p` of the order.
pub open spec fn imported_before(o: Seq<int>, p: int, d: int) -> bool {
    exists|q: int| 0 <= q < p && o[q] == d
}

/// The facts a walk keeps: the order lists visited modules only, imports first,
/// and every visited module is listed.
pub open spec fn walk_ok(deps: Seq<Seq<int>>, n: nat, s: Seq<u8>, o: Seq<int>) -> bool {
    &&& s.len() == n
    &&& forall|j: int| 0 <= j < n ==> #[trigger] s[j] <= 2
    &&& forall|i: int| 0 <= i < o.len() ==> 0 <= #[trigger] o[i] < n && s[o[i]] == 2
    &&& forall|j: int| 0 <= j < n && #[trigger] s[j] == 2 ==> o.contains(j)
    &&& imports_first(deps, o)
}

proof fn lemma_unvisited_mono(s: Seq<u8>, s2: Seq<u8>)
    requires
        s.len() == s2.len(),
        forall|j: int| 0 <= j < s.len() && s[j] != 0 ==> #[trigger] s2[j] != 0,
    ensures
        unvisited(s2) <= unvisited(s),
    decreases s.len(),
{
    if s.len() > 0 {
        let a = s.drop_last();
        let b = s2.drop_last();
        assert forall|j: int| 0 <= j < a.len() && a[j] != 0 implies #[trigger] b[j] != 0 by {
            assert(a[j] == s[j] && b[j] == s2[j]);
        }
        lemma_unvisited_mono(a, b);
        assert(s.last() == s[s.len() - 1]);
    }
}

proof fn lemma_visit_topo(deps: Seq<Seq<int>>, n: nat, rank: Seq<int>, index: int, state: Seq<u8>, out: Seq<int>, fuel: nat)
    requires
        deps_in_range(deps, n),
        ranked(deps, n, rank),
        walk_ok(deps, n, state, out),
        unvisited(state) <= fuel,
        0 <= index < n ==> forall|j: int| 0 <= j < n && #[trigger] state[j] == 1 ==> rank[j] > rank[index],
    ensures
        walk_ok(deps, n, spec_visit(deps, index, state, out, fuel).0, spec_visit(deps, index, state, out, fuel).1),
        0 <= index < n ==> spec_visit(deps, index, state, out, fuel).0[index] == 2 || state[index] == 2,
    decreases fuel, 0int,
{
    lemma_visit_effect(deps, index, state, out, fuel);
    if 0 <= index < n && state[index] == 1 {
        assert(rank[index] > rank[index]);
    }
    if !(0 <= index < state.len()) || state[index] != 0 || fuel == 0 {
        if 0 <= index < n && state[index] == 0 {
            lemma_unvisited_update(state, index, 1u8);
        }
        assert(spec_visit(deps, index, state, out, fuel) == (state, out));
    } else {
        let ds = deps[index];
        assert(ds == (if index < deps.len() { deps[index] } else { Seq::<int>::empty() }));
        let s0 = state.update(index, 1);
        lemma_unvisited_update(state, index, 1u8);
        assert(walk_ok(deps, n, s0, out)) by {
            assert forall|j: int| 0 <= j < n implies #[trigger] s0[j] <= 2 by {
                if j != index {
                    assert(s0[j] == state[j]);
                }
            }
            assert forall|i: int| 0 <= i < out.len() implies 0 <= #[trigger] out[i] < n && s0[out[i]] == 2 by {
                assert(state[out[i]] == 2);
            }
            assert forall|j: int| 0 <= j < n && #[trigger] s0[j] == 2 implies out.contains(j) by {
                assert(state[j] == 2);
            }
        }
        assert forall|j: int| 0 <= j < n && #[trigger] s0[j] == 1 implies rank[j] >= rank[index] by {
            if j != index {
                assert(state[j] == 1);
            }
        }
        lemma_visit_deps_topo(deps, n, rank, index, ds, s0, out, (fuel - 1) as nat);
        lemma_visit_deps_effect(deps, ds, s0, out, (fuel - 1) as nat);
        let (s1, o1) = spec_visit_deps(deps, ds, s0, out, (fuel - 1) as nat);
        let s2 = s1.update(index, 2);
        let o2 = o1.push(index);
        assert(spec_visit(deps, index, state, out, fuel) == (s2, o2));
        assert forall|j: int| 0 <= j < n implies #[trigger] s2[j] <= 2 by {
            if j != index {
                assert(s2[j] == s1[j]);
            }
        }
        assert(s1[index] == 1) by {
            assert(s1[index] == s0[index] || (s0[index] == 0 && s1[index] == 2));
        }
        assert forall|i: int| 0 <= i < o2.len() implies 0 <= #[trigger] o2[i] < n && s2[o2[i]] == 2 by {
            if i < o1.len() {
                assert(o2[i] == o1[i]);
                assert(s1[o1[i]] == 2);
            }
        }
        assert forall|j: int| 0 <= j < n && #[trigger] s2[j] == 2 implies o2.contains(j) by {
            if j == index {
                assert(o2[o1.len() as int] == j);
            } else {
                assert(o1.contains(j));
                let i = choose|i: int| 0 <= i < o1.len() && o1[i] == j;
                assert(o2[i] == j);
            }
        }
        assert forall|p: int, k: int| 0 <= p < o2.len() && 0 <= k < deps[o2[p]].len()
            implies #[trigger] imported_before(o2, p, deps[o2[p]][k]) by {
            if p < o1.len() {
                assert(o2[p] == o1[p]);
                assert(imported_before(o1, p, deps[o1[p]][k]));
                let q = choose|q: int| 0 <= q < p && o1[q] == deps[o1[p]][k];
                assert(o2[q] == o1[q]);
            } else {
                assert(o2[p] == index);
                let d = ds[k];
                assert(s1[d] == 2);
                assert(o1.contains(d));
                let q = choose|q: int| 0 <= q < o1.len() && o1[q] == d;
                assert(o2[q] == o1[q]);
            }
        }
        assert(walk_ok(deps, n, s2, o2));
    }
}

proof fn lemma_visit_deps_topo(deps: Seq<Seq<int>>, n: nat, rank: Seq<int>, parent: int, ds: Seq<int>, state: Seq<u8>, out: Seq<int>, fuel: nat)
    requires
        deps_in_range(deps, n),
        ranked(deps, n, rank),
        walk_ok(deps, n, state, out),
        unvisited(state) <= fuel,
        0 <= parent < n,
        forall|k: int| 0 <= k < ds.len() ==> 0 <= #[trigger] ds[k] < n && rank[ds[k]] < rank[parent],
        forall|j: int| 0 <= j < n && #[trigger] state[j] == 1 ==> rank[j] >= rank[parent],
    ensures
        walk_ok(deps, n, spec_visit_deps(deps, ds, state, out, fuel).0, spec_visit_deps(deps, ds, state, out, fuel).1),
        forall|k: int| 0 <= k < ds.len() ==> spec_visit_deps(deps, ds, state, out, fuel).0[#[trigger] ds[k]] == 2,
    decreases fuel, ds.len() + 1,
{
    if ds.len() > 0 {
        let pre = ds.drop_last();
        lemma_visit_deps_topo(deps, n, rank, parent, pre, state, out, fuel);
        lemma_visit_deps_effect(deps, pre, state, out, fuel);
        let (s1, o1) = spec_visit_deps(deps, pre, state, out, fuel);
        let d = ds.last();
        assert(0 <= d < n && rank[d] < rank[parent]) by {
            assert(ds[ds.len() - 1] == d);
        }
        lemma_unvisited_mono(state, s1);
        assert forall|j: int| 0 <= j < n && #[trigger] s1[j] == 1 implies rank[j] > rank[d] by {
            assert(s1[j] == state[j] || (state[j] == 0 && s1[j] == 2));
        }
        lemma_visit_topo(deps, n, rank, d, s1, o1, fuel);
        lemma_visit_effect(deps, d, s1, o1, fuel);
        let (s2, o2) = spec_visit(deps, d, s1, o1, fuel);
        assert(s1[d] != 1);
        assert forall|k: int| 0 <= k < ds.len() implies s2[#[trigger] ds[k]] == 2 by {
            if k < ds.len() - 1 {
                assert(pre[k] == ds[k]);
                assert(s1[ds[k]] == 2);
                assert(s2[ds[k]] == s1[ds[k]] || (s1[ds[k]] == 0 && s2[ds[k]] == 2));
            }
        }
    } else {
        assert(walk_ok(deps, n, state, out));
    }
}

proof fn lemma_visit_all_topo(deps: Seq<Seq<int>>, n: nat, rank: Seq<int>, k: nat)
    requires
        deps_in_range(deps, n),
        ranked(deps, n, rank),
        k <= n,
    ensures
        walk_ok(deps, n, spec_visit_all(deps, n, k).0, spec_visit_all(deps, n, k).1),
    decreases k,
{
    if k == 0 {
        let (s, o) = spec_visit_all(deps, n, 0);
        assert(walk_ok(deps, n, s, o));
    } else {
        lemma_visit_all_topo(deps, n, rank, (k - 1) as nat);
        lemma_visit_all(deps, n, (k - 1) as nat);
        let (s1, o1) = spec_visit_all(deps, n, (k - 1) as nat);
        lemma_unvisited_bound(s1);
        lemma_visit_topo(deps, n, rank, k - 1, s1, o1, n);
    }
}

/// Module `d` comes before module `m` in the order.
pub open spec fn comes_before(o: Seq<int>, d: int, m: int) -> bool {
    exists|i: int, j: int| 0 <= i < j < o.len() && o[i] == d && o[j] == m
}

/// Where the imports have no cycle (some ranking puts every module above the
/// modules it imports), each module's initializer comes after the initializers
/// of all the modules it imports.
pub proof fn lemma_init_order_imports_first(deps: Seq<Seq<int>>, n: nat, rank: Seq<int>)
    requires
        deps_in_range(deps, n),
        ranked(deps, n, rank),
    ensures
        forall|m: int, k: int| 0 <= m < n && 0 <= k < deps[m].len() ==> comes_before(init_order(deps, n), #[trigger] deps[m][k], m),
{
    lemma_visit_all_topo(deps, n, rank, n);
    lemma_init_order_is_permutation(deps, n);
    let o = init_order(deps, n);
    assert(imports_first(deps, o));
    assert forall|m: int, k: int| 0 <= m < n && 0 <= k < deps[m].len() implies comes_before(o, #[trigger] deps[m][k], m) by {
        assert(o.contains(m));
        let j = choose|j: int| 0 <= j < o.len() && o[j] == m;
        assert(0 <= k < deps[o[j]].len());
        assert(imported_before(o, j, deps[o[j]][k]));
        let i = choose|i: int| 0 <= i < j && o[i] == deps[o[j]][k];
        assert(0 <= i < j < o.len() && o[i] == deps[m][k] && o[j] == m);
    }
}

} // verus!
