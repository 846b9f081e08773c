//! Operations on lists of file ids.
use vstd::prelude::*;

verus! {

broadcast use vstd::seq_lib::group_filter_ensures;

/// `s` with every occurrence of `x` taken out, the rest in order.
pub open spec fn without(s: Seq<usize>, x: usize) -> Seq<usize> {
    s.filter(|y: usize| y != x)
}

/// `s` with `x` appended unless it already holds `x`.
pub open spec fn push_unique(s: Seq<usize>, x: usize) -> Seq<usize> {
    if s.contains(x) {
        s
    } else {
        s.push(x)
    }
}

/// Whether no element of `s` occurs twice.
pub open spec fn no_duplicates(s: Seq<usize>) -> bool {
    forall|i: int, j: int| 0 <= i < s.len() && 0 <= j < s.len() && i != j ==> s[i] != s[j]
}

pub proof fn lemma_without_contains(s: Seq<usize>, x: usize, y: usize)
    ensures
        without(s, x).contains(y) <==> (s.contains(y) && y != x),
    decreases s.len(),
{
    reveal_with_fuel(Seq::<_>::filter, 1);
    if s.len() > 0 {
        let t = s.drop_last();
        lemma_without_contains(t, x, y);
        assert(s =~= t.push(s.last()));
        lemma_contains_push(t, s.last(), y);
        if s.last() != x {
            lemma_contains_push(without(t, x), s.last(), y);
        }
    }
}

pub proof fn lemma_contains_push_any<A>(s: Seq<A>, a: A)
    ensures
        forall|y: A| #[trigger] s.push(a).contains(y) <==> (s.contains(y) || a == y),
{
    assert forall|y: A| #[trigger] s.push(a).contains(y) <==> (s.contains(y) || a == y) by {
        if s.contains(y) {
            let k = choose|k: int| 0 <= k < s.len() && s[k] == y;
            assert(s.push(a)[k] == y);
        }
        if a == y {
            assert(s.push(a)[s.len() as int] == y);
        }
        if s.push(a).contains(y) {
            let k = choose|k: int| 0 <= k < s.push(a).len() && s.push(a)[k] == y;
            if k < s.len() {
                assert(s[k] == y);
            }
        }
    }
}

pub proof fn lemma_contains_push(s: Seq<usize>, a: usize, y: usize)
    ensures
        s.push(a).contains(y) <==> (s.contains(y) || a == y),
{
    if s.contains(y) {
        let k = choose|k: int| 0 <= k < s.len() && s[k] == y;
        assert(s.push(a)[k] == y);
    }
    if a == y {
        assert(s.push(a)[s.len() as int] == y);
    }
    if s.push(a).contains(y) {
        let k = choose|k: int| 0 <= k < s.push(a).len() && s.push(a)[k] == y;
        if k < s.len() {
            assert(s[k] == y);
        }
    }
}

pub proof fn lemma_without_step(s: Seq<usize>, x: usize, i: int)
    requires
        0 <= i < s.len(),
    ensures
        without(s.take(i + 1), x) == if s[i] != x {
            without(s.take(i), x).push(s[i])
        } else {
            without(s.take(i), x)
        },
{
    reveal_with_fuel(Seq::<_>::filter, 1);
    assert(s.take(i + 1).drop_last() =~= s.take(i));
}

pub proof fn lemma_without_absent(s: Seq<usize>, x: usize)
    requires
        !s.contains(x),
    ensures
        without(s, x) == s,
    decreases s.len(),
{
    reveal_with_fuel(Seq::<_>::filter, 1);
    if s.len() > 0 {
        assert(!s.drop_last().contains(x)) by {
            if s.drop_last().contains(x) {
                let k = choose|k: int| 0 <= k < s.drop_last().len() && s.drop_last()[k] == x;
                assert(s[k] == x);
            }
        }
        lemma_without_absent(s.drop_last(), x);
        assert(s.last() != x);
        assert(s.drop_last().push(s.last()) =~= s);
    }
}

/// Whether `v` holds `x`.
pub fn vec_contains(v: &Vec<usize>, x: usize) -> (r: bool)
    ensures
        r == v@.contains(x),
{
    let mut i: usize = 0;
    while i < v.len()
        invariant
            i <= v.len(),
            forall|j: int| 0 <= j < i ==> v@[j] != x,
        decreases v.len() - i,
    {
        if v[i] == x {
            assert(v@[i as int] == x);
            return true;
        }
        i = i + 1;
    }
    false
}

/// A copy of `v` without any occurrence of `x`.
pub fn remove_all(v: &Vec<usize>, x: usize) -> (r: Vec<usize>)
    ensures
        r@ == without(v@, x),
{
    let mut r: Vec<usize> = Vec::new();
    let mut i: usize = 0;
    while i < v.len()
        invariant
            i <= v.len(),
            r@ == without(v@.take(i as int), x),
        decreases v.len() - i,
    {
        proof {
            lemma_without_step(v@, x, i as int);
        }
        if v[i] != x {
            r.push(v[i]);
        }
        i = i + 1;
    }
    assert(v@.take(v.len() as int) =~= v@);
    r
}

/// Appends `x` to `v` unless `v` already holds it.
pub fn push_if_absent(v: &mut Vec<usize>, x: usize)
    ensures
        final(v)@ == push_unique(old(v)@, x),
{
    if !vec_contains(v, x) {
        v.push(x);
    }
}

/// A copy of a list of ids.
pub fn copy_ids(v: &Vec<usize>) -> (r: Vec<usize>)
    ensures
        r@ == v@,
{
    let mut r: Vec<usize> = Vec::new();
    let mut i: usize = 0;
    while i < v.len()
        invariant
            i <= v.len(),
            r@ == v@.take(i as int),
        decreases v.len() - i,
    {
        r.push(v[i]);
        i = i + 1;
        assert(r@ =~= v@.take(i as int));
    }
    assert(v@.take(v.len() as int) =~= v@);
    r
}

/// The indices below `n` that satisfy `p`, in increasing order.
pub open spec fn select(n: nat, p: spec_fn(usize) -> bool) -> Seq<usize>
    decreases n,
{
    if n == 0 {
        Seq::empty()
    } else {
        let r = select((n - 1) as nat, p);
        if p((n - 1) as usize) {
            r.push((n - 1) as usize)
        } else {
            r
        }
    }
}

/// Whether `s` is strictly increasing.
pub open spec fn increasing(s: Seq<usize>) -> bool {
    forall|a: int, b: int| 0 <= a < b < s.len() ==> s[a] < s[b]
}

pub proof fn lemma_select(n: nat, p: spec_fn(usize) -> bool)
    requires
        n <= usize::MAX + 1,
    ensures
        increasing(select(n, p)),
        forall|a: int| 0 <= a < select(n, p).len() ==> select(n, p)[a] < n && p(select(n, p)[a]),
        forall|x: usize| x < n ==> (#[trigger] select(n, p).contains(x) <==> p(x)),
    decreases n,
{
    if n > 0 {
        let m = (n - 1) as nat;
        lemma_select(m, p);
        let r = select(m, p);
        assert forall|x: usize| x < n implies (#[trigger] select(n, p).contains(x) <==> p(x)) by {
            if p(m as usize) {
                lemma_contains_push(r, m as usize, x);
            }
            if x == m && r.contains(x) {
                let k = choose|k: int| 0 <= k < r.len() && r[k] == x;
            }
        }
    }
}

/// Two increasing sequences with the same elements are equal.
pub proof fn lemma_increasing_unique(s: Seq<usize>, t: Seq<usize>)
    requires
        increasing(s),
        increasing(t),
        forall|x: usize| s.contains(x) <==> t.contains(x),
    ensures
        s == t,
    decreases s.len() + t.len(),
{
    if s.len() == 0 {
        if t.len() > 0 {
            assert(t.contains(t[0]));
        }
        assert(s =~= t);
    } else if t.len() == 0 {
        assert(s.contains(s[0]));
    } else {
        let x = s.last();
        let y = t.last();
        assert(s.contains(x));
        assert(t.contains(y));
        let ks = choose|k: int| 0 <= k < s.len() && s[k] == y;
        let kt = choose|k: int| 0 <= k < t.len() && t[k] == x;
        assert(x == y);
        let s1 = s.drop_last();
        let t1 = t.drop_last();
        assert forall|z: usize| s1.contains(z) <==> t1.contains(z) by {
            if s1.contains(z) {
                let a = choose|a: int| 0 <= a < s1.len() && s1[a] == z;
                assert(s[a] == z && z < x);
                assert(s.contains(z));
                assert(t.contains(z));
                let b = choose|b: int| 0 <= b < t.len() && t[b] == z;
                assert(b != t.len() - 1);
                assert(t1[b] == z);
            }
            if t1.contains(z) {
                let a = choose|a: int| 0 <= a < t1.len() && t1[a] == z;
                assert(t[a] == z && z < y);
                assert(t.contains(z));
                assert(s.contains(z));
                let b = choose|b: int| 0 <= b < s.len() && s[b] == z;
                assert(b != s.len() - 1);
                assert(s1[b] == z);
            }
        }
        lemma_increasing_unique(s1, t1);
        assert(s =~= s1.push(x));
        assert(t =~= t1.push(y));
    }
}

} // verus!
