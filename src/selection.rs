use vstd::prelude::*;

verus! {

/// A selection is held as its indices in strictly increasing order.
pub open spec fn strictly_increasing(s: Seq<usize>) -> bool {
    forall|i: int, j: int| 0 <= i < j < s.len() ==> s[i] < s[j]
}

/// The indices `lo..=hi`, in order.
pub open spec fn index_range(lo: usize, hi: usize) -> Seq<usize> {
    Seq::new((hi - lo + 1) as nat, |i: int| (lo + i) as usize)
}

/// The closed interval between an anchor and a cursor, in either order.
pub open spec fn range_between(a: usize, b: usize) -> Seq<usize> {
    if a <= b {
        index_range(a, b)
    } else {
        index_range(b, a)
    }
}

/// A range selection does not depend on which end is the anchor.
pub proof fn lemma_range_symmetric(a: usize, b: usize)
    ensures
        range_between(a, b) == range_between(b, a),
        range_between(a, b).to_set() == Set::new(
            |i: usize| (if a <= b { a } else { b }) <= i <= (if a <= b { b } else { a }),
        ),
{
    let lo = if a <= b { a } else { b };
    let hi = if a <= b { b } else { a };
    let r = range_between(a, b);
    assert(r == index_range(lo, hi));
    assert forall|i: usize| r.to_set().contains(i) <==> lo <= i <= hi by {
        if lo <= i <= hi {
            assert(r[i - lo] == i);
        }
    }
    assert(r.to_set() =~= Set::new(|i: usize| lo <= i <= hi));
}

/// Builds `lo..=hi`.
pub fn make_range(lo: usize, hi: usize) -> (r: Vec<usize>)
    requires
        lo <= hi,
    ensures
        r@ == index_range(lo, hi),
        strictly_increasing(r@),
{
    let mut r: Vec<usize> = Vec::new();
    let mut i: usize = lo;
    loop
        invariant
            lo <= i <= hi,
            r@ == Seq::new((i - lo) as nat, |k: int| (lo + k) as usize),
        decreases hi - i,
    {
        r.push(i);
        proof {
            assert(r@ =~= Seq::new((i + 1 - lo) as nat, |k: int| (lo + k) as usize));
        }
        if i == hi {
            proof {
                assert(r@ =~= index_range(lo, hi));
            }
            return r;
        }
        i = i + 1;
    }
}

/// Builds the range between `a` and `b`.
pub fn range_of(a: usize, b: usize) -> (r: Vec<usize>)
    ensures
        r@ == range_between(a, b),
        strictly_increasing(r@),
{
    if a <= b {
        make_range(a, b)
    } else {
        make_range(b, a)
    }
}

/// Whether `x` is in `v`.
pub fn has_index(v: &Vec<usize>, x: usize) -> (r: bool)
    ensures
        r == v@.contains(x),
{
    let mut i: usize = 0;
    while i < v.len()
        invariant
            i <= v.len(),
            forall|j: int| 0 <= j < i ==> v@[j] != x,
        decreases v.len() - i,
    {
        if v[i] == x {
            return true;
        }
        i = i + 1;
    }
    false
}

/// Which indices a filter keeps, relative to a pivot.
#[derive(PartialEq, Eq, Structural, Clone, Copy)]
pub enum Keep {
    Below,
    Above,
    Other,
}

pub open spec fn keep_pred(mode: Keep, n: usize) -> spec_fn(usize) -> bool {
    |i: usize|
        match mode {
            Keep::Below => i < n,
            Keep::Above => i > n,
            Keep::Other => i != n,
        }
}

/// The indices of `v` below `n`, in order.
pub open spec fn below(v: Seq<usize>, n: usize) -> Seq<usize> {
    v.filter(keep_pred(Keep::Below, n))
}

/// Keeps the indices of `v` that `mode` keeps relative to `n`.
pub fn keep(v: &Vec<usize>, n: usize, mode: Keep) -> (r: Vec<usize>)
    requires
        strictly_increasing(v@),
    ensures
        r@ == v@.filter(keep_pred(mode, n)),
        strictly_increasing(r@),
{
    let mut r: Vec<usize> = Vec::new();
    let mut i: usize = 0;
    while i < v.len()
        invariant
            i <= v.len(),
            strictly_increasing(v@),
            r@ == v@.subrange(0, i as int).filter(keep_pred(mode, n)),
            forall|k: int| 0 <= k < r.len() ==> exists|j: int| 0 <= j < i && #[trigger] r@[k] == v@[j],
            strictly_increasing(r@),
        decreases v.len() - i,
    {
        let ghost before = r@;
        let y = v[i];
        let take = match mode {
            Keep::Below => y < n,
            Keep::Above => y > n,
            Keep::Other => y != n,
        };
        if take {
            r.push(y);
        }
        i = i + 1;
        proof {
            let s = v@.subrange(0, i as int);
            assert(s.drop_last() =~= v@.subrange(0, i - 1));
            reveal(Seq::filter);
            assert(r@ == s.filter(keep_pred(mode, n)));
            assert forall|k: int| 0 <= k < r.len() implies exists|j: int|
                0 <= j < i && #[trigger] r@[k] == v@[j] by {
                if k < before.len() {
                    let j = choose|j: int| 0 <= j < i - 1 && before[k] == v@[j];
                    assert(r@[k] == v@[j]);
                } else {
                    assert(r@[k] == v@[i - 1]);
                }
            }
            assert forall|a: int, b: int| 0 <= a < b < r.len() implies r@[a] < r@[b] by {
                if b == before.len() && r.len() > before.len() {
                    let j = choose|j: int| 0 <= j < i - 1 && before[a] == v@[j];
                    assert(v@[j] < v@[i - 1]);
                }
            }
        }
    }
    proof {
        assert(v@.subrange(0, i as int) =~= v@);
    }
    r
}

/// Keeps the indices of `v` that are below `n`.
pub fn keep_below(v: &Vec<usize>, n: usize) -> (r: Vec<usize>)
    requires
        strictly_increasing(v@),
    ensures
        r@ == below(v@, n),
        strictly_increasing(r@),
{
    keep(v, n, Keep::Below)
}

/// The toggled selection: `x` taken out when present, else put in its place.
pub open spec fn toggled_spec(v: Seq<usize>, x: usize) -> Seq<usize> {
    if v.contains(x) {
        v.filter(keep_pred(Keep::Other, x))
    } else {
        v.filter(keep_pred(Keep::Below, x)).push(x) + v.filter(keep_pred(Keep::Above, x))
    }
}

proof fn lemma_filter_mem(v: Seq<usize>, mode: Keep, n: usize, z: usize)
    ensures
        v.filter(keep_pred(mode, n)).contains(z) <==> v.contains(z) && keep_pred(mode, n)(z),
{
    let f = v.filter(keep_pred(mode, n));
    if f.contains(z) {
        v.lemma_filter_contains_rev(keep_pred(mode, n), z);
        let k = choose|k: int| 0 <= k < f.len() && f[k] == z;
        v.lemma_filter_pred(keep_pred(mode, n), k);
    }
    if v.contains(z) && keep_pred(mode, n)(z) {
        let k = choose|k: int| 0 <= k < v.len() && v[k] == z;
        v.lemma_filter_contains(keep_pred(mode, n), k);
    }
}

/// `v` with `x` added when it is absent and taken out when present; the
/// order is kept.
pub fn toggled(v: &Vec<usize>, x: usize) -> (r: Vec<usize>)
    requires
        strictly_increasing(v@),
    ensures
        strictly_increasing(r@),
        r@ == toggled_spec(v@, x),
        forall|z: usize| #[trigger] r@.contains(z) <==> if v@.contains(x) {
            v@.contains(z) && z != x
        } else {
            v@.contains(z) || z == x
        },
{
    if has_index(v, x) {
        let r = keep(v, x, Keep::Other);
        proof {
            assert forall|z: usize| #[trigger] r@.contains(z) <==> v@.contains(z) && z != x by {
                lemma_filter_mem(v@, Keep::Other, x, z);
            }
        }
        r
    } else {
        let mut r = keep(v, x, Keep::Below);
        let hi = keep(v, x, Keep::Above);
        let ghost lo = r@;
        r.push(x);
        let ghost mid = r@;
        let mut i: usize = 0;
        while i < hi.len()
            invariant
                i <= hi.len(),
                r@ == mid + hi@.subrange(0, i as int),
                mid == lo.push(x),
                lo == v@.filter(keep_pred(Keep::Below, x)),
                hi@ == v@.filter(keep_pred(Keep::Above, x)),
            decreases hi.len() - i,
        {
            r.push(hi[i]);
            i = i + 1;
            proof {
                assert(r@ =~= mid + hi@.subrange(0, i as int));
            }
        }
        proof {
            assert(hi@.subrange(0, i as int) =~= hi@);
            assert forall|k: int| 0 <= k < lo.len() implies lo[k] < x by {
                v@.lemma_filter_pred(keep_pred(Keep::Below, x), k);
            }
            assert forall|k: int| 0 <= k < hi.len() implies hi@[k] > x by {
                v@.lemma_filter_pred(keep_pred(Keep::Above, x), k);
            }
            assert forall|a: int, b: int| 0 <= a < b < r.len() implies r@[a] < r@[b] by {
                if b < lo.len() {
                } else if b == lo.len() {
                } else if a < lo.len() {
                    assert(r@[a] < x);
                    assert(r@[b] == hi@[b - lo.len() - 1]);
                } else if a == lo.len() {
                    assert(r@[b] == hi@[b - lo.len() - 1]);
                } else {
                    assert(r@[a] == hi@[a - lo.len() - 1]);
                    assert(r@[b] == hi@[b - lo.len() - 1]);
                }
            }
            assert forall|z: usize| #[trigger] r@.contains(z) <==> v@.contains(z) || z == x by {
                lemma_filter_mem(v@, Keep::Below, x, z);
                lemma_filter_mem(v@, Keep::Above, x, z);
                if r@.contains(z) {
                    let k = choose|k: int| 0 <= k < r.len() && r@[k] == z;
                    if k < lo.len() {
                        assert(lo.contains(z));
                    } else if k > lo.len() {
                        assert(hi@[k - lo.len() - 1] == z);
                        assert(hi@.contains(z));
                    }
                }
                if v@.contains(z) && z != x {
                    if z < x {
                        let k = choose|k: int| 0 <= k < lo.len() && lo[k] == z;
                        assert(r@[k] == z);
                    } else {
                        let k = choose|k: int| 0 <= k < hi.len() && hi@[k] == z;
                        assert(r@[k + lo.len() + 1] == z);
                    }
                }
                if z == x {
                    assert(r@[lo.len() as int] == x);
                }
            }
        }
        r
    }
}

/// A copy of a list of indices.
pub fn copy_indices(v: &Vec<usize>) -> (r: Vec<usize>)
    ensures
        r@ == v@,
{
    let mut r: Vec<usize> = Vec::new();
    let mut i: usize = 0;
    while i < v.len()
        invariant
            i <= v.len(),
            r@ == v@.subrange(0, i as int),
        decreases v.len() - i,
    {
        r.push(v[i]);
        i = i + 1;
        proof {
            assert(r@ =~= v@.subrange(0, i as int));
        }
    }
    proof {
        assert(v@.subrange(0, i as int) =~= v@);
    }
    r
}

} // verus!
