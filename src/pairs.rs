use vstd::prelude::*;

verus! {

/// Why two indices cannot be handed out as two independent mutable views.
#[derive(Clone, Copy, Debug, PartialEq, Eq, Structural)]
pub enum PairError {
    /// Both indices name the same element.
    SameIndex,
    /// One of the indices is not below the sequence's length.
    OutOfRange,
}

/// The outcome that `pair_mut` owes for a sequence of length `len`.
pub open spec fn pair_check(len: nat, i: nat, j: nat) -> Result<(), PairError> {
    if i >= len || j >= len {
        Err(PairError::OutOfRange)
    } else if i == j {
        Err(PairError::SameIndex)
    } else {
        Ok(())
    }
}

/// Two independent mutable views of the distinct elements `i` and `j` of `v`.
///
/// The indices are checked first; on success the first view is element `i`,
/// the second element `j`, and whatever is written through them is all that
/// changes in `v`.
pub fn pair_mut<T>(v: &mut Vec<T>, i: usize, j: usize) -> (r: Result<(&mut T, &mut T), PairError>)
    ensures
        r is Err <==> pair_check(old(v)@.len(), i as nat, j as nat) is Err,
        r is Err ==> r->Err_0 == pair_check(old(v)@.len(), i as nat, j as nat)->Err_0
            && final(v)@ == old(v)@,
        r is Ok ==> ({
            let (a, b) = r->Ok_0;
            &&& *a == old(v)@[i as int]
            &&& *b == old(v)@[j as int]
            &&& final(v)@ == old(v)@.update(i as int, *final(a)).update(j as int, *final(b))
        }),
{
    let len = v.len();
    if i >= len || j >= len {
        return Err(PairError::OutOfRange);
    }
    if i == j {
        return Err(PairError::SameIndex);
    }
    let lo = if i < j { i } else { j };
    let hi = if i < j { j } else { i };
    let (left, right) = v.as_mut_slice().split_at_mut(hi);
    let (_, from_lo) = left.split_at_mut(lo);
    let lo_ref = from_lo.first_mut().unwrap();
    let hi_ref = right.first_mut().unwrap();
    if i < j {
        Ok((lo_ref, hi_ref))
    } else {
        Ok((hi_ref, lo_ref))
    }
}

/// The pairs `(i, j)` with `i < j < n` whose first index is `i`, by increasing `j`.
pub open spec fn pair_row(n: int, i: int) -> Seq<(usize, usize)> {
    Seq::new((n - i - 1) as nat, |k: int| (i as usize, (i + 1 + k) as usize))
}

/// The pairs of the first `r` rows, row after row.
pub open spec fn pairs_before(n: int, r: int) -> Seq<(usize, usize)>
    decreases r,
{
    if r <= 0 {
        Seq::empty()
    } else {
        pairs_before(n, r - 1) + pair_row(n, r - 1)
    }
}

/// Every unordered pair of distinct indices below `n`, as `(i, j)` with `i < j`,
/// in lexicographic order.
pub open spec fn all_pairs(n: int) -> Seq<(usize, usize)> {
    pairs_before(n, n)
}

pub open spec fn lex_lt(p: (usize, usize), q: (usize, usize)) -> bool {
    p.0 < q.0 || (p.0 == q.0 && p.1 < q.1)
}

proof fn lemma_pairs_before(n: int, r: int)
    requires
        0 <= r <= n <= usize::MAX,
    ensures
        forall|k: int| 0 <= k < pairs_before(n, r).len() ==> {
            let p = #[trigger] pairs_before(n, r)[k];
            p.0 < p.1 < n && p.0 < r
        },
        forall|k: int, l: int| 0 <= k < l < pairs_before(n, r).len()
            ==> lex_lt(#[trigger] pairs_before(n, r)[k], #[trigger] pairs_before(n, r)[l]),
        forall|a: usize, b: usize| a < r && a < b < n ==> #[trigger] pairs_before(n, r).contains((a, b)),
    decreases r,
{
    if r > 0 {
        lemma_pairs_before(n, r - 1);
        let s1 = pairs_before(n, r - 1);
        let s2 = pair_row(n, r - 1);
        let s = s1 + s2;
        assert forall|k: int| 0 <= k < s.len() implies {
            let p = #[trigger] s[k];
            p.0 < p.1 < n && p.0 < r
        } by {
            if k >= s1.len() {
                assert(s[k] == s2[k - s1.len()]);
            } else {
                assert(s[k] == s1[k]);
            }
        }
        assert forall|k: int, l: int| 0 <= k < l < s.len() implies lex_lt(#[trigger] s[k], #[trigger] s[l]) by {
            if l < s1.len() {
                assert(s[k] == s1[k] && s[l] == s1[l]);
            } else if k < s1.len() {
                assert(s[k] == s1[k] && s[l] == s2[l - s1.len()]);
            } else {
                assert(s[k] == s2[k - s1.len()] && s[l] == s2[l - s1.len()]);
            }
        }
        assert forall|a: usize, b: usize| a < r && a < b < n implies #[trigger] s.contains((a, b)) by {
            if a < r - 1 {
                assert(s1.contains((a, b)));
                let k = choose|k: int| 0 <= k < s1.len() && s1[k] == (a, b);
                assert(s[k] == s1[k]);
            } else {
                let k = b - a - 1;
                assert(s2[k] == (a, b));
                assert(s[s1.len() + k] == s2[k]);
            }
        }
    }
}

/// The order in which pairwise collisions of `n` points are resolved: every pair
/// `(i, j)` with `i < j < n` exactly once, in lexicographic order.
pub fn collision_pairs(n: usize) -> (r: Vec<(usize, usize)>)
    ensures
        r@ == all_pairs(n as int),
        forall|k: int| 0 <= k < r@.len() ==> (#[trigger] r@[k]).0 < r@[k].1 < n,
        forall|k: int, l: int| 0 <= k < l < r@.len() ==> lex_lt(#[trigger] r@[k], #[trigger] r@[l]),
        forall|a: usize, b: usize| a < b < n ==> #[trigger] r@.contains((a, b)),
{
    let mut out: Vec<(usize, usize)> = Vec::new();
    let mut i: usize = 0;
    while i < n
        invariant
            i <= n,
            out@ == pairs_before(n as int, i as int),
        decreases n - i,
    {
        let mut j: usize = i + 1;
        while j < n
            invariant
                i < n,
                i + 1 <= j <= n,
                out@ == pairs_before(n as int, i as int) + pair_row(n as int, i as int).take(j - i - 1),
            decreases n - j,
        {
            out.push((i, j));
            assert(pair_row(n as int, i as int).take(j - i) =~= pair_row(n as int, i as int).take(j - i - 1).push((i, j)));
            assert(out@ =~= pairs_before(n as int, i as int) + pair_row(n as int, i as int).take(j - i));
            j = j + 1;
        }
        assert(pair_row(n as int, i as int).take(n - i - 1) =~= pair_row(n as int, i as int));
        i = i + 1;
    }
    proof {
        lemma_pairs_before(n as int, n as int);
    }
    out
}

} // verus!
