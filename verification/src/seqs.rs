use vstd::prelude::*;

verus! {

/// Index of the first element that satisfies `pred`, or the length when none does.
pub open spec fn first_index<T>(s: Seq<T>, pred: spec_fn(T) -> bool) -> int
    decreases s.len(),
{
    if s.len() == 0 {
        0
    } else if pred(s[0]) {
        0
    } else {
        1 + first_index(s.drop_first(), pred)
    }
}

pub proof fn lemma_first_index<T>(s: Seq<T>, pred: spec_fn(T) -> bool)
    ensures
        0 <= first_index(s, pred) <= s.len(),
        first_index(s, pred) < s.len() ==> pred(s[first_index(s, pred)]),
        forall|j: int| 0 <= j < first_index(s, pred) ==> !pred(#[trigger] s[j]),
    decreases s.len(),
{
    if s.len() > 0 && !pred(s[0]) {
        lemma_first_index(s.drop_first(), pred);
        assert forall|j: int| 0 <= j < first_index(s, pred) implies !pred(#[trigger] s[j]) by {
            if j > 0 {
                assert(s.drop_first()[j - 1] == s[j]);
            }
        }
    }
}

/// `first_index` is pinned down by where the first match is.
pub proof fn lemma_first_index_at<T>(s: Seq<T>, pred: spec_fn(T) -> bool, i: int)
    requires
        0 <= i <= s.len(),
        i < s.len() ==> pred(s[i]),
        forall|j: int| 0 <= j < i ==> !pred(#[trigger] s[j]),
    ensures
        first_index(s, pred) == i,
{
    lemma_first_index(s, pred);
    if first_index(s, pred) < i {
        assert(!pred(s[first_index(s, pred)]));
    }
    if first_index(s, pred) > i {
        assert(!pred(s[i]));
    }
}

/// Filtering one element more.
pub proof fn lemma_filter_push<T>(s: Seq<T>, x: T, pred: spec_fn(T) -> bool)
    ensures
        s.push(x).filter(pred) == (if pred(x) {
            s.filter(pred).push(x)
        } else {
            s.filter(pred)
        }),
{
    assert(s.push(x).drop_last() =~= s);
    reveal_with_fuel(Seq::filter, 1);
}

/// Position `current + delta`, wrapped around a list of `n` entries.
pub fn wrap_index(current: usize, delta: isize, n: usize) -> (r: usize)
    requires
        n > 0,
        current <= isize::MAX,
        isize::MIN <= current + delta <= isize::MAX,
    ensures
        r == (current + delta) % (n as int),
        r < n,
{
    wrap_sum(current as i128 + delta as i128, n)
}

/// Position `sum`, wrapped around a list of `n` entries (Euclid's
/// remainder, never negative).
pub fn wrap_sum(sum: i128, n: usize) -> (r: usize)
    requires
        n > 0,
        isize::MIN <= sum <= isize::MAX,
    ensures
        r == (sum as int) % (n as int),
        r < n,
{
    let m: i128 = n as i128;
    let r: i128 = if sum >= 0 {
        sum % m
    } else {
        let rest = (-sum) % m;
        if rest == 0 {
            0
        } else {
            m - rest
        }
    };
    proof {
        if sum < 0 {
            let p: int = -sum;
            let ni: int = m as int;
            let rem: int = p % ni;
            let q: int = p / ni;
            vstd::arithmetic::div_mod::lemma_fundamental_div_mod(p, ni);
            if rem == 0 {
                vstd::arithmetic::div_mod::lemma_mod_multiples_basic(-q, ni);
                assert(sum == (-q) * ni) by (nonlinear_arith)
                    requires
                        p == ni * q + rem,
                        rem == 0,
                        sum == -p,
                {
                }
            } else {
                assert(sum == ni * (-q - 1) + (ni - rem)) by (nonlinear_arith)
                    requires
                        p == ni * q + rem,
                        sum == -p,
                {
                }
                vstd::arithmetic::div_mod::lemma_mod_multiples_vanish(-q - 1, ni - rem, ni);
                vstd::arithmetic::div_mod::lemma_small_mod((ni - rem) as nat, ni as nat);
            }
        }
    }
    assert(r == (sum as int) % (n as int));
    r as usize
}

} // verus!
