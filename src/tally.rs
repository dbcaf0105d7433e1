use vstd::prelude::*;

verus! {

/// The sum of a sequence of unsigned values.
pub open spec fn sum(s: Seq<u64>) -> int
    decreases s.len(),
{
    if s.len() == 0 {
        0
    } else {
        sum(s.drop_last()) + s.last()
    }
}

pub proof fn lemma_sum_update(s: Seq<u64>, i: int, v: u64)
    requires
        0 <= i < s.len(),
    ensures
        sum(s.update(i, v)) == sum(s) - s[i] + v,
        s[i] <= sum(s),
    decreases s.len(),
{
    let t = s.update(i, v);
    if i == s.len() - 1 {
        assert(t.drop_last() =~= s.drop_last());
        lemma_sum_nonneg(s.drop_last());
    } else {
        assert(t.drop_last() =~= s.drop_last().update(i, v));
        lemma_sum_update(s.drop_last(), i, v);
    }
}

pub proof fn lemma_sum_nonneg(s: Seq<u64>)
    ensures
        sum(s) >= 0,
    decreases s.len(),
{
    if s.len() > 0 {
        lemma_sum_nonneg(s.drop_last());
    }
}

pub proof fn lemma_sum_zero(s: Seq<u64>)
    requires
        forall|i: int| 0 <= i < s.len() ==> s[i] == 0,
    ensures
        sum(s) == 0,
    decreases s.len(),
{
    if s.len() > 0 {
        lemma_sum_zero(s.drop_last());
    }
}

pub proof fn lemma_sum_constant(n: nat, v: u64)
    ensures
        sum(Seq::new(n, |_i: int| v)) == n * v,
    decreases n,
{
    if n == 0 {
        assert(Seq::new(n, |_i: int| v).len() == 0);
    } else {
        let s = Seq::new(n, |_i: int| v);
        assert(s.drop_last() =~= Seq::new((n - 1) as nat, |_i: int| v));
        lemma_sum_constant((n - 1) as nat, v);
        assert(s.last() == v);
        assert(n * v == (n - 1) * v + v) by (nonlinear_arith);
    }
}

/// A vector of `n` copies of `v`.
pub fn filled<T: Copy>(n: usize, v: T) -> (r: Vec<T>)
    ensures
        r@ == Seq::new(n as nat, |_i: int| v),
{
    let mut r: Vec<T> = Vec::new();
    let mut j: usize = 0;
    while j < n
        invariant
            j <= n,
            r@ =~= Seq::new(j as nat, |_i: int| v),
        decreases n - j,
    {
        r.push(v);
        j += 1;
    }
    r
}

} // verus!
