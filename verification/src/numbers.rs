//! Bounds and sums of whole numbers.
use vstd::prelude::*;

verus! {

/// The smaller of two numbers.
pub open spec fn least(a: int, b: int) -> int {
    if a <= b {
        a
    } else {
        b
    }
}

/// The larger of two numbers.
pub open spec fn greatest(a: int, b: int) -> int {
    if a >= b {
        a
    } else {
        b
    }
}

/// `v`, moved to the nearer bound if it lies outside `low..=high`.
pub open spec fn clamped(v: int, low: int, high: int) -> int {
    if v < low {
        low
    } else if v > high {
        high
    } else {
        v
    }
}

/// The sum of some numbers.
pub open spec fn sum_of(s: Seq<u64>) -> nat
    decreases s.len(),
{
    if s.len() == 0 {
        0
    } else {
        sum_of(s.drop_last()) + s.last() as nat
    }
}

pub(crate) proof fn lemma_sum_bound(s: Seq<u64>)
    ensures
        sum_of(s) <= s.len() * u64::MAX,
    decreases s.len(),
{
    if s.len() > 0 {
        lemma_sum_bound(s.drop_last());
        assert((s.len() - 1) * u64::MAX + u64::MAX == s.len() * u64::MAX) by (nonlinear_arith);
    }
}

/// The sum of some numbers.
pub fn sum_all(s: &Vec<u64>) -> (r: u128)
    ensures
        r == sum_of(s@),
{
    let n: usize = s.len();
    let mut sum: u128 = 0;
    let mut i: usize = 0;
    while i < n
        invariant
            n == s@.len(),
            i <= n,
            sum == sum_of(s@.take(i as int)),
        decreases n - i,
    {
        proof {
            assert(s@.take(i + 1).drop_last() =~= s@.take(i as int));
            lemma_sum_bound(s@.take(i + 1));
            assert((i + 1) * u64::MAX <= u64::MAX * u64::MAX) by (nonlinear_arith)
                requires
                    0 <= i < u64::MAX,
            ;
        }
        sum = sum + s[i] as u128;
        i = i + 1;
    }
    proof {
        assert(s@.take(n as int) =~= s@);
    }
    sum
}

/// The smaller of two numbers is one of them and above neither, the larger one of them and
/// below neither.
pub proof fn law_least_and_greatest(a: int, b: int)
    ensures
        least(a, b) == a || least(a, b) == b,
        least(a, b) <= a && least(a, b) <= b,
        greatest(a, b) == a || greatest(a, b) == b,
        greatest(a, b) >= a && greatest(a, b) >= b,
{
}

/// A number within the bounds is kept; any other goes to a bound, and no number within the
/// bounds is nearer to it.
pub proof fn law_clamping_goes_to_the_nearest(v: int, low: int, high: int, other: int)
    requires
        low <= other <= high,
    ensures
        low <= clamped(v, low, high) <= high,
        low <= v <= high ==> clamped(v, low, high) == v,
        v < low ==> clamped(v, low, high) - v <= other - v,
        v > high ==> v - clamped(v, low, high) <= v - other,
{
}

/// A sum grows by exactly the number that is put behind the others, and nothing sums up to zero.
pub proof fn law_sum_grows_by_each_number(s: Seq<u64>, x: u64)
    ensures
        sum_of(Seq::<u64>::empty()) == 0,
        sum_of(s.push(x)) == sum_of(s) + x,
{
    assert(s.push(x).drop_last() =~= s);
}

proof fn lemma_sum_of_parts(s: Seq<u64>, t: Seq<u64>)
    ensures
        sum_of(s + t) == sum_of(s) + sum_of(t),
    decreases t.len(),
{
    if t.len() == 0 {
        assert(s + t =~= s);
    } else {
        lemma_sum_of_parts(s, t.drop_last());
        assert((s + t).drop_last() =~= s + t.drop_last());
    }
}

/// Numbers can be added up in two parts, and every one of them counts.
pub proof fn law_sum_of_parts(s: Seq<u64>, t: Seq<u64>, i: int)
    ensures
        sum_of(s + t) == sum_of(s) + sum_of(t),
        0 <= i < s.len() ==> sum_of(s) == sum_of(s.take(i)) + s[i] + sum_of(s.skip(i + 1)),
{
    lemma_sum_of_parts(s, t);
    if 0 <= i < s.len() {
        let head = s.take(i).push(s[i]);
        assert(s =~= head + s.skip(i + 1));
        lemma_sum_of_parts(head, s.skip(i + 1));
        law_sum_grows_by_each_number(s.take(i), s[i]);
    }
}

/// What `sum_all` gives for two lists adds up to what it gives for one behind the other.
pub proof fn law_sum_all_adds_up(
    a: &Vec<u64>,
    b: &Vec<u64>,
    both: &Vec<u64>,
    x: u128,
    y: u128,
    z: u128,
)
    requires
        both@ == a@ + b@,
        call_ensures(sum_all, (a,), x),
        call_ensures(sum_all, (b,), y),
        call_ensures(sum_all, (both,), z),
    ensures
        z == x + y,
        a@.len() == 0 ==> x == 0,
        a@.len() == 1 ==> x == a@[0],
{
    lemma_sum_of_parts(a@, b@);
    if a@.len() == 1 {
        law_sum_of_parts(a@, b@, 0);
        assert(a@.take(0) =~= seq![] && a@.skip(1) =~= seq![]);
    }
}

} // verus!
