//! Self-contained array and string puzzles, each specified exactly.

use vstd::prelude::*;

use vstd::arithmetic::div_mod::lemma_fundamental_div_mod;
use vstd::arithmetic::mul::lemma_mul_inequality;

verus! {

/// The number of jumps a greedy walk takes from position `i` to the last
/// cloud: step two clouds ahead when that cloud is clear, otherwise step
/// one.
pub open spec fn route_jumps(c: Seq<i32>, i: int) -> nat
    decreases c.len() - i when 0 <= i <= c.len()
{
    if i + 1 >= c.len() {
        0
    } else if i + 2 < c.len() && c[i + 2] == 0 {
        1 + route_jumps(c, i + 2)
    } else {
        1 + route_jumps(c, i + 1)
    }
}

proof fn lemma_route_jumps_bound(c: Seq<i32>, i: int)
    requires
        0 <= i <= c.len(),
    ensures
        i + 1 >= c.len() ==> route_jumps(c, i) == 0,
        i + 1 < c.len() ==> route_jumps(c, i) <= c.len() - i - 1,
    decreases c.len() - i,
{
    if i + 1 < c.len() {
        if i + 2 < c.len() && c[i + 2] == 0 {
            lemma_route_jumps_bound(c, i + 2);
        } else {
            lemma_route_jumps_bound(c, i + 1);
        }
    }
}

/// Walks the cloud row `c` greedily from the first cloud to the last,
/// avoiding thunderclouds (entries other than zero) by preferring the
/// two-cloud jump, and counts the jumps taken. The cloud count `n` is
/// redundant with the row itself and is not consulted.
pub fn jumping_on_clouds(n: usize, c: Vec<i32>) -> (r: i32)
    requires
        c@.len() <= 0x7fff_ffff,
    ensures
        r as nat == route_jumps(c@, 0),
{
    let _ = n;
    let len = c.len();
    let mut i: usize = 0;
    let mut count: usize = 0;
    proof {
        lemma_route_jumps_bound(c@, 0);
    }
    while i + 1 < len
        invariant
            len == c@.len(),
            len <= 0x7fff_ffff,
            0 <= i <= len,
            count + route_jumps(c@, i as int) == route_jumps(c@, 0),
            route_jumps(c@, 0) <= len,
        decreases len - i,
    {
        if i + 2 < len && c[i + 2] == 0 {
            i = i + 2;
        } else {
            i = i + 1;
        }
        count = count + 1;
    }
    count as i32
}

/// The number of occurrences of `'a'` among the first `k` characters.
pub open spec fn count_a(s: Seq<char>, k: int) -> nat
    decreases k,
{
    if k <= 0 {
        0
    } else {
        count_a(s, k - 1) + (if 0 <= k - 1 < s.len() && s[k - 1] == 'a' {
            1nat
        } else {
            0nat
        })
    }
}

proof fn lemma_count_a_le(s: Seq<char>, k: int)
    requires
        k >= 0,
    ensures
        count_a(s, k) <= k,
    decreases k,
{
    if k > 0 {
        lemma_count_a_le(s, k - 1);
    }
}

/// Counts the occurrences of `'a'` among the first `n` characters of the
/// infinite repetition of `s`: whole copies of `s` contribute a full count
/// each, and the leftover prefix contributes its own.
pub fn repeated_string(s: &str, n: usize) -> (r: usize)
    requires
        s@.len() > 0,
    ensures
        r == count_a(s@, s@.len() as int) * ((n as nat) / s@.len()) + count_a(
            s@,
            ((n as nat) % s@.len()) as int,
        ),
{
    let len = s.unicode_len();
    let mut count: usize = 0;
    let mut i: usize = 0;
    while i < len
        invariant
            len == s@.len(),
            i <= len,
            count == count_a(s@, i as int),
            count <= i,
        decreases len - i,
    {
        if s.get_char(i) == 'a' {
            count = count + 1;
        }
        i = i + 1;
    }
    let multiplier = n / len;
    let remainder = n % len;
    let mut pre: usize = 0;
    let mut j: usize = 0;
    while j < remainder
        invariant
            len == s@.len(),
            remainder == (n as nat) % s@.len(),
            remainder < len,
            j <= remainder,
            pre == count_a(s@, j as int),
            pre <= j,
        decreases remainder - j,
    {
        if s.get_char(j) == 'a' {
            pre = pre + 1;
        }
        j = j + 1;
    }
    proof {
        lemma_count_a_le(s@, len as int);
        lemma_fundamental_div_mod(n as int, len as int);
        lemma_mul_inequality(count as int, len as int, multiplier as int);
    }
    count * multiplier + pre
}

/// The number of occurrences of `v` in `s`.
pub open spec fn count_matches(s: Seq<i32>, v: i32) -> nat
    decreases s.len(),
{
    if s.len() == 0 {
        0
    } else {
        count_matches(s.drop_last(), v) + (if s.last() == v {
            1nat
        } else {
            0nat
        })
    }
}

/// The number of disjoint pairs of equal values in `s`: a position joins a
/// pair exactly when an odd number of earlier positions hold the same
/// value, so each value contributes half its occurrence count, rounded
/// down.
pub open spec fn pair_count(s: Seq<i32>) -> nat
    decreases s.len(),
{
    if s.len() == 0 {
        0
    } else {
        pair_count(s.drop_last()) + (if count_matches(s.drop_last(), s.last()) % 2 == 1 {
            1nat
        } else {
            0nat
        })
    }
}

/// Counts how many pairs of matching socks the `n` values in `ar` form.
pub fn sock_merchant(n: usize, ar: Vec<i32>) -> (r: usize)
    requires
        n == ar@.len(),
    ensures
        r == pair_count(ar@),
{
    let mut pairs: usize = 0;
    let mut i: usize = 0;
    while i < n
        invariant
            n == ar@.len(),
            i <= n,
            pairs == pair_count(ar@.take(i as int)),
            pairs <= i,
        decreases n - i,
    {
        let v = ar[i];
        let mut cnt: usize = 0;
        let mut j: usize = 0;
        while j < i
            invariant
                n == ar@.len(),
                i < n,
                v == ar@[i as int],
                j <= i,
                cnt == count_matches(ar@.take(j as int), v),
                cnt <= j,
            decreases i - j,
        {
            proof {
                assert(ar@.take(j as int + 1).drop_last() =~= ar@.take(j as int));
                assert(ar@.take(j as int + 1).last() == ar@[j as int]);
            }
            if ar[j] == v {
                cnt = cnt + 1;
            }
            j = j + 1;
        }
        proof {
            assert(ar@.take(i as int + 1).drop_last() =~= ar@.take(i as int));
            assert(ar@.take(i as int + 1).last() == ar@[i as int]);
        }
        if cnt % 2 == 1 {
            pairs = pairs + 1;
        }
        i = i + 1;
    }
    proof {
        assert(ar@.take(n as int) =~= ar@);
    }
    pairs
}

/// The sequence is ordered: no later element is smaller.
pub open spec fn sorted(s: Seq<i32>) -> bool {
    forall|i: int, j: int| 0 <= i < j < s.len() ==> s[i] <= s[j]
}

/// Sorts the values by repeatedly selecting the minimum of what remains.
/// The result is ordered and holds exactly the input values.
pub fn selection_sort(arr: Vec<i32>) -> (r: Vec<i32>)
    ensures
        sorted(r@),
        r@.to_multiset() == arr@.to_multiset(),
{
    broadcast use vstd::seq_lib::group_to_multiset_ensures;
    broadcast use vstd::multiset::group_multiset_axioms;

    let mut src = arr;
    let mut out: Vec<i32> = Vec::new();
    while src.len() > 0
        invariant
            sorted(out@),
            forall|k: int, l: int|
                0 <= k < out@.len() && 0 <= l < src@.len() ==> out@[k] <= src@[l],
            out@.to_multiset().add(src@.to_multiset()) == arr@.to_multiset(),
        decreases src@.len(),
    {
        let mut m: usize = 0;
        let mut j: usize = 1;
        while j < src.len()
            invariant
                src@.len() > 0,
                m < j || (j == 1 && m == 0),
                m < src@.len(),
                j <= src@.len(),
                forall|k: int| 0 <= k < j ==> src@[m as int] <= src@[k],
            decreases src@.len() - j,
        {
            if src[j] < src[m] {
                m = j;
            }
            j = j + 1;
        }
        let ghost old_out = out@;
        let ghost old_src = src@;
        let v = src.remove(m);
        out.push(v);
        proof {
            assert(out@ =~= old_out.push(v));
            assert(forall|k: int| 0 <= k < old_out.len() ==> out@[k] == old_out[k]);
            vstd::seq_lib::to_multiset_build(old_out, v);
            vstd::seq_lib::to_multiset_remove(old_src, m as int);
            vstd::seq_lib::to_multiset_contains(old_src, v);
            assert(old_src.contains(v));
            assert(old_src.to_multiset().count(v) > 0);
            assert(out@.to_multiset().add(src@.to_multiset()) =~= old_out.to_multiset().add(
                old_src.to_multiset(),
            ));
            assert forall|k: int, l: int|
                0 <= k < out@.len() && 0 <= l < src@.len() implies out@[k] <= src@[l] by {
                assert(src@[l] == old_src.remove(m as int)[l]);
                if l < m {
                    assert(src@[l] == old_src[l]);
                } else {
                    assert(src@[l] == old_src[l + 1]);
                }
            }
        }
    }
    out
}

} // verus!
