//! Prime factorisation by trial division.

use vstd::arithmetic::div_mod::{
    lemma_div_is_strictly_smaller, lemma_fundamental_div_mod, lemma_mod_is_zero,
    lemma_mod_multiples_basic, lemma_small_mod,
};
use vstd::prelude::*;

verus! {

/// Whether `d` divides `n`, for a positive `d`.
pub open spec fn divides(d: int, n: int) -> bool {
    n % d == 0
}

/// Whether `p` is a prime number: at least 2 and divisible by no number
/// between 1 and itself.
pub open spec fn is_prime(p: int) -> bool {
    p >= 2 && forall|d: int| 2 <= d < p ==> !#[trigger] divides(d, p)
}

/// The product of the numbers in `s`; 1 for the empty sequence.
pub open spec fn product(s: Seq<u64>) -> int
    decreases s.len(),
{
    if s.len() == 0 {
        1
    } else {
        product(s.drop_last()) * s.last()
    }
}

/// Whether `s` holds primes only.
pub open spec fn all_prime(s: Seq<u64>) -> bool {
    forall|i: int| 0 <= i < s.len() ==> is_prime(#[trigger] s[i] as int)
}

/// Whether no number in `s` is smaller than one before it.
pub open spec fn ascending(s: Seq<u64>) -> bool {
    forall|i: int, j: int| 0 <= i <= j < s.len() ==> s[i] <= s[j]
}

/// Whether `s` is the prime factorisation of `n`: primes in ascending
/// order, each as often as it divides `n`, whose product is `n`.
pub open spec fn is_factorization(s: Seq<u64>, n: int) -> bool {
    all_prime(s) && ascending(s) && product(s) == n
}

/// A number that `d` divides is `d` times the quotient.
proof fn divisible_is_multiple(n: int, d: int)
    requires
        d > 0,
        divides(d, n),
    ensures
        n == d * (n / d),
{
    lemma_fundamental_div_mod(n, d);
}

/// `d` divides its multiples.
proof fn multiple_is_divisible(k: int, d: int)
    requires
        d > 0,
    ensures
        divides(d, k * d),
{
    lemma_mod_multiples_basic(k, d);
}

/// What divides a divisor of `n` divides `n`.
proof fn divides_is_transitive(d: int, c: int, n: int)
    requires
        d > 0,
        c > 0,
        divides(d, c),
        divides(c, n),
    ensures
        divides(d, n),
{
    divisible_is_multiple(c, d);
    divisible_is_multiple(n, c);
    let k = (c / d) * (n / c);
    assert(n == k * d) by (nonlinear_arith)
        requires
            c == d * (c / d),
            n == c * (n / c),
            k == (c / d) * (n / c),
    ;
    multiple_is_divisible(k, d);
}

/// What divides the quotient of `n` by a divisor `c` divides `n`.
proof fn divides_quotient(d: int, c: int, n: int)
    requires
        d > 0,
        c > 0,
        divides(c, n),
        divides(d, n / c),
    ensures
        divides(d, n),
{
    divisible_is_multiple(n, c);
    divisible_is_multiple(n / c, d);
    let k = c * ((n / c) / d);
    assert(n == k * d) by (nonlinear_arith)
        requires
            n == c * (n / c),
            n / c == d * ((n / c) / d),
            k == c * ((n / c) / d),
    ;
    multiple_is_divisible(k, d);
}

/// A number between 0 and `d` is no multiple of `d`.
proof fn smaller_is_not_divisible(d: int, n: int)
    requires
        0 < n < d,
    ensures
        !divides(d, n),
{
    lemma_small_mod(n as nat, d as nat);
}

/// Euclid's lemma: a prime that divides a product divides one of the two
/// factors.
proof fn prime_divides_a_factor(p: int, a: int, b: int)
    requires
        is_prime(p),
        a >= 1,
        divides(p, a * b),
    ensures
        divides(p, a) || divides(p, b),
    decreases a,
{
    if divides(p, a) {
    } else if a == 1 {
        assert(a * b == b) by (nonlinear_arith)
            requires
                a == 1,
        ;
    } else {
        divisible_is_multiple(a * b, p);
        let k = (a * b) / p;
        if a >= p {
            let r = a % p;
            lemma_fundamental_div_mod(a, p);
            let m = k - (a / p) * b;
            assert(r * b == m * p) by (nonlinear_arith)
                requires
                    a == p * (a / p) + r,
                    a * b == p * k,
                    m == k - (a / p) * b,
            ;
            multiple_is_divisible(m, p);
            smaller_is_not_divisible(p, r);
            prime_divides_a_factor(p, r, b);
        } else {
            let r = p % a;
            assert(!divides(a, p));
            lemma_fundamental_div_mod(p, a);
            let m = b - (p / a) * k;
            assert(r * b == m * p) by (nonlinear_arith)
                requires
                    p == a * (p / a) + r,
                    a * b == p * k,
                    m == b - (p / a) * k,
            ;
            multiple_is_divisible(m, p);
            smaller_is_not_divisible(p, r);
            prime_divides_a_factor(p, r, b);
        }
    }
}

/// A product of primes is positive, and at least 2 where there is a
/// prime in it.
proof fn product_of_primes_is_positive(s: Seq<u64>)
    requires
        all_prime(s),
    ensures
        product(s) >= 1,
        s.len() > 0 ==> product(s) >= 2,
    decreases s.len(),
{
    if s.len() > 0 {
        let front = s.drop_last();
        assert forall|i: int| 0 <= i < front.len() implies is_prime(#[trigger] front[i] as int) by {
            assert(front[i] == s[i]);
        }
        product_of_primes_is_positive(front);
        assert(is_prime(s.last() as int));
        assert(product(front) * s.last() >= 2) by (nonlinear_arith)
            requires
                product(front) >= 1,
                s.last() >= 2,
        ;
    }
}

/// A prime that divides a product of primes is one of them.
proof fn prime_divisor_is_a_factor(p: int, s: Seq<u64>)
    requires
        is_prime(p),
        all_prime(s),
        divides(p, product(s)),
    ensures
        exists|i: int| 0 <= i < s.len() && #[trigger] s[i] == p,
    decreases s.len(),
{
    if s.len() == 0 {
        smaller_is_not_divisible(p, 1);
    } else {
        let front = s.drop_last();
        let last = s.last() as int;
        assert forall|i: int| 0 <= i < front.len() implies is_prime(#[trigger] front[i] as int) by {
            assert(front[i] == s[i]);
        }
        assert(is_prime(last));
        product_of_primes_is_positive(front);
        prime_divides_a_factor(p, product(front), last);
        if divides(p, product(front)) {
            prime_divisor_is_a_factor(p, front);
            let i = choose|i: int| 0 <= i < front.len() && #[trigger] front[i] == p;
            assert(s[i] == p);
        } else {
            lemma_mod_is_zero(last as nat, p as nat);
            assert(s[s.len() - 1] == p);
        }
    }
}

/// The prime factorisation of a number is unique: two ascending sequences
/// of primes with the same product are the same sequence.
pub proof fn factorization_is_unique(s: Seq<u64>, t: Seq<u64>)
    requires
        all_prime(s),
        ascending(s),
        all_prime(t),
        ascending(t),
        product(s) == product(t),
    ensures
        s == t,
    decreases s.len(),
{
    product_of_primes_is_positive(s);
    product_of_primes_is_positive(t);
    if s.len() == 0 || t.len() == 0 {
        assert(s =~= t);
    } else {
        let s_front = s.drop_last();
        let t_front = t.drop_last();
        let s_last = s.last() as int;
        let t_last = t.last() as int;
        assert(is_prime(s_last));
        assert(is_prime(t_last));
        multiple_is_divisible(product(s_front), s_last);
        multiple_is_divisible(product(t_front), t_last);
        prime_divisor_is_a_factor(s_last, t);
        prime_divisor_is_a_factor(t_last, s);
        let i = choose|i: int| 0 <= i < t.len() && #[trigger] t[i] == s_last;
        let j = choose|j: int| 0 <= j < s.len() && #[trigger] s[j] == t_last;
        assert(t[i] <= t[t.len() - 1]);
        assert(s[j] <= s[s.len() - 1]);
        assert(s_last == t_last);
        assert(product(s_front) == product(t_front)) by (nonlinear_arith)
            requires
                product(s_front) * s_last == product(t_front) * t_last,
                s_last == t_last,
                s_last >= 2,
        ;
        assert forall|k: int| 0 <= k < s_front.len() implies is_prime(
            #[trigger] s_front[k] as int,
        ) by {
            assert(s_front[k] == s[k]);
        }
        assert forall|k: int| 0 <= k < t_front.len() implies is_prime(
            #[trigger] t_front[k] as int,
        ) by {
            assert(t_front[k] == t[k]);
        }
        assert forall|k: int, l: int| 0 <= k <= l < s_front.len() implies s_front[k]
            <= s_front[l] by {
            assert(s_front[k] == s[k] && s_front[l] == s[l]);
        }
        assert forall|k: int, l: int| 0 <= k <= l < t_front.len() implies t_front[k]
            <= t_front[l] by {
            assert(t_front[k] == t[k] && t_front[l] == t[l]);
        }
        factorization_is_unique(s_front, t_front);
        assert(s =~= s_front.push(s.last()));
        assert(t =~= t_front.push(t.last()));
    }
}

/// The prime factors of `n`, each as often as it divides `n`, in
/// ascending order. Zero and one have none.
pub fn prime_factors(n: u64) -> (factors: Vec<u64>)
    ensures
        n == 0 ==> factors@ == Seq::<u64>::empty(),
        n >= 1 ==> is_factorization(factors@, n as int),
{
    let mut n = n;
    let ghost whole = n;
    let mut factors: Vec<u64> = Vec::new();
    let mut candidate: u64 = 2;

    while n > 1
        invariant
            product(factors@) * n == whole,
            whole == 0 ==> factors@.len() == 0,
            candidate >= 2,
            n > 1 ==> candidate <= n,
            forall|d: int| 2 <= d < candidate ==> !#[trigger] divides(d, n as int),
            all_prime(factors@),
            ascending(factors@),
            forall|i: int| 0 <= i < factors@.len() ==> factors@[i] <= candidate,
        decreases
                (if n > 1 {
                    n - candidate + 1
                } else {
                    0
                }),
    {
        let ghost start = n;
        while n % candidate == 0
            invariant
                product(factors@) * n == whole,
                whole != 0,
                n >= 1,
                start > 1,
                n <= start,
                2 <= candidate <= start,
                forall|d: int| 2 <= d < candidate ==> !#[trigger] divides(d, n as int),
                forall|d: int| 2 <= d < candidate ==> !#[trigger] divides(d, start as int),
                all_prime(factors@),
                ascending(factors@),
                forall|i: int| 0 <= i < factors@.len() ==> factors@[i] <= candidate,
            decreases n,
        {
            let ghost before = factors@;
            let ghost dividend = n;
            proof {
                assert(divides(candidate as int, dividend as int));
                assert forall|d: int| 2 <= d < candidate implies !#[trigger] divides(
                    d,
                    candidate as int,
                ) by {
                    if divides(d, candidate as int) {
                        divides_is_transitive(d, candidate as int, dividend as int);
                    }
                }
                assert(is_prime(candidate as int));
                divisible_is_multiple(dividend as int, candidate as int);
                lemma_div_is_strictly_smaller(dividend as int, candidate as int);
            }
            factors.push(candidate);
            n /= candidate;
            proof {
                assert(factors@.drop_last() =~= before);
                assert(product(factors@) == product(before) * candidate);
                assert(product(factors@) * n == whole) by (nonlinear_arith)
                    requires
                        product(factors@) == product(before) * candidate,
                        dividend == candidate * n,
                        product(before) * dividend == whole,
                ;
                assert(n >= 1) by (nonlinear_arith)
                    requires
                        dividend == candidate * n,
                        dividend >= 1,
                        candidate >= 2,
                        n >= 0,
                ;
                assert forall|d: int| 2 <= d < candidate implies !#[trigger] divides(
                    d,
                    n as int,
                ) by {
                    if divides(d, n as int) {
                        divides_quotient(d, candidate as int, dividend as int);
                    }
                }
            }
        }
        proof {
            if candidate == u64::MAX {
                assert(start == u64::MAX);
                assert(divides(3, start as int));
            }
            if n > 1 {
                assert(!divides(candidate as int, n as int));
                if n <= candidate {
                    assert(n as int % n as int == 0) by (nonlinear_arith)
                        requires
                            n > 0,
                    ;
                    assert(divides(n as int, n as int));
                }
            }
        }
        candidate += 1;
    }
    proof {
        if whole == 0 {
            assert(factors@ =~= Seq::<u64>::empty());
        }
        if whole >= 1 {
            assert(n == 1);
            assert(product(factors@) == whole) by (nonlinear_arith)
                requires
                    product(factors@) * n == whole,
                    n == 1,
            ;
        }
    }
    factors
}

} // verus!
