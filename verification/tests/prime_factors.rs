use jit_harness::prime_factors::prime_factors;

fn is_prime(p: u64) -> bool {
    p >= 2 && (2..p).take_while(|d| d * d <= p).all(|d| p % d != 0)
}

#[test]
fn zero_and_one_have_no_prime_factors() {
    assert_eq!(prime_factors(0), Vec::<u64>::new());
    assert_eq!(prime_factors(1), Vec::<u64>::new());
}

#[test]
fn prime_is_its_own_factorization() {
    assert_eq!(prime_factors(2), vec![2]);
    assert_eq!(prime_factors(3), vec![3]);
    assert_eq!(prime_factors(97), vec![97]);
    assert_eq!(prime_factors(7919), vec![7919]);
}

#[test]
fn factors_are_repeated_as_often_as_they_divide() {
    assert_eq!(prime_factors(4), vec![2, 2]);
    assert_eq!(prime_factors(8), vec![2, 2, 2]);
    assert_eq!(prime_factors(12), vec![2, 2, 3]);
    assert_eq!(prime_factors(360), vec![2, 2, 2, 3, 3, 5]);
    assert_eq!(prime_factors(1024), vec![2; 10]);
    assert_eq!(prime_factors(901255), vec![5, 17, 23, 461]);
}

#[test]
fn factors_of_a_large_number() {
    assert_eq!(prime_factors(600851475143), vec![71, 839, 1471, 6857]);
    assert_eq!(prime_factors(1 << 63), vec![2; 63]);
}

#[test]
fn factors_of_the_largest_number() {
    assert_eq!(prime_factors(u64::MAX), vec![3, 5, 17, 257, 641, 65537, 6700417]);
}

#[test]
fn factors_are_ascending_primes_with_the_number_as_product() {
    for n in 1..3000u64 {
        let factors = prime_factors(n);
        assert_eq!(factors.iter().product::<u64>(), n);
        assert!(factors.iter().all(|p| is_prime(*p)));
        assert!(factors.windows(2).all(|pair| pair[0] <= pair[1]));
    }
}
