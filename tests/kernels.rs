use rustybench::kernels::{
    is_prime, memory_kernel, memory_round, memory_step, test_integer, test_memory, test_prime,
};

#[test]
fn is_prime_small_values() {
    assert!(!is_prime(0));
    assert!(!is_prime(1));
    assert!(is_prime(2));
    assert!(is_prime(3));
    assert!(!is_prime(4));
    assert!(is_prime(97));
    assert!(!is_prime(100));
}

#[test]
fn is_prime_squares_and_wheel_candidates() {
    assert!(!is_prime(25));
    assert!(!is_prime(49));
    assert!(!is_prime(121));
    assert!(is_prime(29));
    assert!(is_prime(31));
    assert!(!is_prime(35));
    assert!(is_prime(7919));
    assert!(!is_prime(7917));
}

#[test]
fn is_prime_large_values() {
    assert!(is_prime(1_000_000_007));
    assert!(!is_prime(u64::MAX));
    assert!(!is_prime(1_000_000_007u64 * 1_000_000_009));
}

#[test]
fn prime_kernel_counts_primes_per_chunk() {
    assert_eq!(test_prime(0), 0);
    assert_eq!(test_prime(1), 303);
    assert_eq!(test_prime(2), 550);
    assert_eq!(test_prime(5), 1229);
}

#[test]
fn prime_kernel_is_monotonic() {
    let mut previous = test_prime(1);
    for n in 2..6 {
        let current = test_prime(n);
        assert!(current >= previous);
        previous = current;
    }
}

fn integer_reference(iterations: u64) -> u64 {
    let (mut a, mut b, mut c, mut d, mut sum) = (1u64, 2u64, 3u64, 4u64, 0u64);
    for i in 0..iterations {
        for _ in 0..2000 {
            a = a.wrapping_mul(i.wrapping_add(1)).rotate_left(3);
            b = b.wrapping_add(a).rotate_right(2);
            c = c.wrapping_mul(b).rotate_left(1);
            d = d.wrapping_add(c).rotate_right(3);
            sum = sum.wrapping_add(a ^ b ^ c ^ d);
            std::mem::swap(&mut a, &mut d);
            std::mem::swap(&mut b, &mut c);
        }
    }
    sum
}

#[test]
fn integer_kernel_matches_rotating_reference() {
    assert_eq!(test_integer(0), 0);
    for n in [1u64, 2, 7] {
        assert_eq!(test_integer(n), integer_reference(n));
    }
}

#[test]
fn integer_kernel_is_deterministic() {
    assert_eq!(test_integer(3), test_integer(3));
}

#[test]
fn memory_step_reads_then_writes_back() {
    let mut buf = vec![10u64, 20, 30];
    let sum = memory_step(&mut buf, 5, 0, 2);
    assert_eq!(sum, 35);
    assert_eq!(buf, vec![35, 20, 30]);
    let sum = memory_step(&mut buf, sum, 2, 1);
    assert_eq!(sum, 55);
    assert_eq!(buf, vec![35, 20, 55]);
}

#[test]
fn memory_step_wraps_around() {
    let mut buf = vec![u64::MAX, 3];
    let sum = memory_step(&mut buf, 2, 1, 0);
    assert_eq!(sum, 1);
    assert_eq!(buf, vec![u64::MAX, 1]);
}

#[test]
fn memory_round_chains_the_walk() {
    let mut buf = vec![10u64, 20, 30, 40];
    let (sum, last) = memory_round(&mut buf, 1, 3, &vec![0, 2, 2, 1]);
    // 1 + 10 = 11 at 3; 11 + 30 = 41 at 0; 41 + 30 = 71 at 2; 71 + 20 = 91 at 2.
    assert_eq!(sum, 91);
    assert_eq!(last, 1);
    assert_eq!(buf, vec![41, 20, 91, 11]);
}

#[test]
fn memory_round_without_indices_keeps_everything() {
    let mut buf = vec![5u64, 6];
    assert_eq!(memory_round(&mut buf, 9, 1, &vec![]), (9, 1));
    assert_eq!(buf, vec![5, 6]);
}

#[test]
fn memory_kernel_runs_on_small_buffers() {
    memory_kernel(3, 1);
    memory_kernel(5, 64);
    assert_eq!(memory_kernel(0, 16), 0);
}

#[test]
fn memory_kernel_without_iterations_is_zero() {
    assert_eq!(test_memory(0), 0);
}

#[test]
fn memory_kernel_full_buffer() {
    let _ = test_memory(1);
}
