//! The processor workload kernels: each takes an iteration count and returns a
//! wrap-around accumulator whose value only keeps the work from being elided.

use rand::rngs::ThreadRng;
use rand::Rng;
use vstd::prelude::*;

verus! {

/// `d` divides `n`.
pub open spec fn divides(d: nat, n: nat) -> bool {
    n % d == 0
}

/// `n` is a prime number: greater than one, with no divisor strictly between
/// one and itself.
pub open spec fn spec_is_prime(n: nat) -> bool {
    n > 1 && forall|d: nat| 1 < d < n ==> !#[trigger] divides(d, n)
}

proof fn lemma_multiple_shares_divisor(n: nat, d: nat, k: nat)
    requires
        k > 0,
        d % k == 0,
        d > 0,
        n % d == 0,
    ensures
        n % k == 0,
{
    let q = n / d;
    let e = d / k;
    vstd::arithmetic::div_mod::lemma_fundamental_div_mod(n as int, d as int);
    vstd::arithmetic::div_mod::lemma_fundamental_div_mod(d as int, k as int);
    assert(n == (e * q) * k) by (nonlinear_arith)
        requires
            n == d * q,
            d == k * e,
    ;
    vstd::arithmetic::div_mod::lemma_mod_multiples_basic((e * q) as int, k as int);
}

proof fn lemma_cofactor_divides(n: nat, d: nat)
    requires
        1 < d,
        d < n,
        n % d == 0,
    ensures
        n / d > 1,
        n / d < n,
        n % (n / d) == 0,
        d * (n / d) == n,
{
    vstd::arithmetic::div_mod::lemma_fundamental_div_mod(n as int, d as int);
    let q = n / d;
    assert(d * q == n);
    assert(q > 1) by (nonlinear_arith)
        requires
            d * q == n,
            d < n,
            q >= 0,
    ;
    assert(q < n) by (nonlinear_arith)
        requires
            d * q == n,
            d > 1,
            q > 1,
    ;
    vstd::arithmetic::div_mod::lemma_mod_multiples_basic(d as int, q as int);
    assert(n == d * q);
    assert(d * q == q * d) by (nonlinear_arith);
}

proof fn lemma_wheel_step(n: nat, i: nat)
    requires
        i % 6 == 5,
        n % 2 != 0,
        n % 3 != 0,
        !divides(i, n),
        !divides(i + 2, n),
        forall|d: nat| 1 < d < i ==> !#[trigger] divides(d, n),
    ensures
        forall|d: nat| 1 < d < i + 6 ==> !#[trigger] divides(d, n),
{
    assert forall|d: nat| 1 < d < i + 6 implies !#[trigger] divides(d, n) by {
        if d >= i && d != i && d != i + 2 && divides(d, n) {
            if d == i + 1 || d == i + 3 || d == i + 5 {
                lemma_multiple_shares_divisor(n, d, 2);
            } else {
                lemma_multiple_shares_divisor(n, d, 3);
            }
        }
    }
}

/// Trial division by 2, 3 and then the candidates `6k - 1` and `6k + 1` up to
/// the square root of `n`.
pub fn is_prime(n: u64) -> (r: bool)
    ensures
        r == spec_is_prime(n as nat),
{
    if n <= 1 {
        return false;
    }
    if n <= 3 {
        assert forall|d: nat| 1 < d < n implies !#[trigger] divides(d, n as nat) by {
            assert(d == 2 && n == 3);
        }
        return true;
    }
    if n % 2 == 0 || n % 3 == 0 {
        if n % 2 == 0 {
            assert(divides(2, n as nat));
        } else {
            assert(divides(3, n as nat));
        }
        return false;
    }
    assert forall|d: nat| 1 < d < 5 implies !#[trigger] divides(d, n as nat) by {
        if d == 4 && divides(d, n as nat) {
            lemma_multiple_shares_divisor(n as nat, d, 2);
        }
    }
    let mut i: u64 = 5;
    while (i as u128) * (i as u128) <= n as u128
        invariant
            5 <= i,
            i % 6 == 5,
            i < n + 6,
            i * i <= u128::MAX,
            n % 2 != 0,
            n % 3 != 0,
            n > 3,
            forall|d: nat| 1 < d < i ==> !#[trigger] divides(d, n as nat),
        decreases n + 6 - i,
    {
        assert(i < n) by (nonlinear_arith)
            requires
                i * i <= n,
                i >= 5,
        ;
        if n % i == 0 || n % (i + 2) == 0 {
            if n % i == 0 {
                assert(divides(i as nat, n as nat));
            } else {
                assert(i + 2 < n) by (nonlinear_arith)
                    requires
                        i * i <= n,
                        i >= 5,
                ;
                assert(divides((i + 2) as nat, n as nat));
            }
            return false;
        }
        proof {
            lemma_wheel_step(n as nat, i as nat);
        }
        assert(i + 6 <= n) by (nonlinear_arith)
            requires
                i * i <= n,
                i >= 5,
        ;
        assert((i + 6) * (i + 6) <= u128::MAX) by (nonlinear_arith)
            requires
                i + 6 <= u64::MAX,
        ;
        i = i + 6;
    }
    assert forall|d: nat| 1 < d < n implies !#[trigger] divides(d, n as nat) by {
        if divides(d, n as nat) && d >= i {
            lemma_cofactor_divides(n as nat, d);
            let q = n as nat / d;
            assert(q < i) by (nonlinear_arith)
                requires
                    d * q == n,
                    d >= i,
                    i * i > n,
            ;
            assert(divides(q, n as nat));
        }
    }
    true
}

/// Numbers tested by one iteration of the prime kernel.
pub const PRIME_CHUNK: u64 = 2000;

/// The number of primes below `m`.
pub open spec fn primes_below(m: nat) -> nat
    decreases m,
{
    if m == 0 {
        0
    } else {
        primes_below((m - 1) as nat) + if spec_is_prime((m - 1) as nat) {
            1nat
        } else {
            0nat
        }
    }
}

/// What the prime kernel returns after `iterations` iterations: the number of
/// primes among the first `iterations` chunks of consecutive integers from 0.
pub open spec fn prime_kernel_value(iterations: nat) -> nat {
    primes_below(iterations * PRIME_CHUNK as nat)
}

proof fn lemma_primes_below_bounded(m: nat)
    ensures
        primes_below(m) <= m,
    decreases m,
{
    if m > 0 {
        lemma_primes_below_bounded((m - 1) as nat);
    }
}

proof fn lemma_primes_below_monotonic(m1: nat, m2: nat)
    requires
        m1 <= m2,
    ensures
        primes_below(m1) <= primes_below(m2),
    decreases m2,
{
    if m1 < m2 {
        lemma_primes_below_monotonic(m1, (m2 - 1) as nat);
    }
}

/// Running the prime kernel longer never finds fewer primes: for positive
/// iteration counts `n1 < n2`, the count for `n2` is at least the count for `n1`.
pub proof fn lemma_prime_kernel_monotonic(n1: nat, n2: nat)
    requires
        0 < n1 < n2,
    ensures
        prime_kernel_value(n1) <= prime_kernel_value(n2),
{
    assert(n1 * PRIME_CHUNK as nat <= n2 * PRIME_CHUNK as nat) by (nonlinear_arith)
        requires
            n1 < n2,
    ;
    lemma_primes_below_monotonic(n1 * PRIME_CHUNK as nat, n2 * PRIME_CHUNK as nat);
}

/// Prime kernel: counts the primes among `0 .. iterations * PRIME_CHUNK`, one
/// chunk of consecutive integers per iteration.
pub fn test_prime(iterations: u64) -> (r: u64)
    requires
        iterations * PRIME_CHUNK <= u64::MAX,
    ensures
        r == prime_kernel_value(iterations as nat),
{
    let mut count: u64 = 0;
    let mut i: u64 = 0;
    while i < iterations
        invariant
            i <= iterations,
            iterations * PRIME_CHUNK <= u64::MAX,
            count == primes_below((i * PRIME_CHUNK) as nat),
        decreases iterations - i,
    {
        assert((i + 1) * PRIME_CHUNK <= iterations * PRIME_CHUNK) by (nonlinear_arith)
            requires
                i < iterations,
        ;
        let mut j: u64 = 0;
        while j < PRIME_CHUNK
            invariant
                i < iterations,
                (i + 1) * PRIME_CHUNK <= u64::MAX,
                j <= PRIME_CHUNK,
                count == primes_below((i * PRIME_CHUNK + j) as nat),
            decreases PRIME_CHUNK - j,
        {
            let n = i * PRIME_CHUNK + j;
            proof {
                lemma_primes_below_bounded(n as nat);
            }
            if is_prime(n) {
                count += 1;
            }
            j += 1;
        }
        i += 1;
    }
    count
}

/// `x` rotated left by `k` bits, for `0 < k < 64`.
pub open spec fn rotl(x: u64, k: u64) -> u64 {
    (x << k) | (x >> (64 - k) as u64)
}

/// `x` rotated right by `k` bits, for `0 < k < 64`.
pub open spec fn rotr(x: u64, k: u64) -> u64 {
    (x >> k) | (x << (64 - k) as u64)
}

fn rotate_left(x: u64, k: u64) -> (r: u64)
    requires
        0 < k < 64,
    ensures
        r == rotl(x, k),
{
    (x << k) | (x >> (64 - k))
}

fn rotate_right(x: u64, k: u64) -> (r: u64)
    requires
        0 < k < 64,
    ensures
        r == rotr(x, k),
{
    (x >> k) | (x << (64 - k))
}

/// Inner rounds of the integer kernel per iteration.
pub const INTEGER_ROUNDS: u64 = 2000;

/// The integer kernel's four state words and its accumulator.
pub struct IntegerState {
    pub a: u64,
    pub b: u64,
    pub c: u64,
    pub d: u64,
    pub sum: u64,
}

/// The integer kernel's state before its first round.
pub open spec fn integer_start() -> IntegerState {
    IntegerState { a: 1, b: 2, c: 3, d: 4, sum: 0 }
}

/// One round of the integer kernel in iteration `i`: multiply, add and rotate
/// the four words in a chain, fold their exclusive or into the accumulator,
/// then swap the outer and the inner pair.
pub open spec fn integer_round(s: IntegerState, i: u64) -> IntegerState {
    let a = rotl(s.a.wrapping_mul(i.wrapping_add(1)), 3);
    let b = rotr(s.b.wrapping_add(a), 2);
    let c = rotl(s.c.wrapping_mul(b), 1);
    let d = rotr(s.d.wrapping_add(c), 3);
    IntegerState { a: d, b: c, c: b, d: a, sum: s.sum.wrapping_add(a ^ b ^ c ^ d) }
}

/// `k` rounds of iteration `i` applied to `s`.
pub open spec fn integer_rounds(s: IntegerState, i: u64, k: nat) -> IntegerState
    decreases k,
{
    if k == 0 {
        s
    } else {
        integer_round(integer_rounds(s, i, (k - 1) as nat), i)
    }
}

/// The integer kernel's state after its first `n` iterations.
pub open spec fn integer_after(n: nat) -> IntegerState
    decreases n,
{
    if n == 0 {
        integer_start()
    } else {
        integer_rounds(integer_after((n - 1) as nat), (n - 1) as u64, INTEGER_ROUNDS as nat)
    }
}

/// Integer kernel: wrap-around multiply, add and rotate over four words that
/// swap places every round, `INTEGER_ROUNDS` rounds per iteration.
pub fn test_integer(iterations: u64) -> (r: u64)
    ensures
        r == integer_after(iterations as nat).sum,
{
    let mut a: u64 = 1;
    let mut b: u64 = 2;
    let mut c: u64 = 3;
    let mut d: u64 = 4;
    let mut sum: u64 = 0;
    let mut i: u64 = 0;
    while i < iterations
        invariant
            i <= iterations,
            integer_after(i as nat) == (IntegerState { a, b, c, d, sum }),
        decreases iterations - i,
    {
        let ghost start = IntegerState { a, b, c, d, sum };
        let mut k: u64 = 0;
        while k < INTEGER_ROUNDS
            invariant
                k <= INTEGER_ROUNDS,
                integer_rounds(start, i, k as nat) == (IntegerState { a, b, c, d, sum }),
            decreases INTEGER_ROUNDS - k,
        {
            let na = rotate_left(a.wrapping_mul(i.wrapping_add(1)), 3);
            let nb = rotate_right(b.wrapping_add(na), 2);
            let nc = rotate_left(c.wrapping_mul(nb), 1);
            let nd = rotate_right(d.wrapping_add(nc), 3);
            sum = sum.wrapping_add(na ^ nb ^ nc ^ nd);
            a = nd;
            b = nc;
            c = nb;
            d = na;
            k += 1;
        }
        i += 1;
    }
    sum
}

#[verifier::external_type_specification]
#[verifier::external_body]
pub struct ExThreadRng(rand::rngs::ThreadRng);

/// Relies on rand::thread_rng: a handle to this thread's generator, seeded by
/// the system; nothing is promised of its state.
pub assume_specification[ rand::thread_rng ]() -> rand::rngs::ThreadRng;

/// Relies on rand::Rng::gen for `u64`: a word drawn from the generator;
/// nothing is promised of its value.
#[verifier::external_body]
fn random_word(rng: &mut ThreadRng) -> u64 {
    rng.gen::<u64>()
}

/// Relies on rand::Rng::gen_range over `0..len`: a value inside the range. It
/// panics on an empty range, which `requires` rules out.
#[verifier::external_body]
fn random_index(rng: &mut ThreadRng, len: usize) -> (r: usize)
    requires
        len > 0,
    ensures
        r < len,
{
    rng.gen_range(0..len)
}

/// Words in the memory kernel's buffer.
pub const MEMORY_BUFFER_LEN: usize = 20_000_000;

/// Random accesses of the memory kernel per iteration.
pub const MEMORY_ROUNDS: u64 = 200;

/// One access of the memory kernel: add the word at `idx` to `sum` with
/// wrap-around and store the new sum at `last`, the index read by the access
/// before.
pub fn memory_step(buf: &mut Vec<u64>, sum: u64, last: usize, idx: usize) -> (r: u64)
    requires
        last < old(buf).len(),
        idx < old(buf).len(),
    ensures
        r == sum.wrapping_add(old(buf)@[idx as int]),
        final(buf)@ == old(buf)@.update(last as int, r),
{
    let r = sum.wrapping_add(buf[idx]);
    buf.set(last, r);
    r
}

/// The memory walk over `indices` from buffer `buf`, running sum `sum` and
/// previous index `last`: each access adds the word at its index to the sum
/// with wrap-around and stores the new sum at the index read just before.
/// Returns the final sum, the last index read and the buffer.
pub open spec fn walk(buf: Seq<u64>, sum: u64, last: usize, indices: Seq<usize>) -> (u64, usize, Seq<u64>)
    decreases indices.len(),
{
    if indices.len() == 0 {
        (sum, last, buf)
    } else {
        let (s, l, b) = walk(buf, sum, last, indices.drop_last());
        let i = indices.last();
        let t = s.wrapping_add(b[i as int]);
        (t, i, b.update(l as int, t))
    }
}

/// Every index of `indices`, and `last`, lies inside a buffer of `len` words.
pub open spec fn walk_in_bounds(len: nat, last: usize, indices: Seq<usize>) -> bool {
    &&& last < len
    &&& forall|t: int| 0 <= t < indices.len() ==> #[trigger] indices[t] < len
}

/// Walking `a` and then `c` is walking `a + c`.
proof fn lemma_walk_concat(buf: Seq<u64>, sum: u64, last: usize, a: Seq<usize>, c: Seq<usize>)
    ensures
        ({
            let (s, l, b) = walk(buf, sum, last, a);
            walk(b, s, l, c)
        }) == walk(buf, sum, last, a + c),
    decreases c.len(),
{
    if c.len() == 0 {
        assert(a + c =~= a);
    } else {
        lemma_walk_concat(buf, sum, last, a, c.drop_last());
        assert((a + c).drop_last() =~= a + c.drop_last());
        assert((a + c).last() == c.last());
    }
}

/// One stretch of the memory walk over the drawn `indices`, starting from
/// the running sum `sum` and the previously read index `last`. Returns the new
/// sum and the last index read.
pub fn memory_round(buf: &mut Vec<u64>, sum: u64, last: usize, indices: &Vec<usize>) -> (r: (u64, usize))
    requires
        walk_in_bounds(old(buf).len() as nat, last, indices@),
    ensures
        (r.0, r.1, final(buf)@) == walk(old(buf)@, sum, last, indices@),
        r.1 < old(buf).len(),
        final(buf).len() == old(buf).len(),
{
    let mut s = sum;
    let mut l = last;
    let mut k: usize = 0;
    while k < indices.len()
        invariant
            k <= indices.len(),
            buf.len() == old(buf).len(),
            walk_in_bounds(old(buf).len() as nat, last, indices@),
            l < buf.len(),
            (s, l, buf@) == walk(old(buf)@, sum, last, indices@.take(k as int)),
        decreases indices.len() - k,
    {
        let idx = indices[k];
        assert(indices@.take(k as int + 1).drop_last() =~= indices@.take(k as int));
        s = memory_step(buf, s, l, idx);
        l = idx;
        k += 1;
    }
    assert(indices@.take(k as int) =~= indices@);
    (s, l)
}

/// Memory kernel over a buffer of `len` random words: `iterations` times
/// `MEMORY_ROUNDS` accesses at uniformly drawn indices, each one writing back
/// at the index of the access before it. Whatever the generator returns, the
/// result is the walk's sum over some buffer of `len` words and some
/// `iterations * MEMORY_ROUNDS` indices inside it; with no iteration it is 0.
pub fn memory_kernel(iterations: u64, len: usize) -> (r: u64)
    requires
        len > 0,
    ensures
        iterations == 0 ==> r == 0,
        exists|init: Seq<u64>, drawn: Seq<usize>|
            init.len() == len && drawn.len() == iterations * MEMORY_ROUNDS && walk_in_bounds(
                len as nat,
                0,
                drawn,
            ) && r == #[trigger] walk(init, 0, 0, drawn).0,
{
    let mut rng = rand::thread_rng();
    let mut buf: Vec<u64> = Vec::with_capacity(len);
    let mut n: usize = 0;
    while n < len
        invariant
            n <= len,
            buf.len() == n,
        decreases len - n,
    {
        buf.push(random_word(&mut rng));
        n += 1;
    }
    let ghost init = buf@;
    let ghost drawn: Seq<usize> = Seq::empty();
    let mut sum: u64 = 0;
    let mut last: usize = 0;
    let mut i: u64 = 0;
    while i < iterations
        invariant
            i <= iterations,
            len > 0,
            init.len() == len,
            buf.len() == len,
            drawn.len() == i * MEMORY_ROUNDS,
            walk_in_bounds(len as nat, 0, drawn),
            (sum, last, buf@) == walk(init, 0, 0, drawn),
            last < len,
            i == 0 ==> sum == 0,
        decreases iterations - i,
    {
        let mut indices: Vec<usize> = Vec::new();
        let mut k: u64 = 0;
        while k < MEMORY_ROUNDS
            invariant
                k <= MEMORY_ROUNDS,
                len > 0,
                indices.len() == k,
                forall|t: int| 0 <= t < indices.len() ==> #[trigger] indices@[t] < len,
            decreases MEMORY_ROUNDS - k,
        {
            indices.push(random_index(&mut rng, len));
            k += 1;
        }
        let ghost before = buf@;
        let r = memory_round(&mut buf, sum, last, &indices);
        proof {
            lemma_walk_concat(init, 0, 0, drawn, indices@);
            assert(walk_in_bounds(len as nat, 0, drawn + indices@)) by {
                assert forall|t: int| 0 <= t < (drawn + indices@).len() implies #[trigger] (drawn
                    + indices@)[t] < len by {
                    if t >= drawn.len() {
                        assert((drawn + indices@)[t] == indices@[t - drawn.len()]);
                    } else {
                        assert((drawn + indices@)[t] == drawn[t]);
                    }
                }
            }
            drawn = drawn + indices@;
            assert(drawn.len() == (i + 1) * MEMORY_ROUNDS) by (nonlinear_arith)
                requires
                    drawn.len() == i * MEMORY_ROUNDS + MEMORY_ROUNDS,
            ;
        }
        sum = r.0;
        last = r.1;
        i += 1;
    }
    assert(sum == walk(init, 0, 0, drawn).0);
    sum
}

/// Memory kernel over a buffer of `MEMORY_BUFFER_LEN` words, large enough that
/// the accesses miss the caches.
pub fn test_memory(iterations: u64) -> (r: u64)
    ensures
        iterations == 0 ==> r == 0,
        exists|init: Seq<u64>, drawn: Seq<usize>|
            init.len() == MEMORY_BUFFER_LEN && drawn.len() == iterations * MEMORY_ROUNDS
                && walk_in_bounds(MEMORY_BUFFER_LEN as nat, 0, drawn) && r == #[trigger] walk(
                init,
                0,
                0,
                drawn,
            ).0,
{
    memory_kernel(iterations, MEMORY_BUFFER_LEN)
}

} // verus!
