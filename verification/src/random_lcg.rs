use vstd::prelude::*;

use vstd::arithmetic::div_mod::lemma_add_mod_noop;
use vstd::arithmetic::div_mod::lemma_mod_bound;
use vstd::arithmetic::div_mod::lemma_mod_sub_multiples_vanish;
use vstd::arithmetic::div_mod::lemma_mod_twice;
use vstd::arithmetic::div_mod::lemma_mul_mod_noop_left;
use vstd::arithmetic::div_mod::lemma_mul_mod_noop_right;
use vstd::arithmetic::div_mod::lemma_small_mod;
use vstd::arithmetic::power2::lemma_pow2_unfold;
use vstd::arithmetic::power2::pow2;
use vstd::wrapping::u64_specs;

use crate::teh_o_error::TehOError;

verus! {

/// Multiplier of the linear congruential seed recurrence.
pub const PRN_MULT: u64 = 6364136223846793005;

/// Increment of the linear congruential seed recurrence.
pub const PRN_ADD: u64 = 1442695040888963407;

/// Stride between the seed sub-streams of consecutive particle histories.
pub const PRN_STRIDE: u64 = 152917;

/// Multiplier of the output permutation applied to an advanced seed.
pub const PRN_OUTPUT_MULT: u64 = 12605985483714917081;

/// The modulus of all seed arithmetic: 2^64.  Seeds advance by an affine
/// recurrence whose wrap-around on overflow is required behaviour, so every
/// operation on seeds is stated modulo this constant.
pub open spec fn seed_modulus() -> int {
    0x1_0000_0000_0000_0000
}

/// The seed one advance after `seed`:
/// `PRN_MULT * seed + PRN_ADD`, modulo 2^64.
pub open spec fn next_seed(seed: u64) -> u64 {
    ((PRN_MULT * seed + PRN_ADD) % seed_modulus()) as u64
}

/// The seed `n` sequential advances after `seed`.
pub open spec fn nth_seed(n: nat, seed: u64) -> u64
    decreases n,
{
    if n == 0 {
        seed
    } else {
        next_seed(nth_seed((n - 1) as nat, seed))
    }
}

/// The output word of one draw: the freshly advanced seed, scrambled by a
/// data-dependent right shift and xor, a multiply modulo 2^64, and one
/// further shift and xor.  The scrambling permutes the output stream
/// without feeding back into the seed recurrence.
pub open spec fn permuted_word(seed: u64) -> u64 {
    let xored = (seed >> (((seed >> 59) + 5) as u64)) ^ seed;
    let scrambled = ((xored * PRN_OUTPUT_MULT) % seed_modulus()) as u64;
    (scrambled >> 43) ^ scrambled
}

/// One advance of the seed recurrence, wrapping modulo 2^64.
fn advance_seed(seed: u64) -> (advanced: u64)
    ensures
        advanced == next_seed(seed),
{
    let advanced = PRN_MULT.wrapping_mul(seed).wrapping_add(PRN_ADD);
    proof {
        lemma_wrapping_mul_add(PRN_MULT, seed, PRN_ADD);
    }
    advanced
}

/// Draw one 64-bit word from the pseudo-random stream.
///
/// The seed is advanced once by the linear congruential recurrence and the
/// returned word is the output permutation of the advanced seed.  The
/// result pair is a function of the entering seed alone: no hidden state
/// takes part in a draw.
pub fn prn_word(seed: &mut u64) -> (word: u64)
    ensures
        *final(seed) == next_seed(*old(seed)),
        word == permuted_word(next_seed(*old(seed))),
{
    let advanced = advance_seed(*seed);
    *seed = advanced;
    assert((advanced >> 59) <= 31) by (bit_vector);
    let shift_amount: u64 = (advanced >> 59) + 5;
    let xored: u64 = (advanced >> shift_amount) ^ advanced;
    let scrambled: u64 = xored.wrapping_mul(PRN_OUTPUT_MULT);
    proof {
        let modulus = seed_modulus();
        assert(scrambled == ((xored * PRN_OUTPUT_MULT) % modulus) as u64) by {
            lemma_small_mod(((xored * PRN_OUTPUT_MULT) % modulus) as nat, modulus as nat);
        };
    }
    (scrambled >> 43) ^ scrambled
}

/// Law: the stream is deterministic.  Two draws that start from the same
/// seed value produce the identical (advanced seed, output word) pair; a
/// draw depends on nothing but the seed it is handed.
pub proof fn lemma_draw_is_deterministic(seed_a: u64, seed_b: u64)
    requires
        seed_a == seed_b,
    ensures
        next_seed(seed_a) == next_seed(seed_b),
        permuted_word(next_seed(seed_a)) == permuted_word(next_seed(seed_b)),
{
}

/// Multiplier of the affine map that `k` sequential advances compose to:
/// `PRN_MULT^k`, modulo 2^64.
pub open spec fn g_coeff(k: nat) -> int
    decreases k,
{
    if k == 0 {
        1
    } else {
        (PRN_MULT * g_coeff((k - 1) as nat)) % seed_modulus()
    }
}

/// Offset of the affine map that `k` sequential advances compose to,
/// modulo 2^64: after `k` advances a seed `s` has become
/// `g_coeff(k) * s + c_coeff(k)`, modulo 2^64.
pub open spec fn c_coeff(k: nat) -> int
    decreases k,
{
    if k == 0 {
        0
    } else {
        (PRN_MULT * c_coeff((k - 1) as nat) + PRN_ADD) % seed_modulus()
    }
}

proof fn lemma_coeff_bounds(k: nat)
    ensures
        0 <= g_coeff(k) < seed_modulus(),
        0 <= c_coeff(k) < seed_modulus(),
{
    if k == 0 {
    } else {
        lemma_mod_bound(PRN_MULT * g_coeff((k - 1) as nat), seed_modulus());
        lemma_mod_bound(PRN_MULT * c_coeff((k - 1) as nat) + PRN_ADD, seed_modulus());
    }
}

/// A wrapping multiply is a multiply modulo 2^64.
proof fn lemma_wrapping_mul_mod(x: u64, y: u64)
    ensures
        u64_specs::wrapping_mul(x, y) as int == (x * y) % seed_modulus(),
{
    lemma_mod_bound(x * y, seed_modulus());
}

/// A wrapping add is an add modulo 2^64.
proof fn lemma_wrapping_add_mod(x: u64, y: u64)
    ensures
        u64_specs::wrapping_add(x, y) as int == (x + y) % seed_modulus(),
{
    let modulus = seed_modulus();
    if x + y <= u64::MAX {
        lemma_small_mod((x + y) as nat, modulus as nat);
    } else {
        lemma_mod_sub_multiples_vanish(x + y, modulus);
        lemma_small_mod((x + y - modulus) as nat, modulus as nat);
    }
}

/// A wrapping multiply followed by a wrapping add of in-range values is
/// the affine expression modulo 2^64.
proof fn lemma_wrapping_mul_add(x: u64, y: u64, z: u64)
    ensures
        u64_specs::wrapping_add(u64_specs::wrapping_mul(x, y), z) as int == (x * y + z)
            % seed_modulus(),
{
    let modulus = seed_modulus();
    let product = u64_specs::wrapping_mul(x, y);
    lemma_wrapping_mul_mod(x, y);
    lemma_wrapping_add_mod(product, z);
    assert(((x * y) % modulus + z) % modulus == (x * y + z) % modulus) by {
        lemma_add_mod_noop(x * y, z as int, modulus);
        lemma_small_mod(z as nat, modulus as nat);
    };
}

/// Advancing a value of the form `(x * s + y) % 2^64` once yields the
/// value of the composed affine form: the multiplier is advanced to
/// `(PRN_MULT * x) % 2^64` and the offset to `(PRN_MULT * y + PRN_ADD) % 2^64`.
proof fn lemma_advance_of_affine(x: int, y: int, s: int)
    ensures
        (PRN_MULT * ((x * s + y) % seed_modulus()) + PRN_ADD) % seed_modulus() == (((PRN_MULT * x)
            % seed_modulus()) * s + ((PRN_MULT * y + PRN_ADD) % seed_modulus())) % seed_modulus(),
{
    let modulus = seed_modulus();
    let multiplier = PRN_MULT as int;
    let addend = PRN_ADD as int;
    assert((multiplier * ((x * s + y) % modulus) + addend) % modulus == (multiplier * (x * s + y)
        + addend) % modulus) by {
        lemma_mul_mod_noop_right(multiplier, x * s + y, modulus);
        lemma_add_mod_noop(multiplier * ((x * s + y) % modulus), addend, modulus);
        lemma_add_mod_noop(multiplier * (x * s + y), addend, modulus);
    };
    assert(multiplier * (x * s + y) + addend == (multiplier * x) * s + (multiplier * y + addend))
        by (nonlinear_arith);
    assert(((multiplier * x) * s + (multiplier * y + addend)) % modulus == (((multiplier * x)
        % modulus) * s + ((multiplier * y + addend) % modulus)) % modulus) by {
        lemma_add_mod_noop((multiplier * x) * s, multiplier * y + addend, modulus);
        lemma_mul_mod_noop_left(multiplier * x, s, modulus);
        lemma_add_mod_noop(((multiplier * x) % modulus) * s, (multiplier * y + addend) % modulus,
            modulus);
        lemma_mod_bound(multiplier * y + addend, modulus);
        lemma_small_mod(((multiplier * y + addend) % modulus) as nat, modulus as nat);
        lemma_mod_twice(((multiplier * x) % modulus) * s, modulus);
    };
}

/// Multiplying a value of the form `(x * s) % 2^64` by a constant and
/// reducing is the same as advancing the multiplier first.
proof fn lemma_mod_mul_assoc(a: int, b: int, s: int)
    ensures
        (a * ((b * s) % seed_modulus())) % seed_modulus() == (((a * b) % seed_modulus()) * s)
            % seed_modulus(),
{
    let modulus = seed_modulus();
    lemma_mul_mod_noop_right(a, b * s, modulus);
    assert(a * (b * s) == (a * b) * s) by (nonlinear_arith);
    lemma_mul_mod_noop_left(a * b, s, modulus);
}

/// The seed after `k` advances is given in closed form by the composed
/// affine map: `nth_seed(k, s) == (g_coeff(k) * s + c_coeff(k)) % 2^64`.
pub proof fn lemma_nth_seed_affine(k: nat, seed: u64)
    ensures
        nth_seed(k, seed) as int == (g_coeff(k) * seed + c_coeff(k)) % seed_modulus(),
    decreases k,
{
    let modulus = seed_modulus();
    if k == 0 {
        lemma_small_mod(seed as nat, modulus as nat);
    } else {
        let prev = (k - 1) as nat;
        lemma_nth_seed_affine(prev, seed);
        lemma_advance_of_affine(g_coeff(prev), c_coeff(prev), seed as int);
    }
}

/// Composing the affine maps of `a` and `b` advances yields the affine
/// map of `a + b` advances: the coefficients multiply and accumulate
/// modulo 2^64.
#[verifier::rlimit(50)]
proof fn lemma_coeff_add(a: nat, b: nat)
    ensures
        g_coeff(a + b) == (g_coeff(b) * g_coeff(a)) % seed_modulus(),
        c_coeff(a + b) == (g_coeff(b) * c_coeff(a) + c_coeff(b)) % seed_modulus(),
    decreases b,
{
    let modulus = seed_modulus();
    lemma_coeff_bounds(a);
    if b == 0 {
        lemma_small_mod(g_coeff(a) as nat, modulus as nat);
        lemma_small_mod(c_coeff(a) as nat, modulus as nat);
        assert(g_coeff(a + 0) == (1 * g_coeff(a)) % modulus);
        assert(c_coeff(a + 0) == (1 * c_coeff(a) + 0) % modulus);
    } else {
        let prev = (b - 1) as nat;
        lemma_coeff_add(a, prev);
        assert(g_coeff(a + b) == (PRN_MULT * g_coeff(a + prev)) % modulus);
        assert(c_coeff(a + b) == (PRN_MULT * c_coeff(a + prev) + PRN_ADD) % modulus);
        lemma_mod_mul_assoc(PRN_MULT as int, g_coeff(prev), g_coeff(a));
        assert(g_coeff(a + b) == (((PRN_MULT * g_coeff(prev)) % modulus) * g_coeff(a)) % modulus);
        assert(g_coeff(b) == (PRN_MULT * g_coeff(prev)) % modulus);
        lemma_advance_of_affine(g_coeff(prev), c_coeff(prev), c_coeff(a));
        assert(c_coeff(a + b) == (((PRN_MULT * g_coeff(prev)) % modulus) * c_coeff(a) + ((PRN_MULT
            * c_coeff(prev) + PRN_ADD) % modulus)) % modulus);
        assert(c_coeff(b) == (PRN_MULT * c_coeff(prev) + PRN_ADD) % modulus);
    }
}

/// Compute, in O(log2(n)) steps, the seed that `n` sequential advances
/// would produce, without performing them.
///
/// The affine recurrence composes in closed form: walking the bits of `n`
/// from least to most significant, the accumulators pick up the composed
/// multiplier and offset of the selected powers of two, and one final
/// affine application maps the starting seed to its `n`-th successor.
/// The result is bit-identical to `n` sequential draws.
#[verifier::rlimit(80)]
pub fn future_seed(n: u64, seed: u64) -> (result: Result<u64, TehOError>)
    ensures
        result == Ok::<u64, TehOError>(nth_seed(n as nat, seed)),
{
    let mut g: u64 = PRN_MULT;
    let mut c: u64 = PRN_ADD;
    let mut g_new: u64 = 1;
    let mut c_new: u64 = 0;
    let mut local_n: u64 = n;

    let ghost mut bit_position: nat = 0;
    let ghost mut consumed: nat = 0;

    proof {
        vstd::arithmetic::power2::lemma2_to64();
        lemma_small_mod(PRN_MULT as nat, seed_modulus() as nat);
        lemma_small_mod(PRN_ADD as nat, seed_modulus() as nat);
        assert(g_coeff(1) == (PRN_MULT * g_coeff(0)) % seed_modulus());
        assert(c_coeff(1) == (PRN_MULT * c_coeff(0) + PRN_ADD) % seed_modulus());
    }

    while local_n > 0
        invariant
            n == consumed + pow2(bit_position) * local_n,
            g as int == g_coeff(pow2(bit_position)),
            c as int == c_coeff(pow2(bit_position)),
            g_new as int == g_coeff(consumed),
            c_new as int == c_coeff(consumed),
        decreases local_n,
    {
        let ghost old_n = local_n;
        let ghost stride = pow2(bit_position);
        let ghost modulus = seed_modulus();

        proof {
            assert(old_n & 1 == old_n % 2) by (bit_vector);
            assert(old_n >> 1u64 == old_n / 2) by (bit_vector);
        }

        if (local_n & 1) > 0 {
            proof {
                lemma_wrapping_mul_mod(g_new, g);
                lemma_wrapping_mul_add(c_new, g, c);
                lemma_coeff_add(consumed, stride);
                assert(g_coeff(consumed) * g_coeff(stride) == g_coeff(stride) * g_coeff(consumed))
                    by (nonlinear_arith);
                assert(c_coeff(consumed) * g_coeff(stride) == g_coeff(stride) * c_coeff(consumed))
                    by (nonlinear_arith);
            }
            g_new = g_new.wrapping_mul(g);
            c_new = c_new.wrapping_mul(g).wrapping_add(c);
            proof {
                consumed = consumed + stride;
                assert(g_new as int == g_coeff(consumed));
                assert(c_new as int == c_coeff(consumed));
            }
        }

        proof {
            lemma_coeff_add(stride, stride);
            lemma_wrapping_add_mod(g, 1);
            lemma_wrapping_mul_mod(c, u64_specs::wrapping_add(g, 1));
            lemma_wrapping_mul_mod(g, g);
            assert((c * (u64_specs::wrapping_add(g, 1) as int)) % modulus == (c * (g + 1))
                % modulus) by {
                lemma_mul_mod_noop_right(c as int, g + 1, modulus);
            };
            assert(c * (g + 1) == g as int * c as int + c as int) by (nonlinear_arith);
            assert(g as int * c as int == g_coeff(stride) * c_coeff(stride));
            lemma_pow2_unfold((bit_position + 1) as nat);
            assert(pow2((bit_position + 1) as nat) == stride + stride);
        }
        c = c.wrapping_mul(g.wrapping_add(1));
        g = g.wrapping_mul(g);

        proof {
            assert(g as int == g_coeff((stride + stride) as nat));
            assert(c as int == c_coeff((stride + stride) as nat));
            let half = old_n / 2;
            let bit = old_n % 2;
            vstd::arithmetic::div_mod::lemma_fundamental_div_mod(old_n as int, 2);
            assert(stride * old_n == (stride + stride) * half + stride * bit) by (nonlinear_arith)
                requires
                    old_n == 2 * half + bit,
            ;
            bit_position = bit_position + 1;
        }
        local_n = local_n >> 1;
    }

    proof {
        assert(pow2(bit_position) * local_n == 0) by (nonlinear_arith)
            requires
                local_n == 0,
        ;
        assert(consumed == n as nat);
        lemma_wrapping_mul_add(g_new, seed, c_new);
        lemma_nth_seed_affine(n as nat, seed);
    }
    Ok(g_new.wrapping_mul(seed).wrapping_add(c_new))
}

/// Law: a skip of `n` is one draw followed by a skip of `n - 1`.  Peeling
/// draws off the front this way shows that `n` sequential draws starting
/// from `seed` land exactly on `nth_seed(n, seed)`, the value `future_seed`
/// computes in closed form.
pub proof fn lemma_nth_seed_peels_first_draw(n: nat, seed: u64)
    requires
        n > 0,
    ensures
        nth_seed(n, seed) == nth_seed((n - 1) as nat, next_seed(seed)),
    decreases n,
{
    if n == 1 {
        assert(nth_seed(1, seed) == next_seed(nth_seed(0, seed)));
        assert(nth_seed(0, next_seed(seed)) == next_seed(seed));
    } else {
        lemma_nth_seed_peels_first_draw((n - 1) as nat, seed);
        assert(nth_seed(n, seed) == next_seed(nth_seed((n - 1) as nat, seed)));
        assert(nth_seed((n - 1) as nat, next_seed(seed)) == next_seed(
            nth_seed((n - 2) as nat, next_seed(seed)),
        ));
    }
}

/// Law: skips compose.  Advancing a seed `a + b` times is advancing it
/// `a` times and then `b` more, so a history's sub-stream may be reached
/// either by one long skip from the master seed or stride by stride from
/// its predecessor.
pub proof fn lemma_nth_seed_adds(a: nat, b: nat, seed: u64)
    ensures
        nth_seed(a + b, seed) == nth_seed(b, nth_seed(a, seed)),
    decreases b,
{
    if b > 0 {
        lemma_nth_seed_adds(a, (b - 1) as nat, seed);
        assert(nth_seed(a + b, seed) == next_seed(nth_seed((a + b - 1) as nat, seed)));
        assert(nth_seed(b, nth_seed(a, seed)) == next_seed(
            nth_seed((b - 1) as nat, nth_seed(a, seed)),
        ));
    }
}

/// Number of advances separating history `index` from the master seed:
/// `index * PRN_STRIDE`, modulo 2^64.
pub open spec fn history_stride_steps(index: u64) -> nat {
    ((index * PRN_STRIDE) % seed_modulus()) as nat
}

/// Seed of the sub-stream owned by history `index`: the master seed
/// advanced `index * PRN_STRIDE` times (modulo 2^64).  Each history
/// thereby starts one stride further along the master stream than its
/// predecessor, which makes a run reproducible under any parallel
/// schedule.
pub fn init_history_seed(index: u64, master_seed: u64) -> (seed: Result<u64, TehOError>)
    ensures
        seed == Ok::<u64, TehOError>(nth_seed(history_stride_steps(index), master_seed)),
{
    proof {
        lemma_wrapping_mul_mod(index, PRN_STRIDE);
    }
    let steps = index.wrapping_mul(PRN_STRIDE);
    future_seed(steps, master_seed)
}

} // verus!
