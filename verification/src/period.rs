//! The course of the generator: it runs through all of its states before it comes back
//! to the first, and gives every number equally often on the way.
use crate::rng::TetrisRng;
use vstd::arithmetic::div_mod::{
    lemma_fundamental_div_mod_converse, lemma_mod_bound, lemma_mod_breakdown,
    lemma_mod_multiples_vanish,
};
use vstd::arithmetic::power2::{lemma2_to64, lemma_pow2_pos, lemma_pow2_unfold, pow2};
use vstd::prelude::*;
use vstd::relations::injective_on;
use vstd::set_lib::{
    lemma_int_range, lemma_len_subset, lemma_map_size, lemma_subset_equality, set_int_range,
};

verus! {

/// How many states the generator has.
pub const STATES: u64 = 0x1_0000_0000;

/// How many different numbers the generator gives.
pub const NUMBERS: u64 = 0x1_0000;

/// Whether `x` can be halved `k` times.
spec fn halves(k: nat, x: int) -> bool
    decreases k,
{
    k == 0 || (x % 2 == 0 && halves((k - 1) as nat, x / 2))
}

/// The power `n` of the factor by which the state is multiplied.
spec fn factor_power(n: nat) -> int
    decreases n,
{
    if n == 0 {
        1
    } else {
        1103515245 * factor_power((n - 1) as nat)
    }
}

/// The sum of the powers below `n` of the factor.
spec fn factor_sum(n: nat) -> int
    decreases n,
{
    if n == 0 {
        0
    } else {
        1103515245 * factor_sum((n - 1) as nat) + 1
    }
}

/// What the state would be after `n` numbers if it could grow without bound.
spec fn unbounded(state: int, n: nat) -> int
    decreases n,
{
    if n == 0 {
        state
    } else {
        1103515245 * unbounded(state, (n - 1) as nat) + 12345
    }
}

/// To halve a number so often is to divide it by that power of two.
proof fn lemma_halves_is_divisible_by_power(k: nat, x: int)
    requires
        0 <= x,
    ensures
        halves(k, x) <==> x % (pow2(k) as int) == 0,
    decreases k,
{
    lemma_pow2_pos(k);
    if k == 0 {
        lemma2_to64();
    } else {
        let less = (k - 1) as nat;
        lemma_pow2_pos(less);
        lemma_pow2_unfold(k);
        lemma_mod_breakdown(x, 2, pow2(less) as int);
        lemma_halves_is_divisible_by_power(less, x / 2);
        assert((x / 2) % (pow2(less) as int) >= 0) by {
            lemma_mod_bound(x / 2, pow2(less) as int);
        }
    }
}

/// To halve a number 32 times is to divide it by the number of states.
proof fn lemma_halves_is_divisible(x: int)
    requires
        0 <= x,
    ensures
        halves(32, x) <==> x % 0x1_0000_0000 == 0,
{
    lemma_halves_is_divisible_by_power(32, x);
    lemma2_to64();
}

/// An odd factor changes nothing about how often a number can be halved.
proof fn lemma_odd_factor(k: nat, x: int, odd: int)
    requires
        odd % 2 == 1,
    ensures
        halves(k, x * odd) == halves(k, x),
    decreases k,
{
    if k > 0 {
        let half = odd / 2;
        assert(x * odd == 2 * (x * half) + x) by (nonlinear_arith)
            requires
                odd == 2 * half + 1,
        ;
        if x % 2 == 0 {
            let y = x / 2;
            assert(x * odd == 2 * (y * odd)) by (nonlinear_arith)
                requires
                    x == 2 * y,
            ;
            lemma_odd_factor((k - 1) as nat, y, odd);
        }
    }
}

proof fn lemma_factor_power_is_one_modulo_four(n: nat)
    ensures
        factor_power(n) % 4 == 1,
    decreases n,
{
    if n > 0 {
        let less = (n - 1) as nat;
        lemma_factor_power_is_one_modulo_four(less);
        assert(factor_power(n) == 4 * (275878811 * factor_power(less)) + factor_power(less));
    }
}

proof fn lemma_factor_sum_has_parity_of_length(n: nat)
    ensures
        factor_sum(n) % 2 == n % 2,
    decreases n,
{
    if n > 0 {
        let less = (n - 1) as nat;
        lemma_factor_sum_has_parity_of_length(less);
        assert(factor_sum(n) == 2 * (551757622 * factor_sum(less)) + (factor_sum(less) + 1));
    }
}

proof fn lemma_factor_sum_is_natural(n: nat)
    ensures
        0 <= factor_sum(n),
    decreases n,
{
    if n > 0 {
        lemma_factor_sum_is_natural((n - 1) as nat);
    }
}

/// A number reduces to a state if it differs from it by a multiple of their number.
proof fn lemma_same_residue(wide: int, state: int)
    requires
        0 <= state < 0x1_0000_0000,
    ensures
        wide % 0x1_0000_0000 == state <==> (wide - state) % 0x1_0000_0000 == 0,
{
    let distance = wide - state;
    if wide % 0x1_0000_0000 == state {
        assert(distance == 0x1_0000_0000 * (wide / 0x1_0000_0000));
        lemma_mod_multiples_vanish(wide / 0x1_0000_0000, 0, 0x1_0000_0000);
    }
    if distance % 0x1_0000_0000 == 0 {
        let turns = distance / 0x1_0000_0000;
        lemma_fundamental_div_mod_converse(wide, 0x1_0000_0000, turns, state);
    }
}

/// A sum of powers in two parts.
proof fn lemma_factor_sum_splits(m: nat, n: nat)
    ensures
        factor_sum(m + n) == factor_power(n) * factor_sum(m) + factor_sum(n),
    decreases n,
{
    if n > 0 {
        let less = (n - 1) as nat;
        lemma_factor_sum_splits(m, less);
        let (p, a, b) = (factor_power(less), factor_sum(m), factor_sum(less));
        assert(1103515245 * (p * a + b) + 1 == (1103515245 * p) * a + (1103515245 * b + 1))
            by (nonlinear_arith);
    }
}

/// The sum of the powers can be halved as often as the number of powers can.
proof fn lemma_factor_sum_halves_like_length(k: nat, n: nat)
    ensures
        halves(k, factor_sum(n)) == halves(k, n as int),
    decreases k,
{
    if k > 0 {
        lemma_factor_sum_has_parity_of_length(n);
        if n % 2 == 0 {
            let m = n / 2;
            let (sum, power) = (factor_sum(m), factor_power(m));
            lemma_factor_sum_splits(m, m);
            lemma_factor_power_is_one_modulo_four(m);
            let odd = (power + 1) / 2;
            assert(factor_sum(n) == 2 * (sum * odd)) by (nonlinear_arith)
                requires
                    factor_sum(n) == power * sum + sum,
                    power + 1 == 2 * odd,
            ;
            lemma_odd_factor((k - 1) as nat, sum, odd);
            lemma_factor_sum_halves_like_length((k - 1) as nat, m);
        }
    }
}

/// How far the state moves in `n` steps, if it could grow without bound.
proof fn lemma_unbounded_distance(state: int, n: nat)
    ensures
        unbounded(state, n) - state == factor_sum(n) * (1103515244 * state + 12345),
    decreases n,
{
    if n > 0 {
        let less = (n - 1) as nat;
        lemma_unbounded_distance(state, less);
        let (sum, step) = (factor_sum(less), 1103515244 * state + 12345);
        assert((1103515245 * sum + 1) * step == 1103515245 * (sum * step) + step)
            by (nonlinear_arith);
    }
}

/// The state is what it would be without bound, reduced.
proof fn lemma_after_is_reduced(rng: TetrisRng, n: nat)
    ensures
        rng.after(n).state == unbounded(rng.state as int, n) % 0x1_0000_0000,
    decreases n,
{
    if n > 0 {
        let less = (n - 1) as nat;
        lemma_after_is_reduced(rng, less);
        let wide = unbounded(rng.state as int, less);
        let (whole, rest) = (wide / 0x1_0000_0000, wide % 0x1_0000_0000);
        assert(1103515245 * wide + 12345 == 0x1_0000_0000 * (1103515245 * whole) + (1103515245
            * rest + 12345));
        lemma_mod_multiples_vanish(
            1103515245 * whole,
            1103515245 * rest + 12345,
            0x1_0000_0000,
        );
    }
}

/// Steps add up.
proof fn lemma_after_adds(rng: TetrisRng, m: nat, n: nat)
    ensures
        rng.after(m).after(n) == rng.after(m + n),
    decreases n,
{
    if n > 0 {
        lemma_after_adds(rng, m, (n - 1) as nat);
    }
}

/// States with the same successor differ by a number whose multiple is divisible by the
/// number of states.
proof fn lemma_equal_successors(high: int, low: int)
    requires
        (high * 1103515245 + 12345) % 0x1_0000_0000 == (low * 1103515245 + 12345) % 0x1_0000_0000,
    ensures
        ((high - low) * 1103515245) % 0x1_0000_0000 == 0,
{
    let (p, q) = (high * 1103515245 + 12345, low * 1103515245 + 12345);
    let turns = p / 0x1_0000_0000 - q / 0x1_0000_0000;
    assert(p - q == 0x1_0000_0000 * turns);
    lemma_mod_multiples_vanish(turns, 0, 0x1_0000_0000);
}

/// Different states have different successors.
pub proof fn law_step_is_one_to_one(a: TetrisRng, b: TetrisRng)
    requires
        a.advanced() == b.advanced(),
    ensures
        a == b,
{
    let (high, low) = if a.state >= b.state {
        (a.state as int, b.state as int)
    } else {
        (b.state as int, a.state as int)
    };
    let distance = high - low;
    lemma_equal_successors(high, low);
    lemma_odd_factor(32, distance, 1103515245);
    lemma_halves_is_divisible(distance);
    lemma_halves_is_divisible(distance * 1103515245);
}

/// The generator comes back to a state after all its states have been passed, and not
/// before.
pub proof fn law_generator_passes_all_states(rng: TetrisRng, n: nat)
    ensures
        rng.after(n) == rng <==> n % (STATES as nat) == 0,
{
    let state = rng.state as int;
    let (sum, step) = (factor_sum(n), 1103515244 * state + 12345);
    lemma_after_is_reduced(rng, n);
    lemma_unbounded_distance(state, n);
    lemma_odd_factor(32, sum, step);
    lemma_factor_sum_halves_like_length(32, n);
    lemma_factor_sum_is_natural(n);
    assert(0 <= sum * step) by (nonlinear_arith)
        requires
            0 <= sum,
            0 <= step,
    ;
    lemma_halves_is_divisible(sum * step);
    lemma_halves_is_divisible(n as int);
    lemma_same_residue(unbounded(state, n), state);
}

/// The states that come after `rng`, by how many numbers are drawn.
spec fn course(rng: TetrisRng) -> spec_fn(int) -> int {
    |n: int| rng.after(n as nat).state as int
}

/// No state comes twice among as many as there are.
proof fn lemma_course_repeats_nothing(rng: TetrisRng, m: int, n: int)
    requires
        1 <= m < n <= STATES,
    ensures
        course(rng)(m) != course(rng)(n),
{
    lemma_after_adds(rng, m as nat, (n - m) as nat);
    law_generator_passes_all_states(rng.after(m as nat), (n - m) as nat);
}

/// Every state comes among as many as there are.
proof fn lemma_course_reaches_every_state(rng: TetrisRng)
    ensures
        set_int_range(1, STATES + 1).map(course(rng)) == set_int_range(0, STATES as int),
        injective_on(course(rng), set_int_range(1, STATES + 1)),
{
    let draws = set_int_range(1, STATES + 1);
    let states = set_int_range(0, STATES as int);
    let reached = draws.map(course(rng));
    assert forall|m: int, n: int|
        draws.contains(m) && draws.contains(n) && #[trigger] course(rng)(m) == #[trigger] course(
            rng,
        )(n) implies m == n by {
        if m < n {
            lemma_course_repeats_nothing(rng, m, n);
        } else if n < m {
            lemma_course_repeats_nothing(rng, n, m);
        }
    }
    lemma_int_range(1, STATES + 1);
    lemma_int_range(0, STATES as int);
    lemma_map_size(draws, reached, course(rng));
    assert(reached.subset_of(states));
    lemma_subset_equality(reached, states);
}

/// After how many draws, of as many as there are states, `rng` gives `number`.
pub open spec fn draws_of(rng: TetrisRng, number: int) -> Set<int> {
    Set::new(|n: int| 1 <= n <= STATES && rng.after(n as nat).number() == number)
}

/// Every number comes equally often while the generator passes its states.
pub proof fn law_numbers_are_equally_frequent(rng: TetrisRng, number: int)
    requires
        0 <= number < NUMBERS,
    ensures
        draws_of(rng, number).finite(),
        draws_of(rng, number).len() == NUMBERS,
{
    let all = set_int_range(1, STATES + 1);
    let draws = draws_of(rng, number);
    let states = set_int_range(number * NUMBERS, (number + 1) * NUMBERS);
    lemma_course_reaches_every_state(rng);
    lemma_int_range(1, STATES + 1);
    lemma_int_range(number * NUMBERS, (number + 1) * NUMBERS);
    lemma_len_subset(draws, all);
    assert forall|state: int| #[trigger] states.contains(state) implies draws.map(
        course(rng),
    ).contains(state) by {
        assert(set_int_range(0, STATES as int).contains(state));
        let n = choose|n: int| all.contains(n) && course(rng)(n) == state;
        assert(draws.contains(n));
    }
    assert(draws.map(course(rng)) =~= states);
    lemma_map_size(draws, states, course(rng));
}

} // verus!
