//! The source of randomness that chooses the tetrominoes.
use vstd::arithmetic::div_mod::lemma_fundamental_div_mod_converse;
use vstd::prelude::*;

verus! {

/// The state in which the generator starts.
pub const SEED: u32 = 0x12345678;

/// A linear congruential generator.
///
/// One generator serves all games: a new game goes on where the one before it
/// stopped.
#[derive(Clone, Copy, Debug, PartialEq, Eq, Structural)]
pub struct TetrisRng {
    pub state: u32,
}

impl TetrisRng {
    /// The generator after one more number.
    pub open spec fn advanced(self) -> TetrisRng {
        TetrisRng { state: ((self.state * 1103515245 + 12345) % 0x1_0000_0000) as u32 }
    }

    /// The generator after `n` more numbers.
    pub open spec fn after(self, n: nat) -> TetrisRng
        decreases n,
    {
        if n == 0 {
            self
        } else {
            self.after((n - 1) as nat).advanced()
        }
    }

    /// The number that the generator gave last: the upper half of its state.
    pub open spec fn number(self) -> int {
        self.state as int / 0x1_0000
    }

    /// A generator in its first state.
    pub fn new() -> (rng: TetrisRng)
        ensures
            rng.state == SEED,
            rng.state == 0x12345678,
    {
        TetrisRng { state: SEED }
    }

    /// The next number, which is below 65536.
    pub fn next_random(&mut self) -> (number: usize)
        ensures
            *final(self) == old(self).advanced(),
            number == final(self).number(),
            number < 0x1_0000,
    {
        let product: u32 = self.state.wrapping_mul(1103515245);
        let new_state: u32 = product.wrapping_add(12345);
        proof {
            lemma_reduced_step(self.state as int * 1103515245, product as int, new_state as int);
        }
        assert(new_state >> 16 == new_state / 0x1_0000) by (bit_vector);
        self.state = new_state;
        (new_state >> 16) as usize
    }
}

/// A step from a product that is reduced already leads to the reduced sum.
proof fn lemma_reduced_step(wide: int, product: int, state: int)
    requires
        product == wide % 0x1_0000_0000,
        0 <= state < 0x1_0000_0000,
        state == product + 12345 || state == product + 12345 - 0x1_0000_0000,
    ensures
        state == (wide + 12345) % 0x1_0000_0000,
{
    let turns = wide / 0x1_0000_0000;
    assert(wide == 0x1_0000_0000 * turns + product);
    if state == product + 12345 {
        lemma_fundamental_div_mod_converse(wide + 12345, 0x1_0000_0000, turns, state);
    } else {
        lemma_fundamental_div_mod_converse(wide + 12345, 0x1_0000_0000, turns + 1, state);
    }
}

/// The generator that a game draws from; it stays with whoever started the game.
impl tetris_game::RandomGenerator for &mut TetrisRng {
    /// The next number, which is below 65536. The generator behind the reference has
    /// advanced by it, and the reference still leads to that generator.
    fn next_random(&mut self) -> (number: usize)
        ensures
            **final(self) == (**old(self)).advanced(),
            *final(*final(self)) == *final(*old(self)),
            number == (**final(self)).number(),
            number < 0x1_0000,
    {
        (**self).next_random()
    }
}

/// A step is linear: two states that differ by some amount have successors that differ by
/// the factor times as much, up to whole rounds through all states; and the state zero is
/// followed by the increment.
pub proof fn law_step_is_linear(a: TetrisRng, b: TetrisRng)
    ensures
        (1103515245 * (a.state - b.state) - (a.advanced().state - b.advanced().state))
            % 0x1_0000_0000 == 0,
        (TetrisRng { state: 0 }).advanced().state == 12345,
{
    let (wide_a, wide_b) = (a.state * 1103515245 + 12345, b.state * 1103515245 + 12345);
    let turns = wide_a / 0x1_0000_0000 - wide_b / 0x1_0000_0000;
    let rest = 1103515245 * (a.state - b.state) - (a.advanced().state - b.advanced().state);
    assert(rest == turns * 0x1_0000_0000);
    lemma_fundamental_div_mod_converse(rest, 0x1_0000_0000, turns, 0);
}

/// A number is the state without its lower sixteen bits.
pub proof fn law_number_is_the_upper_half(rng: TetrisRng)
    ensures
        0 <= rng.number() < 65536,
        0 <= rng.state - 65536 * rng.number() < 65536,
{
}

/// To draw no number changes nothing, and to draw one more is one more step.
pub proof fn law_steps_follow_each_other(rng: TetrisRng, n: nat)
    ensures
        rng.after(0) == rng,
        rng.after(n + 1) == rng.after(n).advanced(),
{
}

} // verus!
