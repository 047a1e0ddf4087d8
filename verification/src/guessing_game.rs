//! The guessing game's domain rules: a validated guess value, a randomly
//! drawn secret, and the comparison that decides each round.

use rand::Rng;
use vstd::prelude::*;

verus! {

/// A value guaranteed to lie in the playable range 1..=10.
pub struct Guess {
    value: i32,
}

impl Guess {
    pub closed spec fn spec_value(&self) -> int {
        self.value as int
    }

    /// Accepts only values between 1 and 10; anything else is a caller
    /// error.
    pub fn new(value: i32) -> (g: Guess)
        requires
            1 <= value <= 10,
        ensures
            g.spec_value() == value,
    {
        Guess { value }
    }

    pub fn value(&self) -> (r: i32)
        ensures
            r == self.spec_value(),
    {
        self.value
    }
}

/// Checks a raw input against the playable range, so that any integer can
/// be offered and only valid ones become a `Guess`.
pub fn try_guess(value: i32) -> (r: Option<Guess>)
    ensures
        1 <= value <= 10 ==> (r matches Some(g) && g.spec_value() == value),
        !(1 <= value <= 10) ==> r is None,
{
    if 1 <= value && value <= 10 {
        Some(Guess::new(value))
    } else {
        None
    }
}

/// Relies on rand's `Rng::gen_range`: for the non-empty range `1..=10` it
/// returns a uniformly drawn value between 1 and 10 inclusive.
#[verifier::external_body]
fn draw_secret_value() -> (r: i32)
    ensures
        1 <= r <= 10,
{
    rand::thread_rng().gen_range(1..=10)
}

/// Draws a fresh secret for one game. Nothing is known about which value
/// comes out beyond its range.
pub fn new_secret() -> (g: Guess)
    ensures
        1 <= g.spec_value() <= 10,
{
    let value = draw_secret_value();
    Guess::new(value)
}

/// How one guess compares against the secret.
#[derive(Clone, Copy, Debug, PartialEq, Eq, Structural)]
pub enum GuessOutcome {
    TooSmall,
    TooBig,
    Win,
}

/// Decides one round of the game.
pub fn check_guess(guess: &Guess, secret: &Guess) -> (r: GuessOutcome)
    ensures
        guess.spec_value() < secret.spec_value() ==> r is TooSmall,
        guess.spec_value() > secret.spec_value() ==> r is TooBig,
        guess.spec_value() == secret.spec_value() ==> r is Win,
{
    if guess.value < secret.value {
        GuessOutcome::TooSmall
    } else if guess.value > secret.value {
        GuessOutcome::TooBig
    } else {
        GuessOutcome::Win
    }
}

} // verus!
