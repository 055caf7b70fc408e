//! A fair coin.

use vstd::prelude::*;

verus! {

/// One side of a coin.
#[derive(PartialEq, Eq, Structural, Clone, Copy, Debug)]
pub enum Coin {
    Heads,
    Tails,
}

/// Relies on `rand::random::<bool>`: a fair draw from the thread-local
/// generator. Nothing is promised of the value. The generator's first use
/// panics where the operating system's random source cannot seed it, a
/// condition no argument can rule out.
#[verifier::external_body]
fn random_bool() -> bool {
    rand::random::<bool>()
}

impl Coin {
    /// The character that stands for this side: `H` or `T`.
    pub open spec fn symbol(self) -> char {
        match self {
            Coin::Heads => 'H',
            Coin::Tails => 'T',
        }
    }

    /// The side that a fair draw stands for: heads for `true`, tails for
    /// `false`.
    pub fn from_draw(heads: bool) -> (c: Coin)
        ensures
            c == (if heads {
                Coin::Heads
            } else {
                Coin::Tails
            }),
    {
        if heads {
            Coin::Heads
        } else {
            Coin::Tails
        }
    }

    /// Flips the coin: heads or tails, each with probability one half.
    pub fn flip() -> (c: Coin) {
        Coin::from_draw(random_bool())
    }

    /// The one-character text of this side: `"H"` or `"T"`.
    pub fn to_string(&self) -> (r: String)
        ensures
            r@ == seq![self.symbol()],
    {
        proof {
            reveal_strlit("H");
            reveal_strlit("T");
        }
        match self {
            Coin::Heads => String::from_str("H"),
            Coin::Tails => String::from_str("T"),
        }
    }
}

/// The text of a sequence of flips: one symbol per flip, in order.
pub open spec fn flips_text(flips: Seq<Coin>) -> Seq<char> {
    flips.map_values(|c: Coin| c.symbol())
}

} // verus!
