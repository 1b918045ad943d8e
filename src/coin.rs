use vstd::prelude::*;

verus! {

/// A coin tier.
#[derive(Clone, Copy, PartialEq, Eq, Structural, Debug)]
pub enum SRD5Piece {
    Copper,
    Silver,
    Electrum,
    Gold,
    Platinum,
}

/// A denomination paired with its ratio to the base unit.
///
/// The ratio is the exact fraction `num / den`: the multiplier that turns a
/// quantity of base units into a count of `piece`. For instance a piece worth
/// ten base units has the ratio `1 / 10`.
#[derive(Clone, Copy, PartialEq, Eq, Structural, Debug)]
pub struct BottomRatio {
    pub piece: SRD5Piece,
    pub num: u32,
    pub den: u32,
}

impl BottomRatio {
    pub open spec fn is_positive(self) -> bool {
        self.num > 0 && self.den > 0
    }

    pub fn new(piece: SRD5Piece, num: u32, den: u32) -> (r: Self)
        ensures
            r.piece == piece,
            r.num == num,
            r.den == den,
    {
        BottomRatio { piece, num, den }
    }

    pub fn get_piece(&self) -> (r: &SRD5Piece)
        ensures
            *r == self.piece,
    {
        &self.piece
    }

    /// The ratio as a pair (numerator, denominator).
    pub fn get_ratio(&self) -> (r: (u32, u32))
        ensures
            r == (self.num, self.den),
    {
        (self.num, self.den)
    }
}

/// An amount of one denomination.
#[derive(Clone, Copy, PartialEq, Eq, Structural, Debug)]
pub struct Coin {
    pub piece: SRD5Piece,
    pub value: u64,
}

impl Coin {
    pub fn new(piece: SRD5Piece, value: u64) -> (r: Self)
        ensures
            r.piece == piece,
            r.value == value,
    {
        Coin { piece, value }
    }

    pub fn get_piece(&self) -> (r: &SRD5Piece)
        ensures
            *r == self.piece,
    {
        &self.piece
    }

    pub fn get_value(&self) -> (r: u64)
        ensures
            r == self.value,
    {
        self.value
    }
}

} // verus!
