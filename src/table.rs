use vstd::prelude::*;
use crate::coin::{BottomRatio, Coin, SRD5Piece};

verus! {

/// The only way a conversion fails.
#[derive(Clone, Copy, PartialEq, Eq, Structural, Debug)]
pub enum ConvertError {
    /// The coin's denomination has no entry in the table.
    UnknownDenomination,
}

/// Every ratio is strictly positive and no denomination occurs twice.
pub open spec fn table_wf(s: Seq<BottomRatio>) -> bool {
    &&& forall|i: int| 0 <= i < s.len() ==> (#[trigger] s[i]).is_positive()
    &&& forall|i: int, j: int|
        0 <= i < s.len() && 0 <= j < s.len() && i != j ==> (#[trigger] s[i]).piece
            != (#[trigger] s[j]).piece
}

/// Whether some entry of `s` is for `p`.
pub open spec fn has_piece(s: Seq<BottomRatio>, p: SRD5Piece) -> bool {
    exists|i: int| 0 <= i < s.len() && (#[trigger] s[i]).piece == p
}

/// Where the entry for `p` stands in `s` (meaningful when `has_piece(s, p)`).
pub open spec fn index_of(s: Seq<BottomRatio>, p: SRD5Piece) -> int {
    choose|i: int| 0 <= i < s.len() && (#[trigger] s[i]).piece == p
}

/// The count of `to` that `amount` units of `from` are worth, truncated:
/// `floor(amount / ratio(from) * ratio(to))`, computed exactly.
pub open spec fn scaled(amount: nat, from: BottomRatio, to: BottomRatio) -> nat {
    ((amount * from.den * to.num) / (from.num * to.den) as int) as nat
}

/// `n`, or the largest `u64` where `n` exceeds it.
pub open spec fn saturate(n: nat) -> u64 {
    if n > u64::MAX {
        u64::MAX
    } else {
        n as u64
    }
}

/// The breakdown of `amount` units of `from` over every entry of `s`, in
/// table order.
pub open spec fn converted(s: Seq<BottomRatio>, from: BottomRatio, amount: u64) -> Seq<Coin> {
    Seq::new(
        s.len(),
        |i: int| Coin { piece: s[i].piece, value: saturate(scaled(amount as nat, from, s[i])) },
    )
}

/// An ordered table of denominations and their ratios, fixed once built.
pub struct DenominationTable {
    entries: Vec<BottomRatio>,
}

impl View for DenominationTable {
    type V = Seq<BottomRatio>;

    closed spec fn view(&self) -> Seq<BottomRatio> {
        self.entries@
    }
}

proof fn lemma_product_bound(a: u64, b: u32, c: u32) by (nonlinear_arith)
    ensures
        0 <= a * b <= u128::MAX,
        0 <= a * b * c <= u128::MAX,
        0 <= b * c <= u64::MAX,
{
    assert(a * b <= 0xffff_ffff_ffff_ffffu64 * b);
    assert(a * b * c <= 0xffff_ffff_ffff_ffffu64 * 0xffff_ffffu32 * 0xffff_ffffu32);
}

/// Exact truncating conversion of `amount` units of `from` into units of `to`.
fn scale(amount: u64, from: &BottomRatio, to: &BottomRatio) -> (r: u64)
    requires
        from.is_positive(),
        to.is_positive(),
    ensures
        r == saturate(scaled(amount as nat, *from, *to)),
{
    proof {
        lemma_product_bound(amount, from.den, to.num);
        lemma_product_bound(amount, from.num, to.den);
        assert(from.num * to.den > 0) by (nonlinear_arith)
            requires
                from.num > 0,
                to.den > 0,
        ;
    }
    let n: u128 = (amount as u128) * (from.den as u128) * (to.num as u128);
    let d: u128 = (from.num as u128) * (to.den as u128);
    let q: u128 = n / d;
    if q > u64::MAX as u128 {
        u64::MAX
    } else {
        q as u64
    }
}

impl DenominationTable {
    #[verifier::type_invariant]
    spec fn inv(self) -> bool {
        table_wf(self.entries@)
    }

    /// Builds a table from its entries, in the order given; `None` where a
    /// ratio is zero or a denomination occurs twice.
    pub fn new(entries: Vec<BottomRatio>) -> (r: Option<Self>)
        ensures
            r is Some <==> table_wf(entries@),
            r is Some ==> r->Some_0@ == entries@,
    {
        let n = entries.len();
        let mut i: usize = 0;
        while i < n
            invariant
                n == entries@.len(),
                i <= n,
                table_wf(entries@.take(i as int)),
            decreases n - i,
        {
            let e = entries[i];
            if e.num == 0 || e.den == 0 {
                return None;
            }
            let mut j: usize = 0;
            while j < i
                invariant
                    n == entries@.len(),
                    j <= i < n,
                    e == entries@[i as int],
                    forall|k: int| 0 <= k < j ==> entries@[k].piece != e.piece,
                decreases i - j,
            {
                if entries[j].piece == e.piece {
                    return None;
                }
                j += 1;
            }
            assert(table_wf(entries@.take(i + 1)));
            i += 1;
        }
        assert(entries@.take(n as int) =~= entries@);
        Some(DenominationTable::from_wf(entries))
    }

    /// Builds a table from entries already known to be well formed.
    pub(crate) fn from_wf(entries: Vec<BottomRatio>) -> (t: Self)
        requires
            table_wf(entries@),
        ensures
            t@ == entries@,
    {
        DenominationTable { entries }
    }

    /// The entries in table order.
    pub fn entries(&self) -> (r: &Vec<BottomRatio>)
        ensures
            r@ == self@,
            table_wf(r@),
    {
        proof {
            use_type_invariant(self);
        }
        &self.entries
    }

    fn find(&self, piece: SRD5Piece) -> (r: Option<usize>)
        ensures
            match r {
                Some(i) => i < self@.len() && self@[i as int].piece == piece && index_of(self@, piece) == i,
                None => !has_piece(self@, piece),
            },
    {
        proof {
            use_type_invariant(self);
        }
        let mut i: usize = 0;
        while i < self.entries.len()
            invariant
                i <= self@.len(),
                self@ == self.entries@,
                table_wf(self@),
                forall|k: int| 0 <= k < i ==> self@[k].piece != piece,
            decreases self@.len() - i,
        {
            if self.entries[i].piece == piece {
                proof {
                    assert(has_piece(self@, piece));
                    let c = index_of(self@, piece);
                    assert(self@[c].piece == self@[i as int].piece);
                }
                return Some(i);
            }
            i += 1;
        }
        None
    }

    /// The entry for `piece`.
    pub fn lookup(&self, piece: SRD5Piece) -> (r: Result<BottomRatio, ConvertError>)
        ensures
            match r {
                Ok(e) => has_piece(self@, piece) && e == self@[index_of(self@, piece)],
                Err(err) => !has_piece(self@, piece) && err == ConvertError::UnknownDenomination,
            },
    {
        match self.find(piece) {
            Some(i) => Ok(self.entries[i]),
            None => Err(ConvertError::UnknownDenomination),
        }
    }

    /// Expresses `coin` in every denomination of the table, in table order.
    pub fn convert(&self, coin: Coin) -> (r: Result<Vec<Coin>, ConvertError>)
        ensures
            match r {
                Ok(v) => has_piece(self@, coin.piece) && v@ == converted(
                    self@,
                    self@[index_of(self@, coin.piece)],
                    coin.value,
                ),
                Err(err) => !has_piece(self@, coin.piece) && err
                    == ConvertError::UnknownDenomination,
            },
    {
        proof {
            use_type_invariant(self);
        }
        let from = match self.lookup(coin.piece) {
            Ok(e) => e,
            Err(err) => return Err(err),
        };
        let ghost goal = converted(self@, from, coin.value);
        let mut out: Vec<Coin> = Vec::new();
        let mut i: usize = 0;
        while i < self.entries.len()
            invariant
                i <= self@.len(),
                self@ == self.entries@,
                table_wf(self@),
                from.is_positive(),
                goal == converted(self@, from, coin.value),
                out@ =~= goal.take(i as int),
            decreases self@.len() - i,
        {
            let to = &self.entries[i];
            let value = scale(coin.value, &from, to);
            out.push(Coin { piece: to.piece, value });
            i += 1;
        }
        assert(goal.take(i as int) =~= goal);
        Ok(out)
    }
}

} // verus!
