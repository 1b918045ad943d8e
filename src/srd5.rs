use vstd::prelude::*;
use crate::coin::{BottomRatio, Coin, SRD5Piece};
use crate::table::{converted, has_piece, index_of, table_wf, DenominationTable};

verus! {

/// The default table: Copper 1, Silver 1/10, Electrum 1/20, Gold 1/100,
/// Platinum 1/1000, with Copper as the base unit.
pub open spec fn srd5_entries() -> Seq<BottomRatio> {
    seq![
        BottomRatio { piece: SRD5Piece::Copper, num: 1, den: 1 },
        BottomRatio { piece: SRD5Piece::Silver, num: 1, den: 10 },
        BottomRatio { piece: SRD5Piece::Electrum, num: 1, den: 20 },
        BottomRatio { piece: SRD5Piece::Gold, num: 1, den: 100 },
        BottomRatio { piece: SRD5Piece::Platinum, num: 1, den: 1000 },
    ]
}

/// Every denomination has exactly one entry in the default table.
pub proof fn lemma_srd5_exhaustive(p: SRD5Piece)
    ensures
        table_wf(srd5_entries()),
        has_piece(srd5_entries(), p),
{
    let s = srd5_entries();
    let i: int = match p {
        SRD5Piece::Copper => 0,
        SRD5Piece::Silver => 1,
        SRD5Piece::Electrum => 2,
        SRD5Piece::Gold => 3,
        SRD5Piece::Platinum => 4,
    };
    assert(s[i].piece == p);
}

/// Conversion over the default table.
pub struct SRD5Converter;

impl SRD5Converter {
    /// The default table.
    pub fn table() -> (t: DenominationTable)
        ensures
            t@ == srd5_entries(),
    {
        let entries = vec![
            BottomRatio::new(SRD5Piece::Copper, 1, 1),
            BottomRatio::new(SRD5Piece::Silver, 1, 10),
            BottomRatio::new(SRD5Piece::Electrum, 1, 20),
            BottomRatio::new(SRD5Piece::Gold, 1, 100),
            BottomRatio::new(SRD5Piece::Platinum, 1, 1000),
        ];
        proof {
            assert(entries@ =~= srd5_entries());
            lemma_srd5_exhaustive(SRD5Piece::Copper);
        }
        DenominationTable::from_wf(entries)
    }

    /// Expresses `coin` in every denomination of the default table, in the
    /// order Copper, Silver, Electrum, Gold, Platinum.
    pub fn convert(coin: Coin) -> (r: Vec<Coin>)
        ensures
            r@ == converted(
                srd5_entries(),
                srd5_entries()[index_of(srd5_entries(), coin.piece)],
                coin.value,
            ),
    {
        let t = SRD5Converter::table();
        proof {
            lemma_srd5_exhaustive(coin.piece);
        }
        match t.convert(coin) {
            Ok(v) => v,
            Err(_) => {
                proof {
                    assert(false);
                }
                Vec::new()
            },
        }
    }
}

} // verus!
