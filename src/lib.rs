//! Conversion of an amount of one coin denomination into equivalent amounts
//! across a table of denominations with fixed exchange ratios.
mod coin;
mod table;
mod srd5;
mod laws;

pub use coin::{BottomRatio, Coin, SRD5Piece};
pub use laws::{lemma_coverage, lemma_monotone, lemma_round_trip, lemma_zero_amount, ratio_ge};
pub use srd5::{lemma_srd5_exhaustive, srd5_entries, SRD5Converter};
pub use table::{
    converted, has_piece, index_of, saturate, scaled, table_wf, ConvertError, DenominationTable,
};
