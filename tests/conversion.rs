use coin_converter::{BottomRatio, Coin, ConvertError, DenominationTable, SRD5Converter, SRD5Piece};

const ALL: [SRD5Piece; 5] = [
    SRD5Piece::Copper,
    SRD5Piece::Silver,
    SRD5Piece::Electrum,
    SRD5Piece::Gold,
    SRD5Piece::Platinum,
];

fn reference_breakdown() -> Vec<Coin> {
    vec![
        Coin::new(SRD5Piece::Copper, 1000),
        Coin::new(SRD5Piece::Silver, 100),
        Coin::new(SRD5Piece::Electrum, 50),
        Coin::new(SRD5Piece::Gold, 10),
        Coin::new(SRD5Piece::Platinum, 1),
    ]
}

#[test]
fn test_platinum_conversion() {
    let out = vec![
        Coin::new(SRD5Piece::Copper, 1000),
        Coin::new(SRD5Piece::Silver, 100),
        Coin::new(SRD5Piece::Electrum, 50),
        Coin::new(SRD5Piece::Gold, 10),
        Coin::new(SRD5Piece::Platinum, 1),
    ];
    assert!(out == SRD5Converter::convert(Coin::new(SRD5Piece::Platinum, 1)));
}

#[test]
fn copper_thousand_gives_same_breakdown() {
    assert_eq!(
        SRD5Converter::convert(Coin::new(SRD5Piece::Copper, 1000)),
        reference_breakdown()
    );
}

#[test]
fn every_equivalent_input_gives_same_breakdown() {
    for c in reference_breakdown() {
        assert_eq!(SRD5Converter::convert(c), reference_breakdown());
    }
}

#[test]
fn zero_copper_gives_all_zero() {
    let out = SRD5Converter::convert(Coin::new(SRD5Piece::Copper, 0));
    assert_eq!(out.len(), 5);
    for c in &out {
        assert_eq!(c.get_value(), 0);
    }
}

#[test]
fn zero_of_any_piece_gives_all_zero() {
    for p in ALL {
        let out = SRD5Converter::convert(Coin::new(p, 0));
        assert!(out.iter().all(|c| c.value == 0));
    }
}

#[test]
fn round_trip_keeps_the_amount() {
    for p in ALL {
        for a in [0u64, 1, 7, 13, 999, 123_456_789, u64::MAX] {
            let out = SRD5Converter::convert(Coin::new(p, a));
            assert!(out.contains(&Coin::new(p, a)));
        }
    }
}

#[test]
fn output_follows_table_order() {
    let out = SRD5Converter::convert(Coin::new(SRD5Piece::Gold, 3));
    let pieces: Vec<SRD5Piece> = out.iter().map(|c| *c.get_piece()).collect();
    assert_eq!(pieces, ALL.to_vec());
}

#[test]
fn cheaper_pieces_never_get_fewer() {
    for p in ALL {
        for a in [1u64, 3, 19, 1234, 99_999] {
            let out = SRD5Converter::convert(Coin::new(p, a));
            for w in out.windows(2) {
                assert!(w[0].value >= w[1].value);
            }
        }
    }
}

#[test]
fn truncates_toward_zero() {
    let out = SRD5Converter::convert(Coin::new(SRD5Piece::Copper, 1999));
    assert_eq!(
        out,
        vec![
            Coin::new(SRD5Piece::Copper, 1999),
            Coin::new(SRD5Piece::Silver, 199),
            Coin::new(SRD5Piece::Electrum, 99),
            Coin::new(SRD5Piece::Gold, 19),
            Coin::new(SRD5Piece::Platinum, 1),
        ]
    );
}

#[test]
fn electrum_in_silver() {
    let out = SRD5Converter::convert(Coin::new(SRD5Piece::Electrum, 3));
    assert_eq!(out[0], Coin::new(SRD5Piece::Copper, 60));
    assert_eq!(out[1], Coin::new(SRD5Piece::Silver, 6));
    assert_eq!(out[3], Coin::new(SRD5Piece::Gold, 0));
}

#[test]
fn largest_amount_saturates() {
    let out = SRD5Converter::convert(Coin::new(SRD5Piece::Platinum, u64::MAX));
    assert_eq!(out[0], Coin::new(SRD5Piece::Copper, u64::MAX));
    assert_eq!(out[4], Coin::new(SRD5Piece::Platinum, u64::MAX));
    let out = SRD5Converter::convert(Coin::new(SRD5Piece::Copper, u64::MAX));
    assert_eq!(out[4].value, u64::MAX / 1000);
}

#[test]
fn unknown_denomination_fails() {
    let table = DenominationTable::new(vec![
        BottomRatio::new(SRD5Piece::Copper, 1, 1),
        BottomRatio::new(SRD5Piece::Gold, 1, 100),
    ])
    .unwrap();
    assert_eq!(
        table.convert(Coin::new(SRD5Piece::Silver, 5)),
        Err(ConvertError::UnknownDenomination)
    );
    assert_eq!(table.lookup(SRD5Piece::Platinum), Err(ConvertError::UnknownDenomination));
}

#[test]
fn caller_table_converts() {
    let table = DenominationTable::new(vec![
        BottomRatio::new(SRD5Piece::Gold, 1, 1),
        BottomRatio::new(SRD5Piece::Copper, 100, 1),
        BottomRatio::new(SRD5Piece::Silver, 3, 2),
    ])
    .unwrap();
    assert_eq!(
        table.convert(Coin::new(SRD5Piece::Gold, 7)),
        Ok(vec![
            Coin::new(SRD5Piece::Gold, 7),
            Coin::new(SRD5Piece::Copper, 700),
            Coin::new(SRD5Piece::Silver, 10),
        ])
    );
    assert_eq!(table.lookup(SRD5Piece::Silver), Ok(BottomRatio::new(SRD5Piece::Silver, 3, 2)));
}

#[test]
fn table_rejects_duplicates_and_zero_ratios() {
    assert!(DenominationTable::new(vec![
        BottomRatio::new(SRD5Piece::Copper, 1, 1),
        BottomRatio::new(SRD5Piece::Copper, 1, 10),
    ])
    .is_none());
    assert!(DenominationTable::new(vec![BottomRatio::new(SRD5Piece::Gold, 0, 1)]).is_none());
    assert!(DenominationTable::new(vec![BottomRatio::new(SRD5Piece::Gold, 1, 0)]).is_none());
    assert!(DenominationTable::new(vec![]).is_some());
}

#[test]
fn default_table_entries() {
    let t = SRD5Converter::table();
    let e = t.entries();
    assert_eq!(e.len(), 5);
    assert_eq!(e[1].get_ratio(), (1, 10));
    assert_eq!(*e[2].get_piece(), SRD5Piece::Electrum);
    assert_eq!(t.lookup(SRD5Piece::Platinum), Ok(BottomRatio::new(SRD5Piece::Platinum, 1, 1000)));
}
