use taxbit_rec::{Dec, DecodeError, TaxBitRec, TaxBitRecType};

fn dec(mantissa: i128, scale: u32) -> Dec {
    Dec::new(mantissa, scale).unwrap()
}

#[test]
fn test_decode_buy_line() {
    let line = r#""2021-07-01T00:00:00Z","Buy",,,,"1.5","BTC","wallet-1",,,"tx123","""#;
    let rec = TaxBitRec::decode_line(line).unwrap();
    assert_eq!(rec.time, 1625097600000);
    assert_eq!(rec.type_txs, TaxBitRecType::Buy);
    assert_eq!(rec.sent_quantity, None);
    assert_eq!(rec.sent_currency, "");
    assert_eq!(rec.sending_source, "");
    assert_eq!(rec.received_quantity, Some(dec(15, 1)));
    assert_eq!(rec.received_currency, "BTC");
    assert_eq!(rec.receiving_destination, "wallet-1");
    assert_eq!(rec.fee_quantity, None);
    assert_eq!(rec.fee_currency, "");
    assert_eq!(rec.exchange_transaction_id, "tx123");
    assert_eq!(rec.blockchain_transaction_hash, "");
    assert_eq!(rec.get_asset(), "BTC");
}

#[test]
fn test_decode_unknown_label_fails() {
    let line = r#""2021-07-01T00:00:00Z","Unknown Label",,,,"1.5","BTC","wallet-1",,,"tx123","""#;
    assert_eq!(TaxBitRec::decode_line(line), Err(DecodeError::UnknownLabel));
}

#[test]
fn test_decode_empty_quantity_is_absent_not_zero() {
    let line = "2021-07-01T00:00:00Z,Sale,2.5,BTC,src,,,,,,tx1,hash1";
    let rec = TaxBitRec::decode_line(line).unwrap();
    assert_eq!(rec.sent_quantity, Some(dec(25, 1)));
    assert_eq!(rec.received_quantity, None);
    assert_ne!(rec.received_quantity, Some(dec(0, 0)));
    assert_eq!(rec.fee_quantity, None);
}

#[test]
fn test_decode_errors() {
    // wrong field count
    assert_eq!(
        TaxBitRec::decode_line("a,b,c"),
        Err(DecodeError::FieldCount(3))
    );
    // bad timestamp
    assert_eq!(
        TaxBitRec::decode_line("notatime,Buy,,,,1.5,BTC,w,,,t,h"),
        Err(DecodeError::BadTimestamp)
    );
    // bad decimals, by field position
    assert_eq!(
        TaxBitRec::decode_line("2021-07-01T00:00:00Z,Buy,xyz,,,,,,,,t,h"),
        Err(DecodeError::BadDecimal(2))
    );
    assert_eq!(
        TaxBitRec::decode_line("2021-07-01T00:00:00Z,Buy,,,,xyz,,,,,t,h"),
        Err(DecodeError::BadDecimal(5))
    );
    assert_eq!(
        TaxBitRec::decode_line("2021-07-01T00:00:00Z,Buy,,,,,,,xyz,,t,h"),
        Err(DecodeError::BadDecimal(8))
    );
    // unterminated quote
    assert_eq!(
        TaxBitRec::decode_line("\"2021-07-01T00:00:00Z,Buy,,,,,,,,,t,h"),
        Err(DecodeError::Malformed)
    );
    // labels are matched exactly, case-sensitively
    assert_eq!(
        TaxBitRec::decode_line("2021-07-01T00:00:00Z,buy,,,,,,,,,t,h"),
        Err(DecodeError::UnknownLabel)
    );
}

#[test]
fn test_encode_exact_line() {
    let mut rec = TaxBitRec::new();
    rec.time = 1625097600000;
    rec.type_txs = TaxBitRecType::Buy;
    rec.received_quantity = Some(dec(15, 1));
    rec.received_currency = "BTC".to_owned();
    rec.receiving_destination = "wallet-1".to_owned();
    rec.exchange_transaction_id = "tx123".to_owned();
    assert_eq!(
        rec.encode_line(),
        "2021-07-01T00:00:00.000Z,Buy,,,,1.5,BTC,wallet-1,,,tx123,"
    );
}

#[test]
fn test_encode_two_word_labels_kept() {
    let mut rec = TaxBitRec::new();
    rec.type_txs = TaxBitRecType::TransferIn;
    let line = rec.encode_line();
    assert!(line.contains(",Transfer In,"));
    // while the human-readable render uses the one-word debug label
    let shown = rec.to_line();
    assert!(shown.contains(",TransferIn,"));
    rec.type_txs = TaxBitRecType::GiftSent;
    assert!(rec.encode_line().contains(",Gift Send,"));
    assert!(rec.to_line().contains(",GiftSent,"));
}

#[test]
fn test_decode_encode_decode_round_trip() {
    let line = r#""2021-07-01T00:00:00Z","Buy",,,,"1.5","BTC","wallet-1",,,"tx123","""#;
    let first = TaxBitRec::decode_line(line).unwrap();
    let encoded = first.encode_line();
    let second = TaxBitRec::decode_line(&encoded).unwrap();
    assert_eq!(first, second);
}

#[test]
fn test_round_trip_all_kinds() {
    let labels = [
        "Income",
        "Transfer In",
        "Gift Received",
        "Buy",
        "Trade",
        "Sale",
        "Expense",
        "Transfer Out",
        "Gift Send",
        "Unknown",
    ];
    for label in labels {
        let line = format!(
            "1999-12-31T23:59:59.999Z,{},0.100,ETH,src,42,BTC,dst,0.25,USD,id-7,hash-8",
            label
        );
        let first = TaxBitRec::decode_line(&line).unwrap();
        let encoded = first.encode_line();
        let second = TaxBitRec::decode_line(&encoded).unwrap();
        assert_eq!(first, second);
        // exact decimal text is preserved: 0.100 keeps its scale
        assert!(encoded.contains(",0.100,"));
        assert!(encoded.contains(&format!(",{},", label)));
    }
}

#[test]
fn test_decode_timestamp_with_offset_converts_to_utc() {
    let rec = TaxBitRec::decode_line("2021-07-01T02:00:00+02:00,Buy,,,,,,,,,t,h").unwrap();
    assert_eq!(rec.time, 1625097600000);
}

#[test]
fn test_encode_negative_and_scaled_quantities() {
    let mut rec = TaxBitRec::new();
    rec.time = 0;
    rec.type_txs = TaxBitRecType::Sale;
    rec.sent_quantity = Some(dec(-12345, 4));
    rec.sent_currency = "BTC".to_owned();
    let line = rec.encode_line();
    assert_eq!(line, "1970-01-01T00:00:00.000Z,Sale,-1.2345,BTC,,,,,,,,");
    let back = TaxBitRec::decode_line(&line).unwrap();
    assert_eq!(back.sent_quantity, Some(dec(-12345, 4)));
    assert_eq!(back, rec);
}
