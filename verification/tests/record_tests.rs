use taxbit_rec::{Dec, TaxBitRec, TaxBitRecType};

fn dec(mantissa: i128, scale: u32) -> Dec {
    Dec::new(mantissa, scale).unwrap()
}

#[test]
fn test_new() {
    let tbr = TaxBitRec::new();
    assert_eq!(tbr.type_txs, TaxBitRecType::Unknown);
    assert_eq!(tbr.sent_quantity, None);
    assert_eq!(tbr.sent_currency, "".to_owned());
    assert_eq!(tbr.sending_source, "".to_owned());
    assert_eq!(tbr.received_quantity, None);
    assert_eq!(tbr.received_currency, "".to_owned());
    assert_eq!(tbr.receiving_destination, "".to_owned());
    assert_eq!(tbr.fee_quantity, None);
    assert_eq!(tbr.fee_currency, "".to_owned());
    assert_eq!(tbr.exchange_transaction_id, "".to_owned());
    assert_eq!(tbr.blockchain_transaction_hash, "".to_owned());
}

#[test]
fn test_default() {
    let tbr_default = TaxBitRec::default();
    let tbr_new = TaxBitRec::new();
    assert_eq!(tbr_default, tbr_new);
}

#[test]
fn test_eqne() {
    let mut tbr = TaxBitRec::default();
    let mut tbr_other = TaxBitRec::default();
    assert!(tbr == tbr_other);

    // The order is important so we go though all the paths,
    // so we modifiy the last test first
    tbr.fee_quantity = Some(dec(0, 0));
    tbr_other.fee_quantity = Some(dec(1, 0));
    assert!(tbr != tbr_other);

    tbr.sent_quantity = Some(dec(0, 0));
    tbr_other.sent_quantity = Some(dec(1, 0));
    assert!(tbr != tbr_other);

    tbr.received_quantity = Some(dec(0, 0));
    tbr_other.received_quantity = Some(dec(1, 0));
    assert!(tbr != tbr_other);

    tbr.sending_source = "a".to_owned();
    tbr_other.sending_source = "b".to_owned();
    assert!(tbr != tbr_other);

    tbr.receiving_destination = "a".to_owned();
    tbr_other.receiving_destination = "b".to_owned();
    assert!(tbr != tbr_other);

    tbr.fee_currency = "a".to_owned();
    tbr_other.fee_currency = "b".to_owned();
    assert!(tbr != tbr_other);

    tbr.sent_currency = "a".to_owned();
    tbr_other.sent_currency = "b".to_owned();
    assert!(tbr != tbr_other);

    tbr.received_currency = "a".to_owned();
    tbr_other.received_currency = "b".to_owned();
    assert!(tbr != tbr_other);

    tbr.type_txs = TaxBitRecType::Expense;
    tbr_other.type_txs = TaxBitRecType::Buy;
    assert!(tbr != tbr_other);

    tbr.blockchain_transaction_hash = "a".to_owned();
    tbr_other.blockchain_transaction_hash = "b".to_owned();
    assert!(tbr != tbr_other);

    tbr.exchange_transaction_id = "a".to_owned();
    tbr_other.exchange_transaction_id = "b".to_owned();
    assert!(tbr != tbr_other);

    tbr.time = 0;
    tbr_other.time = 1;
    assert!(tbr != tbr_other);
}

#[test]
fn test_partial_ord() {
    let mut tbr = TaxBitRec::default();
    let mut tbr_other = TaxBitRec::default();

    assert!(tbr <= tbr_other);

    // The order is important so we go though all the paths,
    // so we modifiy the last test first
    tbr.fee_quantity = Some(dec(0, 0));
    tbr_other.fee_quantity = Some(dec(1, 0));
    assert!(tbr < tbr_other);

    tbr.sent_quantity = Some(dec(0, 0));
    tbr_other.sent_quantity = Some(dec(1, 0));
    assert!(tbr < tbr_other);

    tbr.received_quantity = Some(dec(0, 0));
    tbr_other.received_quantity = Some(dec(1, 0));
    assert!(tbr < tbr_other);

    tbr.sending_source = "a".to_owned();
    tbr_other.sending_source = "b".to_owned();
    assert!(tbr < tbr_other);

    tbr.receiving_destination = "a".to_owned();
    tbr_other.receiving_destination = "b".to_owned();
    assert!(tbr < tbr_other);

    tbr.fee_currency = "a".to_owned();
    tbr_other.fee_currency = "b".to_owned();
    assert!(tbr < tbr_other);

    tbr.sent_currency = "a".to_owned();
    tbr_other.sent_currency = "b".to_owned();
    assert!(tbr < tbr_other);

    tbr.received_currency = "a".to_owned();
    tbr_other.received_currency = "b".to_owned();
    assert!(tbr < tbr_other);

    tbr.type_txs = TaxBitRecType::Buy;
    tbr_other.type_txs = TaxBitRecType::Expense;
    assert!(tbr < tbr_other);

    tbr.blockchain_transaction_hash = "a".to_owned();
    tbr_other.blockchain_transaction_hash = "b".to_owned();
    assert!(tbr < tbr_other);

    tbr.exchange_transaction_id = "a".to_owned();
    tbr_other.exchange_transaction_id = "b".to_owned();
    assert!(tbr < tbr_other);

    tbr.time = 0;
    tbr_other.time = 1;
    assert!(tbr < tbr_other);
}

#[test]
fn test_ord() {
    let tbr = TaxBitRec::default();
    let tbr_other = TaxBitRec::default();
    assert_eq!(tbr.cmp(&tbr_other), core::cmp::Ordering::Equal);
}

#[test]
fn test_get_asset() {
    let mut tbr = TaxBitRec::new();

    tbr.type_txs = TaxBitRecType::Expense;
    tbr.sent_currency = "ABC".to_owned();
    assert_eq!(tbr.get_asset(), "ABC");

    tbr.type_txs = TaxBitRecType::TransferOut;
    tbr.sent_currency = "ABC".to_owned();
    assert_eq!(tbr.get_asset(), "ABC");

    tbr.type_txs = TaxBitRecType::GiftSent;
    tbr.sent_currency = "ABC".to_owned();
    assert_eq!(tbr.get_asset(), "ABC");

    tbr.type_txs = TaxBitRecType::Sale;
    tbr.sent_currency = "ABC".to_owned();
    assert_eq!(tbr.get_asset(), "ABC");

    tbr.type_txs = TaxBitRecType::Buy;
    tbr.received_currency = "ABC".to_owned();
    assert_eq!(tbr.get_asset(), "ABC");

    tbr.type_txs = TaxBitRecType::TransferIn;
    tbr.received_currency = "ABC".to_owned();
    assert_eq!(tbr.get_asset(), "ABC");

    tbr.type_txs = TaxBitRecType::Income;
    tbr.received_currency = "ABC".to_owned();
    assert_eq!(tbr.get_asset(), "ABC");

    tbr.type_txs = TaxBitRecType::GiftReceived;
    tbr.received_currency = "ABC".to_owned();
    assert_eq!(tbr.get_asset(), "ABC");

    tbr.type_txs = TaxBitRecType::Trade;
    tbr.received_currency = "ABC".to_owned();
    assert_eq!(tbr.get_asset(), "ABC");
}

#[test]
fn test_fee_zero_sorts_below_fee_one() {
    // Two records identical except the fee quantity: the zero-fee record
    // is strictly less.
    let mut a = TaxBitRec::new();
    a.time = 77;
    a.type_txs = TaxBitRecType::Buy;
    a.received_currency = "BTC".to_owned();
    a.exchange_transaction_id = "tx9".to_owned();
    let mut b = TaxBitRec::new();
    b.time = 77;
    b.type_txs = TaxBitRecType::Buy;
    b.received_currency = "BTC".to_owned();
    b.exchange_transaction_id = "tx9".to_owned();
    a.fee_quantity = Some(dec(0, 0));
    b.fee_quantity = Some(dec(1, 0));
    assert!(a < b);
    assert!(b > a);
    assert_eq!(a.cmp(&b), core::cmp::Ordering::Less);
}

#[test]
fn test_dec_value_equality_across_scales() {
    // 1.5 and 1.50 are the same mathematical value.
    assert_eq!(dec(15, 1), dec(150, 2));
    assert_eq!(dec(0, 0), dec(0, 5));
    assert_ne!(dec(15, 1), dec(151, 2));
}

#[test]
fn test_dec_ordering_across_scales() {
    let mut a = TaxBitRec::new();
    let mut b = TaxBitRec::new();
    // 0.49 < 0.5
    a.fee_quantity = Some(dec(49, 2));
    b.fee_quantity = Some(dec(5, 1));
    assert!(a < b);
    // -1.5 < 0.001
    a.fee_quantity = Some(dec(-15, 1));
    b.fee_quantity = Some(dec(1, 3));
    assert!(a < b);
    // absent < present
    a.fee_quantity = None;
    b.fee_quantity = Some(dec(-1, 0));
    assert!(a < b);
}

#[test]
fn test_dec_new_rejects_out_of_range() {
    assert!(Dec::new(1, 29).is_none());
    assert!(Dec::new(79228162514264337593543950335, 0).is_some());
    assert!(Dec::new(79228162514264337593543950336, 0).is_none());
    assert!(Dec::new(-79228162514264337593543950336, 0).is_none());
}

#[test]
fn test_sort_records() {
    let mk = |time: i64, id: &str| {
        let mut r = TaxBitRec::new();
        r.time = time;
        r.type_txs = TaxBitRecType::Buy;
        r.exchange_transaction_id = id.to_owned();
        r
    };
    let mut v = vec![mk(3, "c"), mk(1, "a"), mk(2, "b"), mk(1, "b")];
    taxbit_rec::sort_records(&mut v);
    assert_eq!(v[0].time, 1);
    assert_eq!(v[0].exchange_transaction_id, "a");
    assert_eq!(v[1].time, 1);
    assert_eq!(v[1].exchange_transaction_id, "b");
    assert_eq!(v[2].time, 2);
    assert_eq!(v[3].time, 3);
    // re-sorting an already-sorted sequence yields the same sequence
    let snapshot: Vec<(i64, String)> = v
        .iter()
        .map(|r| (r.time, r.exchange_transaction_id.clone()))
        .collect();
    taxbit_rec::sort_records(&mut v);
    let again: Vec<(i64, String)> = v
        .iter()
        .map(|r| (r.time, r.exchange_transaction_id.clone()))
        .collect();
    assert_eq!(snapshot, again);
}

#[test]
fn test_sort_is_stable_for_equal_values() {
    // two records that tie in the order (0.5 vs 0.50) keep their relative
    // positions through a sort
    let mut a = TaxBitRec::new();
    a.fee_quantity = Some(dec(5, 1));
    let mut b = TaxBitRec::new();
    b.fee_quantity = Some(dec(50, 2));
    let mut early = TaxBitRec::new();
    early.time = -5;
    let mut v = vec![a, b, early];
    taxbit_rec::sort_records(&mut v);
    assert_eq!(v[0].time, -5);
    assert_eq!(v[1].fee_quantity.unwrap(), dec(5, 1));
    assert_eq!(v[1].fee_quantity.unwrap().mantissa(), 5);
    assert_eq!(v[2].fee_quantity.unwrap().mantissa(), 50);
}
