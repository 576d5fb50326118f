use vstd::prelude::*;
use vstd::string::StrSliceExecFns;

use core::cmp::Ordering;

use crate::dec::{
    dec_cmp, dec_cmp_spec, dec_eq, dec_model_eq, lemma_dec_cmp_transitive, lemma_dec_eq_transitive,
    ord_reverse, Dec, DecModel,
};
use crate::kind::{kind_rank, TaxBitRecType};

verus! {

/// One exchange transaction line. Quantity fields are present exactly when
/// the transaction sends, receives, or is charged that amount; text fields
/// are empty strings when not applicable. `new` yields the all-zero record
/// with kind `Unknown`, a legal "not yet classified" value.
#[derive(Debug)]
pub struct TaxBitRec {
    pub time: i64,
    pub type_txs: TaxBitRecType,
    pub sent_quantity: Option<Dec>,
    pub sent_currency: String,
    pub sending_source: String,
    pub received_quantity: Option<Dec>,
    pub received_currency: String,
    pub receiving_destination: String,
    pub fee_quantity: Option<Dec>,
    pub fee_currency: String,
    pub exchange_transaction_id: String,
    pub blockchain_transaction_hash: String,
}

/// Mathematical model of a record: integers, character sequences, and
/// exact decimal models.
#[verifier::ext_equal]
pub struct RecModel {
    pub time: int,
    pub kind: TaxBitRecType,
    pub sent_quantity: Option<DecModel>,
    pub sent_currency: Seq<char>,
    pub sending_source: Seq<char>,
    pub received_quantity: Option<DecModel>,
    pub received_currency: Seq<char>,
    pub receiving_destination: Seq<char>,
    pub fee_quantity: Option<DecModel>,
    pub fee_currency: Seq<char>,
    pub exchange_transaction_id: Seq<char>,
    pub blockchain_transaction_hash: Seq<char>,
}

pub open spec fn opt_dec_view(o: Option<Dec>) -> Option<DecModel> {
    match o {
        Some(d) => Some(d@),
        None => None,
    }
}

impl View for TaxBitRec {
    type V = RecModel;

    open spec fn view(&self) -> RecModel {
        RecModel {
            time: self.time as int,
            kind: self.type_txs,
            sent_quantity: opt_dec_view(self.sent_quantity),
            sent_currency: self.sent_currency@,
            sending_source: self.sending_source@,
            received_quantity: opt_dec_view(self.received_quantity),
            received_currency: self.received_currency@,
            receiving_destination: self.receiving_destination@,
            fee_quantity: opt_dec_view(self.fee_quantity),
            fee_currency: self.fee_currency@,
            exchange_transaction_id: self.exchange_transaction_id@,
            blockchain_transaction_hash: self.blockchain_transaction_hash@,
        }
    }
}

/// The all-zero record: epoch time 0, kind `Unknown`, no quantities, all
/// text fields empty.
pub open spec fn spec_new_rec() -> RecModel {
    RecModel {
        time: 0,
        kind: TaxBitRecType::Unknown,
        sent_quantity: None,
        sent_currency: Seq::<char>::empty(),
        sending_source: Seq::<char>::empty(),
        received_quantity: None,
        received_currency: Seq::<char>::empty(),
        receiving_destination: Seq::<char>::empty(),
        fee_quantity: None,
        fee_currency: Seq::<char>::empty(),
        exchange_transaction_id: Seq::<char>::empty(),
        blockchain_transaction_hash: Seq::<char>::empty(),
    }
}

// ---------------------------------------------------------------------------
// Field comparators
// ---------------------------------------------------------------------------

/// Three-way comparison of two integers.
pub open spec fn int_cmp(a: int, b: int) -> Ordering {
    if a < b {
        Ordering::Less
    } else if a == b {
        Ordering::Equal
    } else {
        Ordering::Greater
    }
}

/// Lexicographic three-way comparison of two character sequences, by code
/// point.
pub open spec fn str_cmp_spec(a: Seq<char>, b: Seq<char>) -> Ordering
    decreases a.len(),
{
    if a.len() == 0 && b.len() == 0 {
        Ordering::Equal
    } else if a.len() == 0 {
        Ordering::Less
    } else if b.len() == 0 {
        Ordering::Greater
    } else if (a[0] as u32) < (b[0] as u32) {
        Ordering::Less
    } else if (b[0] as u32) < (a[0] as u32) {
        Ordering::Greater
    } else {
        str_cmp_spec(a.skip(1), b.skip(1))
    }
}

/// Optional quantities order with absent below present, and present values
/// by mathematical value.
pub open spec fn opt_dec_cmp_spec(a: Option<DecModel>, b: Option<DecModel>) -> Ordering {
    match (a, b) {
        (None, None) => Ordering::Equal,
        (None, Some(_)) => Ordering::Less,
        (Some(_), None) => Ordering::Greater,
        (Some(x), Some(y)) => dec_cmp_spec(x, y),
    }
}

/// Value equality of optional quantities: both absent, or both present and
/// mathematically equal.
pub open spec fn opt_dec_eq_spec(a: Option<DecModel>, b: Option<DecModel>) -> bool {
    match (a, b) {
        (None, None) => true,
        (Some(x), Some(y)) => dec_model_eq(x, y),
        _ => false,
    }
}

/// First non-equal comparison wins.
pub open spec fn ord_then(o1: Ordering, o2: Ordering) -> Ordering {
    if o1 == Ordering::Equal {
        o2
    } else {
        o1
    }
}

/// The total order over records: lexicographic over the fixed field
/// sequence time, exchange transaction id, blockchain transaction hash,
/// kind, received currency, sent currency, fee currency, receiving
/// destination, sending source, received quantity, sent quantity, fee
/// quantity. The first field where the records differ decides.
pub open spec fn rec_cmp_spec(a: RecModel, b: RecModel) -> Ordering {
    ord_then(
        int_cmp(a.time, b.time),
        ord_then(
            str_cmp_spec(a.exchange_transaction_id, b.exchange_transaction_id),
            ord_then(
                str_cmp_spec(a.blockchain_transaction_hash, b.blockchain_transaction_hash),
                ord_then(
                    int_cmp(kind_rank(a.kind), kind_rank(b.kind)),
                    ord_then(
                        str_cmp_spec(a.received_currency, b.received_currency),
                        ord_then(
                            str_cmp_spec(a.sent_currency, b.sent_currency),
                            ord_then(
                                str_cmp_spec(a.fee_currency, b.fee_currency),
                                ord_then(
                                    str_cmp_spec(a.receiving_destination, b.receiving_destination),
                                    ord_then(
                                        str_cmp_spec(a.sending_source, b.sending_source),
                                        ord_then(
                                            opt_dec_cmp_spec(a.received_quantity, b.received_quantity),
                                            ord_then(
                                                opt_dec_cmp_spec(a.sent_quantity, b.sent_quantity),
                                                opt_dec_cmp_spec(a.fee_quantity, b.fee_quantity),
                                            ),
                                        ),
                                    ),
                                ),
                            ),
                        ),
                    ),
                ),
            ),
        ),
    )
}

/// Structural equality over records: every field pairwise equal, optional
/// quantities both absent or of equal mathematical value.
pub open spec fn rec_eq_spec(a: RecModel, b: RecModel) -> bool {
    &&& a.time == b.time
    &&& a.kind == b.kind
    &&& a.sent_currency == b.sent_currency
    &&& a.sending_source == b.sending_source
    &&& a.received_currency == b.received_currency
    &&& a.receiving_destination == b.receiving_destination
    &&& a.fee_currency == b.fee_currency
    &&& a.exchange_transaction_id == b.exchange_transaction_id
    &&& a.blockchain_transaction_hash == b.blockchain_transaction_hash
    &&& opt_dec_eq_spec(a.sent_quantity, b.sent_quantity)
    &&& opt_dec_eq_spec(a.received_quantity, b.received_quantity)
    &&& opt_dec_eq_spec(a.fee_quantity, b.fee_quantity)
}

/// The four outbound-flavored kinds, whose transactions are about the sent
/// currency.
pub open spec fn is_outbound(k: TaxBitRecType) -> bool {
    k == TaxBitRecType::Expense || k == TaxBitRecType::TransferOut || k == TaxBitRecType::GiftSent
        || k == TaxBitRecType::Sale
}

/// The currency a record is economically about: the sent currency for the
/// outbound-flavored kinds, the received currency for the inbound-flavored
/// ones. Undefined for `Unknown`.
pub open spec fn spec_asset(m: RecModel) -> Seq<char> {
    if is_outbound(m.kind) {
        m.sent_currency
    } else {
        m.received_currency
    }
}

// ---------------------------------------------------------------------------
// String comparison, executable
// ---------------------------------------------------------------------------

/// Lexicographic three-way comparison of two string slices.
pub fn str_cmp(a: &str, b: &str) -> (r: Ordering)
    ensures
        r == str_cmp_spec(a@, b@),
{
    let an = a.unicode_len();
    let bn = b.unicode_len();
    let n = if an < bn { an } else { bn };
    let mut i: usize = 0;
    proof {
        assert(a@.skip(0) =~= a@);
        assert(b@.skip(0) =~= b@);
    }
    while i < n
        invariant
            an == a@.len(),
            bn == b@.len(),
            n == if an < bn { an } else { bn },
            i <= n,
            str_cmp_spec(a@, b@) == str_cmp_spec(a@.skip(i as int), b@.skip(i as int)),
        decreases n - i,
    {
        let ca = a.get_char(i);
        let cb = b.get_char(i);
        proof {
            assert(a@.skip(i as int)[0] == a@[i as int]);
            assert(b@.skip(i as int)[0] == b@[i as int]);
        }
        if (ca as u32) < (cb as u32) {
            return Ordering::Less;
        }
        if (cb as u32) < (ca as u32) {
            return Ordering::Greater;
        }
        proof {
            assert(a@.skip(i as int).skip(1) =~= a@.skip(i as int + 1));
            assert(b@.skip(i as int).skip(1) =~= b@.skip(i as int + 1));
        }
        i = i + 1;
    }
    if an < bn {
        Ordering::Less
    } else if bn < an {
        Ordering::Greater
    } else {
        Ordering::Equal
    }
}

// ---------------------------------------------------------------------------
// Order lemmas, per field type
// ---------------------------------------------------------------------------

/// Distinct characters cast to distinct code points.
proof fn lemma_char_cast_injective(c1: char, c2: char)
    ensures
        (c1 as u32 == c2 as u32) <==> (c1 == c2),
{
    vstd::utf8::char_u32_cast(c1, c1 as u32);
    vstd::utf8::char_u32_cast(c2, c2 as u32);
}

/// Two character sequences compare equal exactly when they are the same
/// sequence.
pub proof fn lemma_str_cmp_eq(a: Seq<char>, b: Seq<char>)
    ensures
        (str_cmp_spec(a, b) == Ordering::Equal) <==> (a == b),
    decreases a.len(),
{
    if a.len() == 0 && b.len() == 0 {
        assert(a =~= b);
    } else if a.len() != 0 && b.len() != 0 && (a[0] as u32) == (b[0] as u32) {
        lemma_char_cast_injective(a[0], b[0]);
        lemma_str_cmp_eq(a.skip(1), b.skip(1));
        if str_cmp_spec(a, b) == Ordering::Equal {
            assert(a.skip(1) == b.skip(1));
            assert forall|i: int| 0 <= i < a.len() implies a[i] == b[i] by {
                if i > 0 {
                    assert(a[i] == a.skip(1)[i - 1]);
                    assert(b[i] == b.skip(1)[i - 1]);
                }
            }
            assert(a.skip(1).len() == b.skip(1).len());
            assert(a =~= b);
        }
        if a == b {
            assert(a.skip(1) =~= b.skip(1));
        }
    } else {
        assert(str_cmp_spec(a, b) != Ordering::Equal);
        assert(a != b);
    }
}

/// Swapping the compared sequences reverses the comparison.
pub proof fn lemma_str_cmp_flip(a: Seq<char>, b: Seq<char>)
    ensures
        str_cmp_spec(b, a) == ord_reverse(str_cmp_spec(a, b)),
    decreases a.len(),
{
    if a.len() != 0 && b.len() != 0 && (a[0] as u32) == (b[0] as u32) {
        lemma_str_cmp_flip(a.skip(1), b.skip(1));
    }
}

/// Lexicographic comparison chains transitively: two non-greater links
/// compose, and stay equal only when both links are equal.
pub proof fn lemma_str_cmp_trans(a: Seq<char>, b: Seq<char>, c: Seq<char>)
    requires
        str_cmp_spec(a, b) != Ordering::Greater,
        str_cmp_spec(b, c) != Ordering::Greater,
    ensures
        str_cmp_spec(a, c) == (if str_cmp_spec(a, b) == Ordering::Equal && str_cmp_spec(b, c)
            == Ordering::Equal {
            Ordering::Equal
        } else {
            Ordering::Less
        }),
    decreases a.len(),
{
    lemma_str_cmp_eq(a, b);
    lemma_str_cmp_eq(b, c);
    lemma_str_cmp_eq(a, c);
    if str_cmp_spec(a, b) == Ordering::Equal {
        // a == b, so comparing a with c is comparing b with c
    } else if str_cmp_spec(b, c) == Ordering::Equal {
        // b == c
    } else {
        // both strictly less
        if a.len() == 0 {
            assert(b.len() != 0);
            assert(c.len() != 0);
        } else {
            assert(b.len() != 0);
            assert(c.len() != 0);
            if (a[0] as u32) == (b[0] as u32) && (b[0] as u32) == (c[0] as u32) {
                lemma_str_cmp_trans(a.skip(1), b.skip(1), c.skip(1));
            }
        }
    }
}

/// Optional-quantity comparison chains transitively in the same way.
pub proof fn lemma_opt_dec_cmp_trans(a: Option<DecModel>, b: Option<DecModel>, c: Option<DecModel>)
    requires
        opt_dec_cmp_spec(a, b) != Ordering::Greater,
        opt_dec_cmp_spec(b, c) != Ordering::Greater,
    ensures
        opt_dec_cmp_spec(a, c) == (if opt_dec_cmp_spec(a, b) == Ordering::Equal && opt_dec_cmp_spec(
            b,
            c,
        ) == Ordering::Equal {
            Ordering::Equal
        } else {
            Ordering::Less
        }),
{
    match (a, b, c) {
        (Some(x), Some(y), Some(z)) => {
            lemma_dec_cmp_transitive(x, y, z);
        },
        _ => {},
    }
}

// ---------------------------------------------------------------------------
// The laws of the total order
// ---------------------------------------------------------------------------

/// The comparison is antisymmetric and total: swapping the records reverses
/// the result, so for any two records exactly one of "less", "equal",
/// "greater" holds; and it ties exactly on structural equality.
pub proof fn lemma_rec_cmp_antisymmetric(a: RecModel, b: RecModel)
    ensures
        rec_cmp_spec(b, a) == ord_reverse(rec_cmp_spec(a, b)),
        (rec_cmp_spec(a, b) == Ordering::Equal) <==> rec_eq_spec(a, b),
{
    lemma_str_cmp_flip(a.exchange_transaction_id, b.exchange_transaction_id);
    lemma_str_cmp_flip(a.blockchain_transaction_hash, b.blockchain_transaction_hash);
    lemma_str_cmp_flip(a.received_currency, b.received_currency);
    lemma_str_cmp_flip(a.sent_currency, b.sent_currency);
    lemma_str_cmp_flip(a.fee_currency, b.fee_currency);
    lemma_str_cmp_flip(a.receiving_destination, b.receiving_destination);
    lemma_str_cmp_flip(a.sending_source, b.sending_source);
    lemma_str_cmp_eq(a.exchange_transaction_id, b.exchange_transaction_id);
    lemma_str_cmp_eq(a.blockchain_transaction_hash, b.blockchain_transaction_hash);
    lemma_str_cmp_eq(a.received_currency, b.received_currency);
    lemma_str_cmp_eq(a.sent_currency, b.sent_currency);
    lemma_str_cmp_eq(a.fee_currency, b.fee_currency);
    lemma_str_cmp_eq(a.receiving_destination, b.receiving_destination);
    lemma_str_cmp_eq(a.sending_source, b.sending_source);
    crate::kind::TaxBitRecType::lemma_rank_injective(a.kind, b.kind);
}

/// The comparison is transitive: chaining two non-greater comparisons never
/// climbs, and stays equal only when both links tie.
pub proof fn lemma_rec_cmp_transitive(a: RecModel, b: RecModel, c: RecModel)
    requires
        rec_cmp_spec(a, b) != Ordering::Greater,
        rec_cmp_spec(b, c) != Ordering::Greater,
    ensures
        rec_cmp_spec(a, c) == (if rec_cmp_spec(a, b) == Ordering::Equal && rec_cmp_spec(b, c)
            == Ordering::Equal {
            Ordering::Equal
        } else {
            Ordering::Less
        }),
{
    if a.time == b.time && b.time == c.time {
        lemma_str_cmp_trans(a.exchange_transaction_id, b.exchange_transaction_id, c.exchange_transaction_id);
        if a.exchange_transaction_id == b.exchange_transaction_id && b.exchange_transaction_id
            == c.exchange_transaction_id {
        }
        lemma_str_cmp_eq(a.exchange_transaction_id, b.exchange_transaction_id);
        lemma_str_cmp_eq(b.exchange_transaction_id, c.exchange_transaction_id);
        if str_cmp_spec(a.exchange_transaction_id, b.exchange_transaction_id) == Ordering::Equal
            && str_cmp_spec(b.exchange_transaction_id, c.exchange_transaction_id)
            == Ordering::Equal {
            lemma_str_cmp_trans(
                a.blockchain_transaction_hash,
                b.blockchain_transaction_hash,
                c.blockchain_transaction_hash,
            );
            if str_cmp_spec(a.blockchain_transaction_hash, b.blockchain_transaction_hash)
                == Ordering::Equal && str_cmp_spec(
                b.blockchain_transaction_hash,
                c.blockchain_transaction_hash,
            ) == Ordering::Equal {
                if kind_rank(a.kind) == kind_rank(b.kind) && kind_rank(b.kind) == kind_rank(
                    c.kind,
                ) {
                    lemma_str_cmp_trans(a.received_currency, b.received_currency, c.received_currency);
                    if str_cmp_spec(a.received_currency, b.received_currency) == Ordering::Equal
                        && str_cmp_spec(b.received_currency, c.received_currency)
                        == Ordering::Equal {
                        lemma_str_cmp_trans(a.sent_currency, b.sent_currency, c.sent_currency);
                        if str_cmp_spec(a.sent_currency, b.sent_currency) == Ordering::Equal
                            && str_cmp_spec(b.sent_currency, c.sent_currency) == Ordering::Equal {
                            lemma_str_cmp_trans(a.fee_currency, b.fee_currency, c.fee_currency);
                            if str_cmp_spec(a.fee_currency, b.fee_currency) == Ordering::Equal
                                && str_cmp_spec(b.fee_currency, c.fee_currency)
                                == Ordering::Equal {
                                lemma_str_cmp_trans(
                                    a.receiving_destination,
                                    b.receiving_destination,
                                    c.receiving_destination,
                                );
                                if str_cmp_spec(a.receiving_destination, b.receiving_destination)
                                    == Ordering::Equal && str_cmp_spec(
                                    b.receiving_destination,
                                    c.receiving_destination,
                                ) == Ordering::Equal {
                                    lemma_str_cmp_trans(
                                        a.sending_source,
                                        b.sending_source,
                                        c.sending_source,
                                    );
                                    if str_cmp_spec(a.sending_source, b.sending_source)
                                        == Ordering::Equal && str_cmp_spec(
                                        b.sending_source,
                                        c.sending_source,
                                    ) == Ordering::Equal {
                                        lemma_opt_dec_cmp_trans(
                                            a.received_quantity,
                                            b.received_quantity,
                                            c.received_quantity,
                                        );
                                        if opt_dec_cmp_spec(a.received_quantity, b.received_quantity)
                                            == Ordering::Equal && opt_dec_cmp_spec(
                                            b.received_quantity,
                                            c.received_quantity,
                                        ) == Ordering::Equal {
                                            lemma_opt_dec_cmp_trans(
                                                a.sent_quantity,
                                                b.sent_quantity,
                                                c.sent_quantity,
                                            );
                                            if opt_dec_cmp_spec(a.sent_quantity, b.sent_quantity)
                                                == Ordering::Equal && opt_dec_cmp_spec(
                                                b.sent_quantity,
                                                c.sent_quantity,
                                            ) == Ordering::Equal {
                                                lemma_opt_dec_cmp_trans(
                                                    a.fee_quantity,
                                                    b.fee_quantity,
                                                    c.fee_quantity,
                                                );
                                            }
                                        }
                                    }
                                }
                            }
                        }
                    }
                }
            }
        }
    }
}

/// Construction is deterministic: any two records built as the all-zero
/// record are structurally equal, and their kind is `Unknown`.
pub proof fn lemma_default_deterministic(a: RecModel, b: RecModel)
    requires
        a == spec_new_rec(),
        b == spec_new_rec(),
    ensures
        rec_eq_spec(a, b),
        a.kind == TaxBitRecType::Unknown,
{
}

/// Structural equality is reflexive.
pub proof fn lemma_rec_eq_reflexive(a: RecModel)
    ensures
        rec_eq_spec(a, a),
{
}

/// Structural equality is symmetric.
pub proof fn lemma_rec_eq_symmetric(a: RecModel, b: RecModel)
    ensures
        rec_eq_spec(a, b) == rec_eq_spec(b, a),
{
}

/// Structural equality is transitive.
pub proof fn lemma_rec_eq_transitive(a: RecModel, b: RecModel, c: RecModel)
    requires
        rec_eq_spec(a, b),
        rec_eq_spec(b, c),
    ensures
        rec_eq_spec(a, c),
{
    if a.sent_quantity is Some {
        lemma_dec_eq_transitive(
            a.sent_quantity.unwrap(),
            b.sent_quantity.unwrap(),
            c.sent_quantity.unwrap(),
        );
    }
    if a.received_quantity is Some {
        lemma_dec_eq_transitive(
            a.received_quantity.unwrap(),
            b.received_quantity.unwrap(),
            c.received_quantity.unwrap(),
        );
    }
    if a.fee_quantity is Some {
        lemma_dec_eq_transitive(
            a.fee_quantity.unwrap(),
            b.fee_quantity.unwrap(),
            c.fee_quantity.unwrap(),
        );
    }
}

// ---------------------------------------------------------------------------
// Executable record operations
// ---------------------------------------------------------------------------

fn opt_dec_eq(a: &Option<Dec>, b: &Option<Dec>) -> (r: bool)
    ensures
        r == opt_dec_eq_spec(opt_dec_view(*a), opt_dec_view(*b)),
{
    match (a, b) {
        (None, None) => true,
        (Some(x), Some(y)) => dec_eq(x, y),
        _ => false,
    }
}

fn opt_dec_cmp(a: &Option<Dec>, b: &Option<Dec>) -> (r: Ordering)
    ensures
        r == opt_dec_cmp_spec(opt_dec_view(*a), opt_dec_view(*b)),
{
    match (a, b) {
        (None, None) => Ordering::Equal,
        (None, Some(_)) => Ordering::Less,
        (Some(_), None) => Ordering::Greater,
        (Some(x), Some(y)) => dec_cmp(x, y),
    }
}

impl TaxBitRec {
    /// The all-zero record: the only way to obtain a record without
    /// decoding text. Deterministic and side-effect-free; its kind is
    /// `Unknown`, so it is incomplete rather than erroneous.
    pub fn new() -> (r: TaxBitRec)
        ensures
            r@ == spec_new_rec(),
    {
        let r = TaxBitRec {
            time: 0i64,
            type_txs: TaxBitRecType::Unknown,
            sent_quantity: None,
            sent_currency: String::new(),
            sending_source: String::new(),
            received_quantity: None,
            received_currency: String::new(),
            receiving_destination: String::new(),
            fee_quantity: None,
            fee_currency: String::new(),
            exchange_transaction_id: String::new(),
            blockchain_transaction_hash: String::new(),
        };
        proof {
            assert(r@ =~= spec_new_rec());
        }
        r
    }

    /// The currency this record is economically about. Callers must
    /// classify the record first: the operation is undefined for kind
    /// `Unknown`, a programming-logic error rather than a data condition.
    pub fn get_asset(&self) -> (r: &str)
        requires
            self.type_txs != TaxBitRecType::Unknown,
        ensures
            r@ == spec_asset(self@),
            is_outbound(self@.kind) ==> r@ == self@.sent_currency,
            !is_outbound(self@.kind) ==> r@ == self@.received_currency,
    {
        match self.type_txs {
            TaxBitRecType::Expense
            | TaxBitRecType::TransferOut
            | TaxBitRecType::GiftSent
            | TaxBitRecType::Sale => self.sent_currency.as_str(),
            _ => self.received_currency.as_str(),
        }
    }

    /// Three-way comparison in the total order.
    pub fn cmp(&self, other: &TaxBitRec) -> (r: Ordering)
        ensures
            r == rec_cmp_spec(self@, other@),
    {
        if self.time != other.time {
            return if self.time < other.time {
                Ordering::Less
            } else {
                Ordering::Greater
            };
        }
        let o = str_cmp(self.exchange_transaction_id.as_str(), other.exchange_transaction_id.as_str());
        match o {
            Ordering::Equal => {},
            _ => { return o; },
        }
        let o = str_cmp(
            self.blockchain_transaction_hash.as_str(),
            other.blockchain_transaction_hash.as_str(),
        );
        match o {
            Ordering::Equal => {},
            _ => { return o; },
        }
        let ra = self.type_txs.rank();
        let rb = other.type_txs.rank();
        if ra != rb {
            return if ra < rb {
                Ordering::Less
            } else {
                Ordering::Greater
            };
        }
        let o = str_cmp(self.received_currency.as_str(), other.received_currency.as_str());
        match o {
            Ordering::Equal => {},
            _ => { return o; },
        }
        let o = str_cmp(self.sent_currency.as_str(), other.sent_currency.as_str());
        match o {
            Ordering::Equal => {},
            _ => { return o; },
        }
        let o = str_cmp(self.fee_currency.as_str(), other.fee_currency.as_str());
        match o {
            Ordering::Equal => {},
            _ => { return o; },
        }
        let o = str_cmp(self.receiving_destination.as_str(), other.receiving_destination.as_str());
        match o {
            Ordering::Equal => {},
            _ => { return o; },
        }
        let o = str_cmp(self.sending_source.as_str(), other.sending_source.as_str());
        match o {
            Ordering::Equal => {},
            _ => { return o; },
        }
        let o = opt_dec_cmp(&self.received_quantity, &other.received_quantity);
        match o {
            Ordering::Equal => {},
            _ => { return o; },
        }
        let o = opt_dec_cmp(&self.sent_quantity, &other.sent_quantity);
        match o {
            Ordering::Equal => {},
            _ => { return o; },
        }
        opt_dec_cmp(&self.fee_quantity, &other.fee_quantity)
    }
}

impl Default for TaxBitRec {
    /// Same value as `new`.
    fn default() -> (r: TaxBitRec)
        ensures
            r@ == spec_new_rec(),
    {
        TaxBitRec::new()
    }
}

impl PartialEq for TaxBitRec {
    fn eq(&self, other: &TaxBitRec) -> (r: bool) {
        self.time == other.time && self.type_txs == other.type_txs
            && self.sent_currency == other.sent_currency
            && self.sending_source == other.sending_source
            && self.received_currency == other.received_currency
            && self.receiving_destination == other.receiving_destination
            && self.fee_currency == other.fee_currency
            && self.exchange_transaction_id == other.exchange_transaction_id
            && self.blockchain_transaction_hash == other.blockchain_transaction_hash
            && opt_dec_eq(&self.sent_quantity, &other.sent_quantity)
            && opt_dec_eq(&self.received_quantity, &other.received_quantity)
            && opt_dec_eq(&self.fee_quantity, &other.fee_quantity)
    }
}

impl Eq for TaxBitRec {}

impl vstd::std_specs::cmp::PartialEqSpecImpl for TaxBitRec {
    open spec fn obeys_eq_spec() -> bool {
        true
    }

    open spec fn eq_spec(&self, other: &TaxBitRec) -> bool {
        rec_eq_spec(self@, other@)
    }
}

impl PartialOrd for TaxBitRec {
    fn partial_cmp(&self, other: &TaxBitRec) -> (r: Option<Ordering>) {
        Some(self.cmp(other))
    }
}

impl vstd::std_specs::cmp::PartialOrdSpecImpl for TaxBitRec {
    open spec fn obeys_partial_cmp_spec() -> bool {
        true
    }

    open spec fn partial_cmp_spec(&self, other: &TaxBitRec) -> Option<Ordering> {
        Some(rec_cmp_spec(self@, other@))
    }
}

// ---------------------------------------------------------------------------
// Sorting
// ---------------------------------------------------------------------------

/// The records stand in the total order: no earlier record compares
/// greater than a later one.
pub open spec fn recs_sorted(s: Seq<TaxBitRec>) -> bool {
    forall|a: int, b: int|
        0 <= a < b < s.len() ==> rec_cmp_spec(s[a]@, s[b]@) != Ordering::Greater
}

/// Sorts the records by the total order: the result is sorted and holds
/// exactly the input records. Sorting is reproducible: re-sorting an
/// already-sorted sequence leaves it exactly as it was.
pub fn sort_records(v: &mut Vec<TaxBitRec>)
    ensures
        recs_sorted(final(v)@),
        final(v)@.to_multiset() == old(v)@.to_multiset(),
        recs_sorted(old(v)@) ==> final(v)@ == old(v)@,
{
    broadcast use vstd::seq_lib::group_to_multiset_ensures;

    let ghost orig = v@;
    let n = v.len();
    if n <= 1 {
        return;
    }
    let mut i: usize = 1;
    while i < n
        invariant
            1 <= i <= n,
            n == v@.len(),
            forall|a: int, b: int|
                0 <= a < b < i ==> rec_cmp_spec(v@[a]@, v@[b]@) != Ordering::Greater,
            v@.to_multiset() == orig.to_multiset(),
            recs_sorted(orig) ==> v@ == orig,
        decreases n - i,
    {
        broadcast use vstd::seq_lib::group_to_multiset_ensures;

        let ghost before = v@;
        let mut j: usize = i;
        let mut scanning = true;
        while scanning && j > 0
            invariant
                j <= i < n,
                n == v@.len(),
                v@ == before,
                forall|k: int|
                    j <= k < i ==> rec_cmp_spec(v@[k]@, v@[i as int]@) == Ordering::Greater,
                !scanning ==> j > 0 && rec_cmp_spec(v@[j - 1]@, v@[i as int]@)
                    != Ordering::Greater,
                recs_sorted(orig) ==> j == i,
                recs_sorted(orig) ==> v@ == orig,
            decreases (if scanning { j as int + 1 } else { 0 }),
        {
            let greater = match v[j - 1].cmp(&v[i]) {
                Ordering::Greater => true,
                _ => false,
            };
            if greater {
                j = j - 1;
            } else {
                scanning = false;
            }
        }
        if j < i {
            let x = v.remove(i);
            v.insert(j, x);
            proof {
                let after = v@;
                assert(after == before.remove(i as int).insert(j as int, x));
                before.remove_ensures(i as int);
                before.remove(i as int).insert_ensures(j as int, x);
                // positions below j kept their element, j holds x, and
                // positions in (j, i] hold the element one to the left
                assert(forall|p: int| 0 <= p < j ==> after[p] == before[p]);
                assert(after[j as int] == x);
                assert forall|p: int| j < p <= i implies after[p] == before[p - 1] by {
                    assert(after[p] == before.remove(i as int)[p - 1]);
                };
                assert forall|a: int, b: int|
                    0 <= a < b < i + 1 implies rec_cmp_spec(after[a]@, after[b]@)
                    != Ordering::Greater by {
                    if b < j {
                        // an already-sorted pair
                    } else if a < j && b == j {
                        if a < j - 1 {
                            lemma_rec_cmp_transitive(before[a]@, before[j - 1]@, x@);
                        }
                    } else if a < j && b > j {
                        // both elements kept their relative positions
                    } else if a == j {
                        lemma_rec_cmp_antisymmetric(before[b - 1]@, x@);
                    } else {
                        // a pair of shifted elements, sorted before
                    }
                };
                // permutation: removing and re-inserting the same element
                assert(after.to_multiset() =~= before.to_multiset());
            }
        } else {
            // the element is already in place: it is not below its left
            // neighbor, and the prefix is sorted
            proof {
                assert forall|a: int, b: int|
                    0 <= a < b < i + 1 implies rec_cmp_spec(v@[a]@, v@[b]@)
                    != Ordering::Greater by {
                    if b == i && a < i - 1 {
                        lemma_rec_cmp_transitive(v@[a]@, v@[i - 1]@, v@[i as int]@);
                    }
                };
            }
        }
        i = i + 1;
    }
}

} // verus!
