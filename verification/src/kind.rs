use vstd::prelude::*;

verus! {

/// Classification of one transaction record. `Unknown` is the default,
/// "not yet classified" placeholder; it is deliberately invalid for asset
/// resolution. The declaration sequence is a compatibility contract: it
/// drives the tie-break used when two records share a timestamp and the
/// leading identifier fields.
#[derive(Debug, Clone, Copy, PartialEq, Eq, Structural)]
pub enum TaxBitRecType {
    Income,
    TransferIn,
    GiftReceived,
    Buy,
    Trade,
    Sale,
    Expense,
    TransferOut,
    GiftSent,
    Unknown,
}

/// Position of a kind in the fixed declaration sequence; the tie-break
/// order among kinds.
pub open spec fn kind_rank(k: TaxBitRecType) -> int {
    match k {
        TaxBitRecType::Income => 0,
        TaxBitRecType::TransferIn => 1,
        TaxBitRecType::GiftReceived => 2,
        TaxBitRecType::Buy => 3,
        TaxBitRecType::Trade => 4,
        TaxBitRecType::Sale => 5,
        TaxBitRecType::Expense => 6,
        TaxBitRecType::TransferOut => 7,
        TaxBitRecType::GiftSent => 8,
        TaxBitRecType::Unknown => 9,
    }
}

impl TaxBitRecType {
    /// The rank is injective: it identifies the kind.
    pub proof fn lemma_rank_injective(a: TaxBitRecType, b: TaxBitRecType)
        ensures
            kind_rank(a) == kind_rank(b) <==> a == b,
    {
    }

    pub fn rank(&self) -> (r: u32)
        ensures
            r as int == kind_rank(*self),
    {
        match self {
            TaxBitRecType::Income => 0,
            TaxBitRecType::TransferIn => 1,
            TaxBitRecType::GiftReceived => 2,
            TaxBitRecType::Buy => 3,
            TaxBitRecType::Trade => 4,
            TaxBitRecType::Sale => 5,
            TaxBitRecType::Expense => 6,
            TaxBitRecType::TransferOut => 7,
            TaxBitRecType::GiftSent => 8,
            TaxBitRecType::Unknown => 9,
        }
    }
}

/// The canonical interchange label of a kind: the exact spelling used in
/// exported data (two-word labels included). Part of the compatibility
/// surface; decode matches these labels case-sensitively.
pub open spec fn spec_label(k: TaxBitRecType) -> Seq<char> {
    match k {
        TaxBitRecType::Income => "Income"@,
        TaxBitRecType::TransferIn => "Transfer In"@,
        TaxBitRecType::GiftReceived => "Gift Received"@,
        TaxBitRecType::Buy => "Buy"@,
        TaxBitRecType::Trade => "Trade"@,
        TaxBitRecType::Sale => "Sale"@,
        TaxBitRecType::Expense => "Expense"@,
        TaxBitRecType::TransferOut => "Transfer Out"@,
        TaxBitRecType::GiftSent => "Gift Send"@,
        TaxBitRecType::Unknown => "Unknown"@,
    }
}

/// The one-word debug-style label, used only by the human-readable render.
pub open spec fn spec_debug_label(k: TaxBitRecType) -> Seq<char> {
    match k {
        TaxBitRecType::Income => "Income"@,
        TaxBitRecType::TransferIn => "TransferIn"@,
        TaxBitRecType::GiftReceived => "GiftReceived"@,
        TaxBitRecType::Buy => "Buy"@,
        TaxBitRecType::Trade => "Trade"@,
        TaxBitRecType::Sale => "Sale"@,
        TaxBitRecType::Expense => "Expense"@,
        TaxBitRecType::TransferOut => "TransferOut"@,
        TaxBitRecType::GiftSent => "GiftSent"@,
        TaxBitRecType::Unknown => "Unknown"@,
    }
}

/// The kind whose canonical label is `s`, if any. Unrecognized labels map
/// to `None`; decode turns that into an error, never into `Unknown`.
pub open spec fn spec_kind_of_label(s: Seq<char>) -> Option<TaxBitRecType> {
    if s == spec_label(TaxBitRecType::Income) {
        Some(TaxBitRecType::Income)
    } else if s == spec_label(TaxBitRecType::TransferIn) {
        Some(TaxBitRecType::TransferIn)
    } else if s == spec_label(TaxBitRecType::GiftReceived) {
        Some(TaxBitRecType::GiftReceived)
    } else if s == spec_label(TaxBitRecType::Buy) {
        Some(TaxBitRecType::Buy)
    } else if s == spec_label(TaxBitRecType::Trade) {
        Some(TaxBitRecType::Trade)
    } else if s == spec_label(TaxBitRecType::Sale) {
        Some(TaxBitRecType::Sale)
    } else if s == spec_label(TaxBitRecType::Expense) {
        Some(TaxBitRecType::Expense)
    } else if s == spec_label(TaxBitRecType::TransferOut) {
        Some(TaxBitRecType::TransferOut)
    } else if s == spec_label(TaxBitRecType::GiftSent) {
        Some(TaxBitRecType::GiftSent)
    } else if s == spec_label(TaxBitRecType::Unknown) {
        Some(TaxBitRecType::Unknown)
    } else {
        None
    }
}

/// Decoding a kind's canonical label yields that kind back: the label table
/// is a bijection between the ten kinds and the ten label spellings.
pub proof fn lemma_label_round_trip(k: TaxBitRecType)
    ensures
        spec_kind_of_label(spec_label(k)) == Some(k),
{
    reveal_strlit("Income");
    reveal_strlit("Transfer In");
    reveal_strlit("Gift Received");
    reveal_strlit("Buy");
    reveal_strlit("Trade");
    reveal_strlit("Sale");
    reveal_strlit("Expense");
    reveal_strlit("Transfer Out");
    reveal_strlit("Gift Send");
    reveal_strlit("Unknown");
    assert("Income"@.len() == 6);
    assert("Transfer In"@.len() == 11);
    assert("Gift Received"@.len() == 13);
    assert("Buy"@.len() == 3);
    assert("Trade"@.len() == 5);
    assert("Sale"@.len() == 4);
    assert("Expense"@.len() == 7);
    assert("Transfer Out"@.len() == 12);
    assert("Gift Send"@.len() == 9);
    assert("Unknown"@.len() == 7);
    assert("Expense"@[0] == 'E');
    assert("Unknown"@[0] == 'U');
}

pub fn kind_to_label(k: &TaxBitRecType) -> (r: &'static str)
    ensures
        r@ == spec_label(*k),
{
    match k {
        TaxBitRecType::Income => "Income",
        TaxBitRecType::TransferIn => "Transfer In",
        TaxBitRecType::GiftReceived => "Gift Received",
        TaxBitRecType::Buy => "Buy",
        TaxBitRecType::Trade => "Trade",
        TaxBitRecType::Sale => "Sale",
        TaxBitRecType::Expense => "Expense",
        TaxBitRecType::TransferOut => "Transfer Out",
        TaxBitRecType::GiftSent => "Gift Send",
        TaxBitRecType::Unknown => "Unknown",
    }
}

pub fn kind_to_debug_label(k: &TaxBitRecType) -> (r: &'static str)
    ensures
        r@ == spec_debug_label(*k),
{
    match k {
        TaxBitRecType::Income => "Income",
        TaxBitRecType::TransferIn => "TransferIn",
        TaxBitRecType::GiftReceived => "GiftReceived",
        TaxBitRecType::Buy => "Buy",
        TaxBitRecType::Trade => "Trade",
        TaxBitRecType::Sale => "Sale",
        TaxBitRecType::Expense => "Expense",
        TaxBitRecType::TransferOut => "TransferOut",
        TaxBitRecType::GiftSent => "GiftSent",
        TaxBitRecType::Unknown => "Unknown",
    }
}

pub fn label_to_kind(s: &str) -> (r: Option<TaxBitRecType>)
    ensures
        r == spec_kind_of_label(s@),
{
    if str_eq(s, "Income") {
        Some(TaxBitRecType::Income)
    } else if str_eq(s, "Transfer In") {
        Some(TaxBitRecType::TransferIn)
    } else if str_eq(s, "Gift Received") {
        Some(TaxBitRecType::GiftReceived)
    } else if str_eq(s, "Buy") {
        Some(TaxBitRecType::Buy)
    } else if str_eq(s, "Trade") {
        Some(TaxBitRecType::Trade)
    } else if str_eq(s, "Sale") {
        Some(TaxBitRecType::Sale)
    } else if str_eq(s, "Expense") {
        Some(TaxBitRecType::Expense)
    } else if str_eq(s, "Transfer Out") {
        Some(TaxBitRecType::TransferOut)
    } else if str_eq(s, "Gift Send") {
        Some(TaxBitRecType::GiftSent)
    } else if str_eq(s, "Unknown") {
        Some(TaxBitRecType::Unknown)
    } else {
        None
    }
}

/// Character-for-character equality of two string slices.
pub fn str_eq(a: &str, b: &str) -> (r: bool)
    ensures
        r == (a@ == b@),
{
    let an = a.unicode_len();
    let bn = b.unicode_len();
    if an != bn {
        return false;
    }
    let mut i: usize = 0;
    while i < an
        invariant
            an == a@.len(),
            bn == b@.len(),
            an == bn,
            i <= an,
            forall|j: int| 0 <= j < i ==> a@[j] == b@[j],
        decreases an - i,
    {
        if a.get_char(i) as u32 != b.get_char(i) as u32 {
            proof {
                assert(a@[i as int] != b@[i as int]);
            }
            return false;
        }
        i = i + 1;
    }
    proof {
        assert(a@ =~= b@);
    }
    true
}

} // verus!
