use vstd::prelude::*;
use vstd::string::{StrSliceExecFns, StringExecFns};

use core::str::FromStr;

use crate::dec::{Dec, DecModel, MAX_DEC_MANTISSA, MAX_DEC_SCALE};
use crate::kind::{
    kind_to_debug_label, kind_to_label, label_to_kind, lemma_label_round_trip, spec_debug_label,
    spec_kind_of_label, spec_label, TaxBitRecType,
};
use crate::record::{RecModel, TaxBitRec};

verus! {

/// Earliest time a line can carry: 0000-01-01T00:00:00Z in epoch
/// milliseconds. The line format writes four-digit years.
pub const TIME_MS_MIN: i64 = -62167219200000;

/// Latest time a line can carry: 9999-12-31T23:59:59.999Z in epoch
/// milliseconds.
pub const TIME_MS_MAX: i64 = 253402300799999;

/// Why a text line could not be mapped to a record. Decode failures are
/// deterministic functions of malformed input; they are surfaced, never
/// silently defaulted.
#[derive(Debug, Clone, Copy, PartialEq, Eq, Structural)]
pub enum DecodeError {
    /// A quote opened in the line is never closed, or a quoted field is not
    /// followed by a separator.
    Malformed,
    /// The line does not hold exactly twelve fields; carries the count found.
    FieldCount(usize),
    /// The date-and-time field is not a parseable UTC timestamp, or lies
    /// outside the four-digit-year range.
    BadTimestamp,
    /// A quantity field is neither empty nor a parseable decimal; carries
    /// the zero-based field position.
    BadDecimal(usize),
    /// The transaction-type field matches none of the ten known labels.
    UnknownLabel,
}

// ---------------------------------------------------------------------------
// Trusted boundary: timestamp and decimal text
// ---------------------------------------------------------------------------

/// The epoch milliseconds denoted by an RFC 3339 date-time string, if any.
pub uninterp spec fn utc_ms_of(s: Seq<char>) -> Option<i64>;

/// The Z-suffixed UTC rendering, with milliseconds, of an epoch-millisecond
/// time.
pub uninterp spec fn utc_str_of(t: i64) -> Seq<char>;

/// The mantissa and scale denoted by a decimal string, if any.
pub uninterp spec fn dec_of(s: Seq<char>) -> Option<(i128, u32)>;

/// The exact text rendering of the decimal `m / 10^scale`.
pub uninterp spec fn dec_str_of(m: i128, scale: u32) -> Seq<char>;

/// Relies on chrono's `DateTime::parse_from_rfc3339` and
/// `timestamp_millis`: both are pure functions of the characters of `s`
/// alone, and neither panics.
#[verifier::external_body]
fn parse_utc_ms(s: &str) -> (r: Option<i64>)
    ensures
        r == utc_ms_of(s@),
{
    match chrono::DateTime::parse_from_rfc3339(s) {
        Ok(dt) => Some(dt.timestamp_millis()),
        Err(_) => None,
    }
}

/// Relies on chrono's `DateTime::from_timestamp_millis` and
/// `to_rfc3339_opts` with `SecondsFormat::Millis` and a `Z` suffix: for a
/// time in the four-digit-year range the result is a nonempty string of
/// digits and the punctuation `-T:.Z` only (so it holds no comma and no
/// quote), and `parse_from_rfc3339` maps it back to the same millisecond
/// value.
#[verifier::external_body]
fn format_utc_ms(t: i64) -> (r: String)
    requires
        TIME_MS_MIN <= t <= TIME_MS_MAX,
    ensures
        r@ == utc_str_of(t),
        utc_ms_of(r@) == Some(t),
        r@.len() > 0,
        forall|i: int| 0 <= i < r@.len() ==> r@[i] != ',' && r@[i] != '"',
{
    let dt = chrono::DateTime::<chrono::Utc>::from_timestamp_millis(t).unwrap();
    dt.to_rfc3339_opts(chrono::SecondsFormat::Millis, true)
}

/// Relies on rust_decimal's `Decimal::from_str`, `mantissa`, and `scale`:
/// parsing is a pure function of the characters alone, never panics, and a
/// parsed value always has a 96-bit mantissa and a scale of at most 28.
#[verifier::external_body]
fn parse_dec(s: &str) -> (r: Option<(i128, u32)>)
    ensures
        r == dec_of(s@),
        r matches Some(p) ==> -MAX_DEC_MANTISSA <= p.0 <= MAX_DEC_MANTISSA && p.1 <= MAX_DEC_SCALE,
{
    match rust_decimal::Decimal::from_str(s) {
        Ok(d) => Some((d.mantissa(), d.scale())),
        Err(_) => None,
    }
}

/// Relies on rust_decimal's `Decimal::from_i128_with_scale` and its
/// `Display`: for an in-range mantissa and scale the rendering is the exact
/// decimal text (a sign, digits, and at most one point, so nonempty and
/// free of commas and quotes), and `Decimal::from_str` parses it back to
/// the same mantissa and scale.
#[verifier::external_body]
fn format_dec(m: i128, scale: u32) -> (r: String)
    requires
        -MAX_DEC_MANTISSA <= m <= MAX_DEC_MANTISSA,
        scale <= MAX_DEC_SCALE,
    ensures
        r@ == dec_str_of(m, scale),
        dec_of(r@) == Some((m, scale)),
        r@.len() > 0,
        forall|i: int| 0 <= i < r@.len() ==> r@[i] != ',' && r@[i] != '"',
{
    rust_decimal::Decimal::from_i128_with_scale(m, scale).to_string()
}

// ---------------------------------------------------------------------------
// Line splitting
// ---------------------------------------------------------------------------

/// Index of the first occurrence of `c` in `s`, if any.
pub open spec fn spec_find(s: Seq<char>, c: char) -> Option<int>
    decreases s.len(),
{
    if s.len() == 0 {
        None
    } else if s[0] == c {
        Some(0int)
    } else {
        match spec_find(s.skip(1), c) {
            Some(i) => Some(i + 1),
            None => None,
        }
    }
}

/// Where `spec_find` answers, it answers with the first occurrence.
pub proof fn lemma_find_characterize(s: Seq<char>, c: char)
    ensures
        match spec_find(s, c) {
            Some(j) => 0 <= j < s.len() && s[j] == c && forall|i: int| 0 <= i < j ==> s[i] != c,
            None => forall|i: int| 0 <= i < s.len() ==> s[i] != c,
        },
    decreases s.len(),
{
    if s.len() != 0 && s[0] != c {
        lemma_find_characterize(s.skip(1), c);
        match spec_find(s.skip(1), c) {
            Some(j) => {
                assert(s[j + 1] == s.skip(1)[j]);
                assert(forall|i: int| 1 <= i < j + 1 ==> s[i] == s.skip(1)[i - 1]);
            },
            None => {
                assert(forall|i: int| 1 <= i < s.len() ==> s[i] == s.skip(1)[i - 1]);
            },
        }
    }
}

/// The first occurrence determines `spec_find`.
pub proof fn lemma_find_is(s: Seq<char>, c: char, k: int)
    requires
        0 <= k < s.len(),
        s[k] == c,
        forall|i: int| 0 <= i < k ==> s[i] != c,
    ensures
        spec_find(s, c) == Some(k),
{
    lemma_find_characterize(s, c);
    match spec_find(s, c) {
        Some(j) => {
            if j < k {
                assert(s[j] != c);
            }
            if k < j {
                assert(s[k] != c);
            }
        },
        None => {
            assert(s[k] != c);
        },
    }
}

/// `spec_find` misses exactly when the character does not occur.
pub proof fn lemma_find_none(s: Seq<char>, c: char)
    requires
        forall|i: int| 0 <= i < s.len() ==> s[i] != c,
    ensures
        spec_find(s, c) == Option::<int>::None,
{
    lemma_find_characterize(s, c);
    match spec_find(s, c) {
        Some(j) => {
            assert(s[j] != c);
        },
        None => {},
    }
}

/// The fields of a comma-separated line. A field either starts with a
/// quote, in which case it runs to the next quote and must be followed by
/// a separator or the end of the line, or it runs to the next comma.
/// `None` when a quoted field is unterminated or not followed by a
/// separator.
pub open spec fn spec_split(s: Seq<char>) -> Option<Seq<Seq<char>>>
    decreases s.len(),
{
    if s.len() == 0 {
        Some(seq![Seq::<char>::empty()])
    } else if s[0] == '"' {
        let rest = s.skip(1);
        match spec_find(rest, '"') {
            None => None,
            Some(j) => if !(0 <= j < rest.len()) {
                None
            } else {
                let content = rest.take(j);
                let after = rest.skip(j + 1);
                if after.len() == 0 {
                    Some(seq![content])
                } else if after[0] == ',' {
                    match spec_split(after.skip(1)) {
                        None => None,
                        Some(fs) => Some(seq![content] + fs),
                    }
                } else {
                    None
                }
            },
        }
    } else {
        match spec_find(s, ',') {
            None => Some(seq![s]),
            Some(k) => if !(0 <= k < s.len()) {
                None
            } else {
                match spec_split(s.skip(k + 1)) {
                    None => None,
                    Some(fs) => Some(seq![s.take(k)] + fs),
                }
            },
        }
    }
}

/// Fields joined by commas.
pub open spec fn spec_join(fs: Seq<Seq<char>>) -> Seq<char>
    decreases fs.len(),
{
    if fs.len() == 0 {
        Seq::<char>::empty()
    } else if fs.len() == 1 {
        fs[0]
    } else {
        fs[0] + seq![','] + spec_join(fs.skip(1))
    }
}

/// A field that needs no quoting: it holds no separator and no quote.
pub open spec fn field_clean(f: Seq<char>) -> bool {
    forall|i: int| 0 <= i < f.len() ==> f[i] != ',' && f[i] != '"'
}

/// Splitting a line joined from clean fields gives the fields back.
pub proof fn lemma_split_join(fs: Seq<Seq<char>>)
    requires
        fs.len() >= 1,
        forall|i: int| 0 <= i < fs.len() ==> #[trigger] field_clean(fs[i]),
    ensures
        spec_split(spec_join(fs)) == Some(fs),
    decreases fs.len(),
{
    assert(field_clean(fs[0]));
    if fs.len() == 1 {
        let s = spec_join(fs);
        assert(s == fs[0]);
        if s.len() == 0 {
            assert(fs =~~= seq![Seq::<char>::empty()]);
        } else {
            assert(s[0] != '"');
            lemma_find_none(s, ',');
            assert(fs =~= seq![s]);
        }
    } else {
        let s = spec_join(fs);
        let tail = spec_join(fs.skip(1));
        assert(s == fs[0] + seq![','] + tail);
        assert(forall|i: int| 0 <= i < fs.skip(1).len() ==> #[trigger] field_clean(fs.skip(1)[i]));
        lemma_split_join(fs.skip(1));
        let k = fs[0].len() as int;
        assert(s.len() == k + 1 + tail.len());
        assert(s[k] == ',');
        assert(forall|i: int| 0 <= i < k ==> s[i] == fs[0][i]);
        assert(s[0] != '"');
        lemma_find_is(s, ',', k);
        assert(s.take(k) =~= fs[0]);
        assert(s.skip(k + 1) =~= tail);
        assert(seq![fs[0]] + fs.skip(1) =~= fs);
    }
}

/// Sequence views of a vector of strings.
pub open spec fn strs_view(v: Seq<String>) -> Seq<Seq<char>> {
    Seq::new(v.len(), |i: int| v[i]@)
}

/// Splits a line into its fields; `None` on malformed quoting.
fn split_line(s: &str) -> (r: Option<Vec<String>>)
    ensures
        match r {
            Some(v) => spec_split(s@) == Some(strs_view(v@)),
            None => spec_split(s@) is None,
        },
    decreases s@.len(),
{
    let n = s.unicode_len();
    if n == 0 {
        let mut v: Vec<String> = Vec::new();
        v.push(String::new());
        proof {
            assert(strs_view(v@) =~= seq![Seq::<char>::empty()]);
        }
        return Some(v);
    }
    let c0 = s.get_char(0);
    if c0 == '"' {
        let rest_view = Ghost(s@.skip(1));
        match find_char(s, 1, '"') {
            None => {
                proof {
                    assert(forall|i: int| 0 <= i < rest_view@.len() ==> rest_view@[i] == s@[i + 1]);
                    lemma_find_none(rest_view@, '"');
                }
                None
            },
            Some(j) => {
                proof {
                    assert(rest_view@[j - 1] == s@[j as int]);
                    assert(forall|i: int| 0 <= i < j - 1 ==> rest_view@[i] == s@[i + 1]);
                    lemma_find_is(rest_view@, '"', j - 1);
                }
                let content = s.substring_char(1, j);
                proof {
                    assert(content@ =~= rest_view@.take(j - 1));
                }
                if j + 1 == n {
                    proof {
                        assert(rest_view@.skip(j as int).len() == 0);
                    }
                    let mut v: Vec<String> = Vec::new();
                    v.push(content.to_owned());
                    proof {
                        assert(strs_view(v@) =~= seq![rest_view@.take(j - 1)]);
                    }
                    Some(v)
                } else {
                    let sep = s.get_char(j + 1);
                    if sep != ',' {
                        proof {
                            assert(rest_view@.skip(j as int)[0] == s@[j + 1]);
                        }
                        return None;
                    }
                    let tail = s.substring_char(j + 2, n);
                    proof {
                        assert(tail@ =~= rest_view@.skip(j as int).skip(1));
                        assert(rest_view@.skip(j as int)[0] == s@[j + 1]);
                    }
                    match split_line(tail) {
                        None => None,
                        Some(mut v) => {
                            v.insert(0, content.to_owned());
                            proof {
                                assert(strs_view(v@) =~= seq![rest_view@.take(j - 1)] + strs_view(
                                    v@.skip(1),
                                ));
                            }
                            Some(v)
                        },
                    }
                }
            },
        }
    } else {
        match find_char(s, 0, ',') {
            None => {
                proof {
                    lemma_find_none(s@, ',');
                }
                let mut v: Vec<String> = Vec::new();
                v.push(s.to_owned());
                proof {
                    assert(strs_view(v@) =~= seq![s@]);
                }
                Some(v)
            },
            Some(k) => {
                proof {
                    lemma_find_is(s@, ',', k as int);
                }
                let content = s.substring_char(0, k);
                let tail = s.substring_char(k + 1, n);
                proof {
                    assert(content@ =~= s@.take(k as int));
                    assert(tail@ =~= s@.skip(k as int + 1));
                }
                match split_line(tail) {
                    None => None,
                    Some(mut v) => {
                        v.insert(0, content.to_owned());
                        proof {
                            assert(strs_view(v@) =~= seq![s@.take(k as int)] + strs_view(
                                v@.skip(1),
                            ));
                        }
                        Some(v)
                    },
                }
            },
        }
    }
}

/// First occurrence of `c` in `s` at or after `from`.
fn find_char(s: &str, from: usize, c: char) -> (r: Option<usize>)
    requires
        from <= s@.len(),
    ensures
        match r {
            Some(j) => from <= j < s@.len() && s@[j as int] == c && forall|i: int|
                from <= i < j ==> s@[i] != c,
            None => forall|i: int| from <= i < s@.len() ==> s@[i] != c,
        },
{
    let n = s.unicode_len();
    let mut i: usize = from;
    while i < n
        invariant
            from <= i <= n,
            n == s@.len(),
            forall|k: int| from <= k < i ==> s@[k] != c,
        decreases n - i,
    {
        if s.get_char(i) == c {
            return Some(i);
        }
        i = i + 1;
    }
    None
}

// ---------------------------------------------------------------------------
// Decoding
// ---------------------------------------------------------------------------

/// The quantity denoted by a quantity cell: absent when the cell is empty,
/// else the exact decimal it spells; `None` when it spells none.
pub open spec fn spec_opt_dec(s: Seq<char>) -> Option<Option<DecModel>> {
    if s.len() == 0 {
        Some(None)
    } else {
        match dec_of(s) {
            None => None,
            Some(p) => Some(Some(DecModel { mantissa: p.0 as int, scale: p.1 as nat })),
        }
    }
}

/// The record denoted by a text line, or the reason there is none. The
/// line must split into exactly twelve fields; the time field must be a
/// UTC timestamp in the four-digit-year range; the transaction-type field
/// must match a known label exactly; quantity cells must be empty or
/// exact decimals.
pub open spec fn spec_decode(line: Seq<char>) -> Result<RecModel, DecodeError> {
    match spec_split(line) {
        None => Err(DecodeError::Malformed),
        Some(fs) => if fs.len() != 12 {
            Err(DecodeError::FieldCount(fs.len() as usize))
        } else {
            match utc_ms_of(fs[0]) {
                None => Err(DecodeError::BadTimestamp),
                Some(t) => if !(TIME_MS_MIN <= t <= TIME_MS_MAX) {
                    Err(DecodeError::BadTimestamp)
                } else {
                    match spec_kind_of_label(fs[1]) {
                        None => Err(DecodeError::UnknownLabel),
                        Some(k) => match spec_opt_dec(fs[2]) {
                            None => Err(DecodeError::BadDecimal(2)),
                            Some(sent_q) => match spec_opt_dec(fs[5]) {
                                None => Err(DecodeError::BadDecimal(5)),
                                Some(recv_q) => match spec_opt_dec(fs[8]) {
                                    None => Err(DecodeError::BadDecimal(8)),
                                    Some(fee_q) => Ok(
                                        RecModel {
                                            time: t as int,
                                            kind: k,
                                            sent_quantity: sent_q,
                                            sent_currency: fs[3],
                                            sending_source: fs[4],
                                            received_quantity: recv_q,
                                            received_currency: fs[6],
                                            receiving_destination: fs[7],
                                            fee_quantity: fee_q,
                                            fee_currency: fs[9],
                                            exchange_transaction_id: fs[10],
                                            blockchain_transaction_hash: fs[11],
                                        },
                                    ),
                                },
                            },
                        },
                    }
                },
            }
        },
    }
}

/// Parses one quantity cell: absent when empty, else an exact decimal.
fn parse_opt_dec(s: &String) -> (r: Option<Option<Dec>>)
    ensures
        match r {
            Some(q) => spec_opt_dec(s@) == Some(crate::record::opt_dec_view(q)),
            None => spec_opt_dec(s@) is None,
        },
{
    if s.as_str().is_empty() {
        return Some(None);
    }
    match parse_dec(s.as_str()) {
        None => None,
        Some((m, sc)) => {
            let d = Dec::new(m, sc).unwrap();
            Some(Some(d))
        },
    }
}

// ---------------------------------------------------------------------------
// Encoding
// ---------------------------------------------------------------------------

/// The cell text of a quantity: empty when absent, else the exact decimal.
pub open spec fn spec_opt_dec_str(q: Option<DecModel>) -> Seq<char> {
    match q {
        None => Seq::<char>::empty(),
        Some(d) => dec_str_of(d.mantissa as i128, d.scale as u32),
    }
}

/// The twelve cells of a record's line, in the fixed field order, with the
/// canonical interchange labels.
pub open spec fn spec_line_fields(m: RecModel) -> Seq<Seq<char>> {
    seq![
        utc_str_of(m.time as i64),
        spec_label(m.kind),
        spec_opt_dec_str(m.sent_quantity),
        m.sent_currency,
        m.sending_source,
        spec_opt_dec_str(m.received_quantity),
        m.received_currency,
        m.receiving_destination,
        spec_opt_dec_str(m.fee_quantity),
        m.fee_currency,
        m.exchange_transaction_id,
        m.blockchain_transaction_hash,
    ]
}

/// A record's canonical line: its twelve cells joined by commas, with the
/// exact original label spellings, so that existing exported data decodes
/// it back.
pub open spec fn spec_encode(m: RecModel) -> Seq<char> {
    spec_join(spec_line_fields(m))
}

/// The twelve cells with the one-word debug-style kind label, for the
/// human-readable render.
pub open spec fn spec_display_fields(m: RecModel) -> Seq<Seq<char>> {
    spec_line_fields(m).update(1, spec_debug_label(m.kind))
}

/// A record's human-readable line, for logging and inspection.
pub open spec fn spec_display_line(m: RecModel) -> Seq<char> {
    spec_join(spec_display_fields(m))
}

/// A record whose text fields hold no separator and no quote, so its
/// canonical line splits back into the same cells.
pub open spec fn rec_encodable(m: RecModel) -> bool {
    &&& field_clean(m.sent_currency)
    &&& field_clean(m.sending_source)
    &&& field_clean(m.received_currency)
    &&& field_clean(m.receiving_destination)
    &&& field_clean(m.fee_currency)
    &&& field_clean(m.exchange_transaction_id)
    &&& field_clean(m.blockchain_transaction_hash)
}

/// Every canonical kind label is free of separators and quotes.
proof fn lemma_label_clean(k: TaxBitRecType)
    ensures
        field_clean(spec_label(k)),
        field_clean(spec_debug_label(k)),
{
    reveal_strlit("Income");
    reveal_strlit("Transfer In");
    reveal_strlit("TransferIn");
    reveal_strlit("Gift Received");
    reveal_strlit("GiftReceived");
    reveal_strlit("Buy");
    reveal_strlit("Trade");
    reveal_strlit("Sale");
    reveal_strlit("Expense");
    reveal_strlit("Transfer Out");
    reveal_strlit("TransferOut");
    reveal_strlit("Gift Send");
    reveal_strlit("GiftSent");
    reveal_strlit("Unknown");
}

/// Appending a separator and one more cell extends a join.
proof fn lemma_join_snoc(fs: Seq<Seq<char>>, f: Seq<char>)
    requires
        fs.len() >= 1,
    ensures
        spec_join(fs.push(f)) == spec_join(fs) + seq![','] + f,
    decreases fs.len(),
{
    if fs.len() == 1 {
        assert(fs.push(f)[0] == fs[0]);
        assert(fs.push(f).skip(1) =~= seq![f]);
        assert(spec_join(seq![f]) == f);
        assert(spec_join(fs.push(f)) =~= spec_join(fs) + seq![','] + f);
    } else {
        lemma_join_snoc(fs.skip(1), f);
        assert(fs.push(f).skip(1) =~= fs.skip(1).push(f));
        assert(fs.push(f)[0] == fs[0]);
        assert(spec_join(fs.push(f)) =~= spec_join(fs) + seq![','] + f);
    }
}

impl TaxBitRec {
    /// Decodes one comma-separated text line into a record. Reports which
    /// field failed and why; an unrecognized transaction-type label is an
    /// error, never silently `Unknown`.
    pub fn decode_line(line: &str) -> (r: Result<TaxBitRec, DecodeError>)
        ensures
            r matches Ok(rec) ==> spec_decode(line@) == Ok::<RecModel, DecodeError>(rec@),
            r matches Err(e) ==> spec_decode(line@) == Err::<RecModel, DecodeError>(e),
    {
        let mut v = match split_line(line) {
            None => {
                return Err(DecodeError::Malformed);
            },
            Some(v) => v,
        };
        let ghost fs = strs_view(v@);
        if v.len() != 12 {
            return Err(DecodeError::FieldCount(v.len()));
        }
        let f11 = v.pop().unwrap();
        let f10 = v.pop().unwrap();
        let f9 = v.pop().unwrap();
        let f8 = v.pop().unwrap();
        let f7 = v.pop().unwrap();
        let f6 = v.pop().unwrap();
        let f5 = v.pop().unwrap();
        let f4 = v.pop().unwrap();
        let f3 = v.pop().unwrap();
        let f2 = v.pop().unwrap();
        let f1 = v.pop().unwrap();
        let f0 = v.pop().unwrap();
        proof {
            assert(f0@ == fs[0] && f1@ == fs[1] && f2@ == fs[2] && f3@ == fs[3] && f4@ == fs[4]
                && f5@ == fs[5] && f6@ == fs[6] && f7@ == fs[7] && f8@ == fs[8] && f9@ == fs[9]
                && f10@ == fs[10] && f11@ == fs[11]);
        }
        let t = match parse_utc_ms(f0.as_str()) {
            None => {
                return Err(DecodeError::BadTimestamp);
            },
            Some(t) => t,
        };
        if t < TIME_MS_MIN || t > TIME_MS_MAX {
            return Err(DecodeError::BadTimestamp);
        }
        let k = match label_to_kind(f1.as_str()) {
            None => {
                return Err(DecodeError::UnknownLabel);
            },
            Some(k) => k,
        };
        let sent_q = match parse_opt_dec(&f2) {
            None => {
                return Err(DecodeError::BadDecimal(2));
            },
            Some(q) => q,
        };
        let recv_q = match parse_opt_dec(&f5) {
            None => {
                return Err(DecodeError::BadDecimal(5));
            },
            Some(q) => q,
        };
        let fee_q = match parse_opt_dec(&f8) {
            None => {
                return Err(DecodeError::BadDecimal(8));
            },
            Some(q) => q,
        };
        let rec = TaxBitRec {
            time: t,
            type_txs: k,
            sent_quantity: sent_q,
            sent_currency: f3,
            sending_source: f4,
            received_quantity: recv_q,
            received_currency: f6,
            receiving_destination: f7,
            fee_quantity: fee_q,
            fee_currency: f9,
            exchange_transaction_id: f10,
            blockchain_transaction_hash: f11,
        };
        proof {
            assert(spec_decode(line@) matches Ok(m) && m =~= rec@);
        }
        Ok(rec)
    }

    /// Encodes the record as its canonical line: the twelve cells joined by
    /// commas, time as a Z-suffixed UTC string, quantities as their exact
    /// decimal text or an empty cell, the kind under its exact original
    /// label spelling, and text fields verbatim. For a record whose text
    /// fields hold no separator and no quote, decoding the encoded line
    /// yields an equal record: decode, encode, decode is decode.
    pub fn encode_line(&self) -> (r: String)
        requires
            TIME_MS_MIN <= self.time <= TIME_MS_MAX,
        ensures
            r@ == spec_encode(self@),
            rec_encodable(self@) ==> spec_decode(r@) == Ok::<RecModel, DecodeError>(self@),
    {
        let ghost fields = spec_line_fields(self@);
        let mut out = format_utc_ms(self.time);
        let ghost time_cell = out@;
        let ghost gfs = seq![out@];
        proof {
            assert(spec_join(gfs) == out@);
        }
        let label = kind_to_label(&self.type_txs);
        out.append(",");
        out.append(label);
        proof {
            reveal_strlit(",");
            assert(","@ =~= seq![',']);
            lemma_join_snoc(gfs, label@);
        }
        let ghost gfs = gfs.push(label@);
        let sent_cell = opt_dec_cell(&self.sent_quantity);
        out.append(",");
        out.append(sent_cell.as_str());
        proof {
            lemma_join_snoc(gfs, sent_cell@);
        }
        let ghost gfs = gfs.push(sent_cell@);
        out.append(",");
        out.append(self.sent_currency.as_str());
        proof {
            lemma_join_snoc(gfs, self.sent_currency@);
        }
        let ghost gfs = gfs.push(self.sent_currency@);
        out.append(",");
        out.append(self.sending_source.as_str());
        proof {
            lemma_join_snoc(gfs, self.sending_source@);
        }
        let ghost gfs = gfs.push(self.sending_source@);
        let recv_cell = opt_dec_cell(&self.received_quantity);
        out.append(",");
        out.append(recv_cell.as_str());
        proof {
            lemma_join_snoc(gfs, recv_cell@);
        }
        let ghost gfs = gfs.push(recv_cell@);
        out.append(",");
        out.append(self.received_currency.as_str());
        proof {
            lemma_join_snoc(gfs, self.received_currency@);
        }
        let ghost gfs = gfs.push(self.received_currency@);
        out.append(",");
        out.append(self.receiving_destination.as_str());
        proof {
            lemma_join_snoc(gfs, self.receiving_destination@);
        }
        let ghost gfs = gfs.push(self.receiving_destination@);
        let fee_cell = opt_dec_cell(&self.fee_quantity);
        out.append(",");
        out.append(fee_cell.as_str());
        proof {
            lemma_join_snoc(gfs, fee_cell@);
        }
        let ghost gfs = gfs.push(fee_cell@);
        out.append(",");
        out.append(self.fee_currency.as_str());
        proof {
            lemma_join_snoc(gfs, self.fee_currency@);
        }
        let ghost gfs = gfs.push(self.fee_currency@);
        out.append(",");
        out.append(self.exchange_transaction_id.as_str());
        proof {
            lemma_join_snoc(gfs, self.exchange_transaction_id@);
        }
        let ghost gfs = gfs.push(self.exchange_transaction_id@);
        out.append(",");
        out.append(self.blockchain_transaction_hash.as_str());
        proof {
            lemma_join_snoc(gfs, self.blockchain_transaction_hash@);
        }
        let ghost gfs = gfs.push(self.blockchain_transaction_hash@);
        proof {
            assert(gfs =~= fields);
            assert(out@ == spec_encode(self@));
            lemma_label_clean(self@.kind);
            lemma_label_round_trip(self@.kind);
            if rec_encodable(self@) {
                assert(field_clean(fields[0])) by {
                    assert(fields[0] == time_cell);
                };
                assert(field_clean(fields[1]));
                assert(field_clean(fields[2]));
                assert(field_clean(fields[3]));
                assert(field_clean(fields[4]));
                assert(field_clean(fields[5]));
                assert(field_clean(fields[6]));
                assert(field_clean(fields[7]));
                assert(field_clean(fields[8]));
                assert(field_clean(fields[9]));
                assert(field_clean(fields[10]));
                assert(field_clean(fields[11]));
                assert forall|i: int| 0 <= i < fields.len() implies #[trigger] field_clean(
                    fields[i],
                ) by {
                    if i == 0 {
                    } else if i == 1 {
                    } else if i == 2 {
                    } else if i == 3 {
                    } else if i == 4 {
                    } else if i == 5 {
                    } else if i == 6 {
                    } else if i == 7 {
                    } else if i == 8 {
                    } else if i == 9 {
                    } else if i == 10 {
                    } else {
                    }
                }
                lemma_split_join(fields);
                assert(spec_split(out@) == Some(fields));
                assert(utc_ms_of(fields[0]) == Some(self.time));
                assert(spec_kind_of_label(fields[1]) == Some(self@.kind));
                assert(spec_opt_dec(fields[2]) == Some(self@.sent_quantity));
                assert(spec_opt_dec(fields[5]) == Some(self@.received_quantity));
                assert(spec_opt_dec(fields[8]) == Some(self@.fee_quantity));
                assert(spec_decode(out@) matches Ok(m) && m =~= self@);
            }
        }
        out
    }

    /// Renders the record for human inspection: the same twelve cells, but
    /// the kind under its one-word debug-style label. For persistence, use
    /// the canonical encoding instead.
    pub fn to_line(&self) -> (r: String)
        requires
            TIME_MS_MIN <= self.time <= TIME_MS_MAX,
        ensures
            r@ == spec_display_line(self@),
    {
        let ghost fields = spec_display_fields(self@);
        let mut out = format_utc_ms(self.time);
        let ghost gfs = seq![out@];
        let label = kind_to_debug_label(&self.type_txs);
        out.append(",");
        out.append(label);
        proof {
            reveal_strlit(",");
            assert(","@ =~= seq![',']);
            lemma_join_snoc(gfs, label@);
        }
        let ghost gfs = gfs.push(label@);
        let sent_cell = opt_dec_cell(&self.sent_quantity);
        out.append(",");
        out.append(sent_cell.as_str());
        proof {
            lemma_join_snoc(gfs, sent_cell@);
        }
        let ghost gfs = gfs.push(sent_cell@);
        out.append(",");
        out.append(self.sent_currency.as_str());
        proof {
            lemma_join_snoc(gfs, self.sent_currency@);
        }
        let ghost gfs = gfs.push(self.sent_currency@);
        out.append(",");
        out.append(self.sending_source.as_str());
        proof {
            lemma_join_snoc(gfs, self.sending_source@);
        }
        let ghost gfs = gfs.push(self.sending_source@);
        let recv_cell = opt_dec_cell(&self.received_quantity);
        out.append(",");
        out.append(recv_cell.as_str());
        proof {
            lemma_join_snoc(gfs, recv_cell@);
        }
        let ghost gfs = gfs.push(recv_cell@);
        out.append(",");
        out.append(self.received_currency.as_str());
        proof {
            lemma_join_snoc(gfs, self.received_currency@);
        }
        let ghost gfs = gfs.push(self.received_currency@);
        out.append(",");
        out.append(self.receiving_destination.as_str());
        proof {
            lemma_join_snoc(gfs, self.receiving_destination@);
        }
        let ghost gfs = gfs.push(self.receiving_destination@);
        let fee_cell = opt_dec_cell(&self.fee_quantity);
        out.append(",");
        out.append(fee_cell.as_str());
        proof {
            lemma_join_snoc(gfs, fee_cell@);
        }
        let ghost gfs = gfs.push(fee_cell@);
        out.append(",");
        out.append(self.fee_currency.as_str());
        proof {
            lemma_join_snoc(gfs, self.fee_currency@);
        }
        let ghost gfs = gfs.push(self.fee_currency@);
        out.append(",");
        out.append(self.exchange_transaction_id.as_str());
        proof {
            lemma_join_snoc(gfs, self.exchange_transaction_id@);
        }
        let ghost gfs = gfs.push(self.exchange_transaction_id@);
        out.append(",");
        out.append(self.blockchain_transaction_hash.as_str());
        proof {
            lemma_join_snoc(gfs, self.blockchain_transaction_hash@);
        }
        let ghost gfs = gfs.push(self.blockchain_transaction_hash@);
        proof {
            assert(gfs =~= fields);
        }
        out
    }
}

/// The cell text of one optional quantity.
fn opt_dec_cell(q: &Option<Dec>) -> (r: String)
    ensures
        r@ == spec_opt_dec_str(crate::record::opt_dec_view(*q)),
        r@.len() == 0 ==> q is None,
        q matches Some(d) ==> dec_of(r@) == Some((d@.mantissa as i128, d@.scale as u32))
            && crate::dec::dec_model_wf(d@),
        forall|i: int| 0 <= i < r@.len() ==> r@[i] != ',' && r@[i] != '"',
{
    match q {
        None => String::new(),
        Some(d) => {
            let m = d.mantissa();
            let sc = d.scale();
            proof {
                use_type_invariant(d);
            }
            format_dec(m, sc)
        },
    }
}


} // verus!
