//! The textual fields of records and snapshots: amounts as decimal text with
//! at most four fractional digits, and transaction type keywords.
use crate::model::fits_i64;
use crate::types::{Transaction, TransactionType};
use vstd::prelude::*;

verus! {

/// Ten-thousandths per unit: amounts are stored scaled by this.
pub const SCALE: i64 = 10000;

pub open spec fn is_digit(c: u8) -> bool {
    48 <= c <= 57
}

pub open spec fn all_digits(s: Seq<u8>) -> bool {
    forall|i: int| 0 <= i < s.len() ==> is_digit(#[trigger] s[i])
}

/// The number that the decimal digits `s` spell.
pub open spec fn digits_value(s: Seq<u8>) -> int
    decreases s.len(),
{
    if s.len() == 0 {
        0
    } else {
        digits_value(s.drop_last()) * 10 + (s.last() - 48)
    }
}

/// The length of the longest prefix of `s` made of digits.
pub open spec fn leading_digits(s: Seq<u8>) -> nat
    decreases s.len(),
{
    if all_digits(s) {
        s.len()
    } else {
        leading_digits(s.drop_last())
    }
}

pub open spec fn pow10(n: nat) -> int
    decreases n,
{
    if n == 0 {
        1
    } else {
        10 * pow10((n - 1) as nat)
    }
}

/// The value, in ten-thousandths, of unsigned decimal text: one or more
/// digits, optionally followed by a point and one to four digits.
pub open spec fn magnitude_of(s: Seq<u8>) -> Option<int> {
    let k = leading_digits(s) as int;
    let whole = digits_value(s.take(k as int));
    let frac = s.skip(k + 1 as int);
    if k == 0 {
        None
    } else if k == s.len() {
        Some(whole * SCALE)
    } else if s[k as int] == 46 && 1 <= frac.len() <= 4 && all_digits(frac) {
        Some(whole * SCALE + digits_value(frac) * pow10((4 - frac.len()) as nat))
    } else {
        None
    }
}

/// The value, in ten-thousandths, of decimal amount text: unsigned decimal
/// text, optionally preceded by a minus sign.
pub open spec fn amount_of(s: Seq<u8>) -> Option<int> {
    if s.len() > 0 && s[0] == 45 {
        match magnitude_of(s.drop_first()) {
            Some(m) => Some(-m),
            None => None,
        }
    } else {
        magnitude_of(s)
    }
}

proof fn lemma_digits_value_grows(s: Seq<u8>, n: int)
    requires
        0 <= n <= s.len(),
        all_digits(s),
    ensures
        0 <= digits_value(s.take(n)) <= digits_value(s),
    decreases s.len(),
{
    if n < s.len() {
        lemma_digits_value_grows(s.drop_last(), n);
        assert(s.drop_last().take(n) == s.take(n));
    } else {
        assert(s.take(n) == s);
        if s.len() > 0 {
            lemma_digits_value_grows(s.drop_last(), n - 1);
            assert(s.drop_last().take(n - 1) == s.drop_last());
        }
    }
}

proof fn lemma_leading_digits(s: Seq<u8>, n: int)
    requires
        0 <= n <= s.len(),
        all_digits(s.take(n)),
    ensures
        n <= leading_digits(s),
        n == s.len() || !is_digit(s[n]) ==> leading_digits(s) == n,
        all_digits(s.take(leading_digits(s) as int)),
        leading_digits(s) <= s.len(),
    decreases s.len(),
{
    if all_digits(s) {
        assert(s.take(s.len() as int) == s);
    } else if n == s.len() {
        assert(s.take(n) == s);
    } else {
        assert(s.drop_last().take(n) == s.take(n));
        lemma_leading_digits(s.drop_last(), n);
        let k = leading_digits(s.drop_last()) as int;
        assert(s.drop_last().take(k) == s.take(k));
    }
}

/// Decodes the digits `b[from..]`, of which there are at most four.
fn parse_fraction(b: &[u8], from: usize) -> (r: Option<u128>)
    requires
        from <= b@.len() <= from + 4,
    ensures
        r is Some <==> all_digits(b@.skip(from as int)),
        r matches Some(v) ==> v == digits_value(b@.skip(from as int)) && v < 10000,
{
    let ghost f = b@.skip(from as int);
    let mut j: usize = from;
    let mut frac: u128 = 0;
    while j < b.len()
        invariant
            from <= j <= b@.len() <= from + 4,
            f == b@.skip(from as int),
            all_digits(f.take(j - from)),
            frac == digits_value(f.take(j - from)),
            0 <= frac < pow10((j - from) as nat),
        decreases b@.len() - j,
    {
        if b[j] < 48u8 || b[j] > 57u8 {
            proof {
                assert(f[j - from] == b[j as int]);
            }
            return None;
        }
        proof {
            assert(f.take(j - from + 1).drop_last() == f.take(j - from));
            let p = pow10((j - from) as nat);
            lemma_pow10_small((j - from) as nat);
            assert(frac * 10 + 9 < p * 10) by (nonlinear_arith)
                requires
                    frac < p,
            ;
        }
        frac = frac * 10 + (b[j] - 48u8) as u128;
        j = j + 1;
    }
    proof {
        assert(f.take(j - from) == f);
        lemma_pow10_small((j - from) as nat);
    }
    Some(frac)
}

/// The bound above which a magnitude cannot fit in an `i64` whatever its sign.
pub open spec fn magnitude_bound() -> int {
    10_000_000_000_000_000_000
}

/// Decodes the unsigned decimal text `b[start..]`; `None` also where its value
/// exceeds `magnitude_bound()`.
fn parse_magnitude(b: &[u8], start: usize) -> (r: Option<u128>)
    requires
        start <= b@.len(),
    ensures
        r matches Some(m) ==> magnitude_of(b@.skip(start as int)) == Some(m as int) && m
            < magnitude_bound() + 10_000_000,
        r is None ==> !(magnitude_of(b@.skip(start as int)) matches Some(x) && x
            <= magnitude_bound()),
{
    let len = b.len();
    let ghost s = b@.skip(start as int);
    let mut i: usize = start;
    let mut whole: u128 = 0;
    while i < len && 48u8 <= b[i] && b[i] <= 57u8
        invariant
            start <= i <= len,
            len == b@.len(),
            s == b@.skip(start as int),
            all_digits(s.take(i - start)),
            whole == digits_value(s.take(i - start)),
            whole <= 1_000_000_000_000_000,
        decreases len - i,
    {
        proof {
            assert(s.take(i - start + 1).drop_last() == s.take(i - start));
        }
        whole = whole * 10 + (b[i] - 48u8) as u128;
        i = i + 1;
        if whole > 1_000_000_000_000_000 {
            proof {
                lemma_leading_digits(s, i - start);
                let k = leading_digits(s) as int;
                lemma_digits_value_grows(s.take(k), i - start);
                assert(s.take(k).take(i - start) == s.take(i - start));
                lemma_pow10_nonneg((4 - s.skip(k + 1).len()) as nat);
                lemma_digits_nonneg(s.skip(k + 1));
            }
            return None;
        }
    }
    let k: usize = i - start;
    proof {
        lemma_leading_digits(s, k as int);
    }
    if k == 0 {
        return None;
    }
    if i == len {
        return Some(whole * 10000);
    }
    proof {
        assert(s[k as int] == b[i as int]);
        assert(s.skip(k + 1 as int) == b@.skip(i + 1));
    }
    if b[i] != 46u8 || len - i < 2 || len - i > 5 {
        return None;
    }
    match parse_fraction(b, i + 1) {
        None => None,
        Some(frac) => {
            let scale: u128 = if len - i == 2 {
                1000
            } else if len - i == 3 {
                100
            } else if len - i == 4 {
                10
            } else {
                1
            };
            proof {
                reveal_with_fuel(pow10, 5);
                assert(frac * scale <= 9999 * 1000) by (nonlinear_arith)
                    requires
                        frac < 10000,
                        scale <= 1000,
                ;
            }
            Some(whole * 10000 + frac * scale)
        },
    }
}

/// Decodes decimal amount text into ten-thousandths: `None` where the text is
/// not of that form or its value does not fit in an `i64`.
pub fn parse_amount(b: &[u8]) -> (r: Option<i64>)
    ensures
        r is Some <==> (amount_of(b@) matches Some(x) && fits_i64(x)),
        r matches Some(v) ==> amount_of(b@) == Some(v as int),
{
    let neg = b.len() > 0 && b[0] == 45u8;
    let start: usize = if neg { 1 } else { 0 };
    proof {
        if neg {
            assert(b@.skip(1) == b@.drop_first());
        } else {
            assert(b@.skip(0) == b@);
        }
    }
    match parse_magnitude(b, start) {
        None => None,
        Some(mag) => {
            let v: i128 = if neg { -(mag as i128) } else { mag as i128 };
            if v < i64::MIN as i128 || v > i64::MAX as i128 {
                None
            } else {
                Some(v as i64)
            }
        },
    }
}

proof fn lemma_pow10_small(n: nat)
    requires
        n <= 4,
    ensures
        pow10(n) <= 10000,
{
    reveal_with_fuel(pow10, 5);
}

proof fn lemma_pow10_nonneg(n: nat)
    ensures
        pow10(n) >= 1,
    decreases n,
{
    if n > 0 {
        lemma_pow10_nonneg((n - 1) as nat);
    }
}

proof fn lemma_digits_nonneg(s: Seq<u8>)
    ensures
        digits_value(s) >= 0 || !all_digits(s),
    decreases s.len(),
{
    if s.len() > 0 {
        lemma_digits_nonneg(s.drop_last());
        if all_digits(s) {
            assert(all_digits(s.drop_last()));
        }
    }
}

/// The keyword of each transaction type, in lower-case ASCII: "deposit",
/// "withdrawal", "dispute", "resolve" and "chargeback".
pub open spec fn keyword(k: TransactionType) -> Seq<u8> {
    match k {
        TransactionType::Deposit => seq![100, 101, 112, 111, 115, 105, 116],
        TransactionType::Withdrawal => seq![
            119,
            105,
            116,
            104,
            100,
            114,
            97,
            119,
            97,
            108,
        ],
        TransactionType::Dispute => seq![100, 105, 115, 112, 117, 116, 101],
        TransactionType::Resolve => seq![114, 101, 115, 111, 108, 118, 101],
        TransactionType::Chargeback => seq![
            99,
            104,
            97,
            114,
            103,
            101,
            98,
            97,
            99,
            107,
        ],
    }
}

/// The transaction type whose keyword `s` is, if any.
pub open spec fn kind_of(s: Seq<u8>) -> Option<TransactionType> {
    if s == keyword(TransactionType::Deposit) {
        Some(TransactionType::Deposit)
    } else if s == keyword(TransactionType::Withdrawal) {
        Some(TransactionType::Withdrawal)
    } else if s == keyword(TransactionType::Dispute) {
        Some(TransactionType::Dispute)
    } else if s == keyword(TransactionType::Resolve) {
        Some(TransactionType::Resolve)
    } else if s == keyword(TransactionType::Chargeback) {
        Some(TransactionType::Chargeback)
    } else {
        None
    }
}

fn same_bytes(a: &[u8], w: &Vec<u8>) -> (r: bool)
    ensures
        r == (a@ == w@),
{
    if a.len() != w.len() {
        return false;
    }
    let mut i: usize = 0;
    while i < a.len()
        invariant
            a@.len() == w@.len(),
            i <= a@.len(),
            a@.take(i as int) == w@.take(i as int),
        decreases a@.len() - i,
    {
        if a[i] != w[i] {
            proof {
                assert(a@[i as int] != w@[i as int]);
            }
            return false;
        }
        proof {
            assert(a@.take(i + 1) == a@.take(i as int).push(a@[i as int]));
            assert(w@.take(i + 1) == w@.take(i as int).push(w@[i as int]));
        }
        i = i + 1;
    }
    proof {
        assert(a@.take(i as int) == a@);
        assert(w@.take(i as int) == w@);
    }
    true
}

/// Decodes a transaction type keyword.
pub fn parse_kind(b: &[u8]) -> (r: Option<TransactionType>)
    ensures
        r == kind_of(b@),
{
    let deposit: Vec<u8> = vec![100, 101, 112, 111, 115, 105, 116];
    let withdrawal: Vec<u8> = vec![119, 105, 116, 104, 100, 114, 97, 119, 97, 108];
    let dispute: Vec<u8> = vec![100, 105, 115, 112, 117, 116, 101];
    let resolve: Vec<u8> = vec![114, 101, 115, 111, 108, 118, 101];
    let chargeback: Vec<u8> = vec![99, 104, 97, 114, 103, 101, 98, 97, 99, 107];
    if same_bytes(b, &deposit) {
        Some(TransactionType::Deposit)
    } else if same_bytes(b, &withdrawal) {
        Some(TransactionType::Withdrawal)
    } else if same_bytes(b, &dispute) {
        Some(TransactionType::Dispute)
    } else if same_bytes(b, &resolve) {
        Some(TransactionType::Resolve)
    } else if same_bytes(b, &chargeback) {
        Some(TransactionType::Chargeback)
    } else {
        None
    }
}

/// Assembles a record from its decoded fields: `None` where the type keyword
/// is unknown or the amount text is malformed or out of range. An absent
/// amount is kept absent.
pub fn record_from_fields(kind: &[u8], client: u16, tx: u32, amount: Option<&[u8]>) -> (r: Option<
    Transaction,
>)
    ensures
        r is Some <==> kind_of(kind@) is Some && match amount {
            None => true,
            Some(a) => amount_of(a@) matches Some(x) && fits_i64(x),
        },
        r matches Some(t) ==> t.tx_type == kind_of(kind@)->0 && t.client == client && t.tx == tx
            && match amount {
            None => t.amount is None,
            Some(a) => t.amount matches Some(v) && amount_of(a@) == Some(v as int),
        },
{
    let tx_type = match parse_kind(kind) {
        Some(k) => k,
        None => {
            return None;
        },
    };
    let amount = match amount {
        None => None,
        Some(a) => match parse_amount(a) {
            Some(v) => Some(v),
            None => {
                return None;
            },
        },
    };
    Some(Transaction { tx_type, client, tx, amount })
}

/// Splits an amount into its sign (`true` when negative), whole units and
/// ten-thousandths, for display.
pub fn split_amount(v: i64) -> (r: (bool, u64, u64))
    ensures
        r.0 == (v < 0),
        r.2 < 10000,
        (if r.0 { -1int } else { 1int }) * (r.1 * 10000 + r.2) == v,
{
    let mag: u64 = if v < 0 { (-(v as i128)) as u64 } else { v as u64 };
    (v < 0, mag / 10000, mag % 10000)
}

} // verus!
