//! The decoder: turns one raw input record — a type tag, the two ids and an
//! optional decimal amount, all as plain bytes — into a validated
//! [`Tx`](crate::tx::Tx) or a terminal decode error. Amounts are scaled into
//! fixed-point [`Money`](crate::tx::Money) by truncation, never rounding.

use vstd::prelude::*;

use crate::tx::{ClientId, Money, Tx, TxId, TxType};

verus! {

/// Why a record could not be decoded. Decode errors are fatal: a malformed
/// record is never silently dropped.
#[derive(Debug, Clone, Copy, PartialEq, Eq, Structural)]
pub enum DecodeError {
    /// The type tag is none of the five known ones.
    UnknownTxType,
    /// A deposit or withdrawal record carries no amount.
    MissingAmount,
    /// The amount is not plain decimal text, or does not fit in `Money`.
    BadAmount,
}

/// The five recognized type tags, before any amount is attached.
#[derive(Debug, Clone, Copy, PartialEq, Eq, Structural)]
pub enum TagKind {
    Deposit,
    Withdrawal,
    Dispute,
    Resolve,
    Chargeback,
}

/// ASCII code points the grammar refers to by name.
pub const UPPER_A: u8 = 65;

pub const UPPER_Z: u8 = 90;

/// Distance between an ASCII upper-case letter and its lower-case form.
pub const CASE_GAP: u8 = 32;

pub const DIGIT_ZERO: u8 = 48;

pub const DIGIT_NINE: u8 = 57;

pub const DOT: u8 = 46;

pub const MINUS: u8 = 45;

/// ASCII lower-casing of one byte.
pub open spec fn lower(c: u8) -> u8 {
    if UPPER_A <= c && c <= UPPER_Z {
        (c + CASE_GAP) as u8
    } else {
        c
    }
}

/// Case-insensitive match of `s` against the lower-case tag `t`.
pub open spec fn tag_eq_lower(s: Seq<u8>, t: Seq<u8>) -> bool {
    s.len() == t.len() && forall|i: int| 0 <= i < s.len() ==> lower(#[trigger] s[i]) == t[i]
}

pub open spec fn deposit_tag() -> Seq<u8> {
    seq![100u8, 101u8, 112u8, 111u8, 115u8, 105u8, 116u8]
}

pub open spec fn withdrawal_tag() -> Seq<u8> {
    seq![119u8, 105u8, 116u8, 104u8, 100u8, 114u8, 97u8, 119u8, 97u8, 108u8]
}

pub open spec fn dispute_tag() -> Seq<u8> {
    seq![100u8, 105u8, 115u8, 112u8, 117u8, 116u8, 101u8]
}

pub open spec fn resolve_tag() -> Seq<u8> {
    seq![114u8, 101u8, 115u8, 111u8, 108u8, 118u8, 101u8]
}

pub open spec fn chargeback_tag() -> Seq<u8> {
    seq![99u8, 104u8, 97u8, 114u8, 103u8, 101u8, 98u8, 97u8, 99u8, 107u8]
}

/// The tag named by `s`, compared case-insensitively.
pub open spec fn spec_parse_tag(s: Seq<u8>) -> Option<TagKind> {
    if tag_eq_lower(s, deposit_tag()) {
        Some(TagKind::Deposit)
    } else if tag_eq_lower(s, withdrawal_tag()) {
        Some(TagKind::Withdrawal)
    } else if tag_eq_lower(s, dispute_tag()) {
        Some(TagKind::Dispute)
    } else if tag_eq_lower(s, resolve_tag()) {
        Some(TagKind::Resolve)
    } else if tag_eq_lower(s, chargeback_tag()) {
        Some(TagKind::Chargeback)
    } else {
        None
    }
}

pub open spec fn is_digit(c: u8) -> bool {
    DIGIT_ZERO <= c && c <= DIGIT_NINE
}

pub open spec fn digits_wf(s: Seq<u8>) -> bool {
    forall|i: int| 0 <= i < s.len() ==> is_digit(#[trigger] s[i])
}

/// The number written by a digit string, most significant first.
pub open spec fn digits_val(s: Seq<u8>) -> int
    decreases s.len(),
{
    if s.len() == 0 {
        0
    } else {
        digits_val(s.drop_last()) * 10 + (s.last() - DIGIT_ZERO)
    }
}

/// The index of the first `.` in `s`, or `s.len()` if there is none.
pub open spec fn dot_index(s: Seq<u8>) -> int
    decreases s.len(),
{
    if s.len() == 0 {
        0
    } else if s[0] == DOT {
        0
    } else {
        1 + dot_index(s.skip(1))
    }
}

/// The integer digits of an unsigned decimal body: everything before the
/// first `.`, or all of it if there is no `.`.
pub open spec fn int_part(s: Seq<u8>) -> Seq<u8> {
    s.take(dot_index(s))
}

/// The fractional digits: everything after the first `.`, empty if there is
/// no `.`.
pub open spec fn frac_part(s: Seq<u8>) -> Seq<u8> {
    if dot_index(s) < s.len() {
        s.skip(dot_index(s) + 1)
    } else {
        Seq::empty()
    }
}

/// An unsigned decimal body: digits, at most one `.`, at least one digit.
pub open spec fn body_wf(s: Seq<u8>) -> bool {
    &&& digits_wf(int_part(s))
    &&& digits_wf(frac_part(s))
    &&& int_part(s).len() + frac_part(s).len() >= 1
}

/// The fractional digits scaled to thousandths, truncated after the third
/// digit.
pub open spec fn frac_scaled(s: Seq<u8>) -> int {
    if s.len() >= 3 {
        digits_val(s.take(3))
    } else if s.len() == 2 {
        digits_val(s) * 10
    } else if s.len() == 1 {
        digits_val(s) * 100
    } else {
        0
    }
}

/// The value of an unsigned decimal body in thousandths.
pub open spec fn body_value(s: Seq<u8>) -> int {
    digits_val(int_part(s)) * 1000 + frac_scaled(frac_part(s))
}

/// A decimal amount: an optional leading `-`, then an unsigned body.
pub open spec fn amount_wf(s: Seq<u8>) -> bool {
    if s.len() > 0 && s[0] == MINUS {
        body_wf(s.skip(1))
    } else {
        body_wf(s)
    }
}

/// The signed value of a decimal amount in thousandths, truncated toward
/// zero.
pub open spec fn amount_value(s: Seq<u8>) -> int {
    if s.len() > 0 && s[0] == MINUS {
        -body_value(s.skip(1))
    } else {
        body_value(s)
    }
}

/// What the whole record decodes to: the tag decides the kind; deposits and
/// withdrawals demand a well-formed amount that fits in `Money`; the other
/// kinds ignore the amount entirely.
pub open spec fn spec_decode(
    tag: Seq<u8>,
    client: ClientId,
    tx_id: TxId,
    amount: Option<Seq<u8>>,
) -> Result<Tx, DecodeError> {
    match spec_parse_tag(tag) {
        None => Err(DecodeError::UnknownTxType),
        Some(kind) => match kind {
            TagKind::Deposit => match spec_decode_amount(amount) {
                Ok(v) => Ok(Tx { client_id: client, tx_id, tx_type: TxType::Deposit(v), disputed: false }),
                Err(e) => Err(e),
            },
            TagKind::Withdrawal => match spec_decode_amount(amount) {
                Ok(v) => Ok(Tx { client_id: client, tx_id, tx_type: TxType::Withdrawal(v), disputed: false }),
                Err(e) => Err(e),
            },
            TagKind::Dispute => Ok(Tx { client_id: client, tx_id, tx_type: TxType::Dispute, disputed: false }),
            TagKind::Resolve => Ok(Tx { client_id: client, tx_id, tx_type: TxType::Resolve, disputed: false }),
            TagKind::Chargeback => Ok(Tx { client_id: client, tx_id, tx_type: TxType::Chargeback, disputed: false }),
        },
    }
}

/// The amount a money-moving record must carry: present, well formed, and
/// within the `Money` range.
pub open spec fn spec_decode_amount(amount: Option<Seq<u8>>) -> Result<Money, DecodeError> {
    match amount {
        None => Err(DecodeError::MissingAmount),
        Some(s) => {
            if !amount_wf(s) {
                Err(DecodeError::BadAmount)
            } else if amount_value(s) < i32::MIN || amount_value(s) > i32::MAX {
                Err(DecodeError::BadAmount)
            } else {
                Ok(amount_value(s) as Money)
            }
        },
    }
}

/// ASCII lower-casing of one byte.
fn to_lower(c: u8) -> (r: u8)
    ensures
        r == lower(c),
{
    if UPPER_A <= c && c <= UPPER_Z {
        c + CASE_GAP
    } else {
        c
    }
}

/// Case-insensitive comparison of `s` against the lower-case tag `t`.
fn bytes_eq_lower(s: &[u8], t: &[u8]) -> (r: bool)
    ensures
        r == tag_eq_lower(s@, t@),
{
    if s.len() != t.len() {
        return false;
    }
    let n = s.len();
    for i in 0..n
        invariant
            n == s@.len() == t@.len(),
            forall|j: int| 0 <= j < i ==> lower(#[trigger] s@[j]) == t@[j],
    {
        if to_lower(s[i]) != t[i] {
            return false;
        }
    }
    true
}

/// The first `.` is never past the end of the string.
proof fn lemma_dot_index_bounds(s: Seq<u8>)
    ensures
        0 <= dot_index(s) <= s.len(),
    decreases s.len(),
{
    if s.len() > 0 && s[0] != DOT {
        lemma_dot_index_bounds(s.skip(1));
    }
}

/// Pins the first `.` down: nothing before `k` is a dot, and either `k` is
/// one or the string ends there.
proof fn lemma_dot_index_at(s: Seq<u8>, k: int)
    requires
        0 <= k <= s.len(),
        forall|i: int| 0 <= i < k ==> s[i] != DOT,
        k < s.len() ==> s[k] == DOT,
    ensures
        dot_index(s) == k,
    decreases s.len(),
{
    if s.len() == 0 {
    } else if s[0] == DOT {
        assert(k == 0);
    } else {
        let t = s.skip(1);
        assert forall|i: int| 0 <= i < k - 1 implies t[i] != DOT by {
            assert(t[i] == s[i + 1]);
        }
        lemma_dot_index_at(t, k - 1);
    }
}

/// The first `.` comes no earlier than any dot-free prefix ends.
proof fn lemma_dot_index_min(s: Seq<u8>, k: int)
    requires
        0 <= k <= s.len(),
        forall|i: int| 0 <= i < k ==> s[i] != DOT,
    ensures
        dot_index(s) >= k,
    decreases s.len(),
{
    if s.len() == 0 || s[0] == DOT {
        assert(k == 0);
    } else if k > 0 {
        let t = s.skip(1);
        assert forall|i: int| 0 <= i < k - 1 implies t[i] != DOT by {
            assert(t[i] == s[i + 1]);
        }
        lemma_dot_index_min(t, k - 1);
    } else {
        lemma_dot_index_bounds(s);
    }
}

/// Unrolls [`digits_val`] one digit forward.
proof fn lemma_digits_val_take_succ(s: Seq<u8>, j: int)
    requires
        0 <= j < s.len(),
    ensures
        digits_val(s.take(j + 1)) == digits_val(s.take(j)) * 10 + (s[j] - DIGIT_ZERO),
{
    assert(s.take(j + 1).drop_last() =~= s.take(j));
    assert(s.take(j + 1).last() == s[j]);
}

/// A digit string names a number, never a negative value.
proof fn lemma_digits_val_nonneg(s: Seq<u8>)
    requires
        digits_wf(s),
    ensures
        digits_val(s) >= 0,
    decreases s.len(),
{
    if s.len() > 0 {
        assert(digits_wf(s.drop_last())) by {
            assert(forall|i: int|
                0 <= i < s.len() - 1 ==> #[trigger] s.drop_last()[i] == s[i]);
        }
        lemma_digits_val_nonneg(s.drop_last());
    }
}

/// More digits never shrink the number: the value of a whole digit string is
/// at least the value of any prefix of it.
proof fn lemma_digits_val_mono(s: Seq<u8>, j: int)
    requires
        digits_wf(s),
        0 <= j <= s.len(),
    ensures
        digits_val(s) >= digits_val(s.take(j)),
    decreases s.len(),
{
    if j == s.len() {
        assert(s.take(j) =~= s);
    } else {
        let t = s.drop_last();
        assert(digits_wf(t)) by {
            assert(forall|i: int| 0 <= i < t.len() ==> #[trigger] t[i] == s[i]);
        }
        assert(t.take(j) =~= s.take(j));
        lemma_digits_val_mono(t, j);
        lemma_digits_val_nonneg(t);
    }
}

/// Recognizes one of the five type tags, case-insensitively.
pub fn parse_tag(tag: &[u8]) -> (r: Option<TagKind>)
    ensures
        r == spec_parse_tag(tag@),
{
    let deposit: Vec<u8> = vec![100u8, 101u8, 112u8, 111u8, 115u8, 105u8, 116u8];
    let withdrawal: Vec<u8> = vec![119u8, 105u8, 116u8, 104u8, 100u8, 114u8, 97u8, 119u8, 97u8, 108u8];
    let dispute: Vec<u8> = vec![100u8, 105u8, 115u8, 112u8, 117u8, 116u8, 101u8];
    let resolve: Vec<u8> = vec![114u8, 101u8, 115u8, 111u8, 108u8, 118u8, 101u8];
    let chargeback: Vec<u8> = vec![99u8, 104u8, 97u8, 114u8, 103u8, 101u8, 98u8, 97u8, 99u8, 107u8];
    proof {
        assert(deposit@ =~= deposit_tag());
        assert(withdrawal@ =~= withdrawal_tag());
        assert(dispute@ =~= dispute_tag());
        assert(resolve@ =~= resolve_tag());
        assert(chargeback@ =~= chargeback_tag());
    }
    if bytes_eq_lower(tag, deposit.as_slice()) {
        Some(TagKind::Deposit)
    } else if bytes_eq_lower(tag, withdrawal.as_slice()) {
        Some(TagKind::Withdrawal)
    } else if bytes_eq_lower(tag, dispute.as_slice()) {
        Some(TagKind::Dispute)
    } else if bytes_eq_lower(tag, resolve.as_slice()) {
        Some(TagKind::Resolve)
    } else if bytes_eq_lower(tag, chargeback.as_slice()) {
        Some(TagKind::Chargeback)
    } else {
        None
    }
}

/// Parses a decimal amount into fixed-point `Money` by truncation: the
/// result is exactly [`amount_value`] whenever the text is well formed and
/// the value fits, and nothing otherwise.
#[verifier::rlimit(100)]
pub fn parse_amount(s: &[u8]) -> (r: Option<Money>)
    ensures
        match r {
            Some(v) => amount_wf(s@) && i32::MIN <= amount_value(s@) <= i32::MAX && v as int
                == amount_value(s@),
            None => !(amount_wf(s@) && i32::MIN <= amount_value(s@) <= i32::MAX),
        },
{
    let n = s.len();
    let neg = n > 0 && s[0] == MINUS;
    let off: usize = if neg {
        1
    } else {
        0
    };
    let ghost body = s@.skip(off as int);
    proof {
        assert(s@.skip(0) =~= s@);
    }

    let mut i: usize = off;
    let mut mag: u64 = 0;
    while i < n && s[i] != DOT
        invariant
            off <= i <= n,
            n == s@.len(),
            off == 1 <==> (n > 0 && s@[0] == MINUS),
            off <= 1,
            neg <==> off == 1,
            body == s@.skip(off as int),
            forall|k: int| 0 <= k < i - off ==> is_digit(#[trigger] body[k]),
            forall|k: int| 0 <= k < i - off ==> body[k] != DOT,
            mag == digits_val(body.take(i - off)),
            mag <= 2147483648u64,
        decreases n - i,
    {
        let c = s[i];
        proof {
            assert(body[i - off] == s@[i as int]);
        }
        if !(DIGIT_ZERO <= c && c <= DIGIT_NINE) {
            proof {
                assert(s@.skip(0) =~= s@);
                let j = i - off;
                lemma_dot_index_min(body, j + 1);
                lemma_dot_index_bounds(body);
                assert(int_part(body)[j] == body[j]);
                assert(!digits_wf(int_part(body)));
                assert(!amount_wf(s@));
            }
            return None;
        }
        proof {
            lemma_digits_val_take_succ(body, i - off);
        }
        mag = mag * 10 + ((c - DIGIT_ZERO) as u64);
        i = i + 1;
        if mag > 2147483648u64 {
            proof {
                assert(s@.skip(0) =~= s@);
                let j2 = i - off;
                if amount_wf(s@) {
                    assert(body_wf(body));
                    lemma_dot_index_min(body, j2);
                    lemma_dot_index_bounds(body);
                    let ip = int_part(body);
                    assert(ip.take(j2) =~= body.take(j2));
                    lemma_digits_val_mono(ip, j2);
                    lemma_frac_scaled_nonneg(frac_part(body));
                    assert(body_value(body) > i32::MAX);
                }
            }
            return None;
        }
    }

    let intlen = i - off;
    let total: u64;
    if i == n {
        // No dot: the whole body is the integer part.
        proof {
            lemma_dot_index_at(body, intlen as int);
            assert(body.take(intlen as int) =~= body);
        }
        if intlen == 0 {
            proof {
                assert(!body_wf(body));
            }
            return None;
        }
        total = mag * 1000;
        proof {
            assert(frac_part(body) =~= Seq::<u8>::empty());
            assert(body_wf(body));
            assert(body_value(body) == total as int);
        }
    } else {
        // A dot: the fractional digits follow it.
        proof {
            assert(body[i - off] == s@[i as int]);
            lemma_dot_index_at(body, intlen as int);
        }
        let ghost k = intlen as int;
        let ghost frac = body.skip(k + 1);
        i = i + 1;
        let fracstart = i;
        let mut fr: u64 = 0;
        let mut fc: usize = 0;
        while i < n
            invariant
                fracstart <= i <= n,
                n == s@.len(),
                off <= 1,
                fracstart == off + k + 1,
                0 <= k,
                off == 1 <==> (n > 0 && s@[0] == MINUS),
                neg <==> off == 1,
                body == s@.skip(off as int),
                k + 1 <= body.len(),
                dot_index(body) == k,
                frac == body.skip(k + 1),
                forall|t: int| 0 <= t < i - fracstart ==> is_digit(#[trigger] frac[t]),
                fc == if i - fracstart <= 3 {
                    i - fracstart
                } else {
                    3int
                },
                fr == digits_val(frac.take(fc as int)),
                fc == 0 ==> fr == 0,
                fc == 1 ==> fr <= 9,
                fc == 2 ==> fr <= 99,
                fc == 3 ==> fr <= 999,
            decreases n - i,
        {
            let c = s[i];
            proof {
                assert(frac[i - fracstart] == s@[i as int]);
            }
            if !(DIGIT_ZERO <= c && c <= DIGIT_NINE) {
                proof {
                    assert(s@.skip(0) =~= s@);
                    assert(frac_part(body) == frac);
                    assert(!digits_wf(frac_part(body)));
                    assert(!amount_wf(s@));
                }
                return None;
            }
            if fc < 3 {
                proof {
                    lemma_digits_val_take_succ(frac, fc as int);
                }
                fr = fr * 10 + ((c - DIGIT_ZERO) as u64);
                fc = fc + 1;
            }
            i = i + 1;
        }
        let fraclen = n - fracstart;
        if intlen == 0 && fraclen == 0 {
            proof {
                assert(frac_part(body) == frac);
                assert(!body_wf(body));
            }
            return None;
        }
        let scaled: u64 = if fc == 3 {
            fr
        } else if fc == 2 {
            fr * 10
        } else if fc == 1 {
            fr * 100
        } else {
            0
        };
        total = mag * 1000 + scaled;
        proof {
            assert(frac_part(body) == frac);
            assert(frac.len() == fraclen as int);
            if fraclen >= 3 {
                assert(fc == 3);
            } else {
                assert(frac.take(fc as int) =~= frac);
            }
            assert(frac_scaled(frac) == scaled as int);
            assert(int_part(body) == body.take(k));
            assert(digits_wf(int_part(body)));
            assert(body_wf(body));
            assert(body_value(body) == total as int);
        }
    }

    proof {
        assert(amount_wf(s@));
        assert(amount_value(s@) == if neg {
            -(total as int)
        } else {
            total as int
        });
    }
    if neg {
        if total > 2147483648u64 {
            return None;
        }
        let m: i64 = -(total as i64);
        Some(m as i32)
    } else {
        if total > 2147483647u64 {
            return None;
        }
        Some(total as i32)
    }
}

/// The fractional digits never subtract.
proof fn lemma_frac_scaled_nonneg(s: Seq<u8>)
    requires
        digits_wf(s),
    ensures
        frac_scaled(s) >= 0,
{
    if s.len() >= 3 {
        assert(digits_wf(s.take(3))) by {
            assert(forall|i: int| 0 <= i < 3 ==> #[trigger] s.take(3)[i] == s[i]);
        }
        lemma_digits_val_nonneg(s.take(3));
    } else {
        lemma_digits_val_nonneg(s);
    }
}

/// The amount a money-moving record must carry.
fn decode_amount(amount: Option<&[u8]>) -> (r: Result<Money, DecodeError>)
    ensures
        r == spec_decode_amount(
            match amount {
                Some(a) => Some(a@),
                None => None::<Seq<u8>>,
            },
        ),
{
    match amount {
        None => Err(DecodeError::MissingAmount),
        Some(s) => match parse_amount(s) {
            Some(v) => Ok(v),
            None => Err(DecodeError::BadAmount),
        },
    }
}

/// Decodes one raw record into a validated transaction, or fails for good:
/// an unknown tag, or a missing or malformed amount on a money-moving
/// record, is a terminal error, never a silent drop.
pub fn decode_record(tag: &[u8], client: ClientId, tx_id: TxId, amount: Option<&[u8]>) -> (r:
    Result<Tx, DecodeError>)
    ensures
        r == spec_decode(
            tag@,
            client,
            tx_id,
            match amount {
                Some(a) => Some(a@),
                None => None::<Seq<u8>>,
            },
        ),
{
    match parse_tag(tag) {
        None => Err(DecodeError::UnknownTxType),
        Some(TagKind::Deposit) => match decode_amount(amount) {
            Ok(v) => Ok(
                Tx { client_id: client, tx_id, tx_type: TxType::Deposit(v), disputed: false },
            ),
            Err(e) => Err(e),
        },
        Some(TagKind::Withdrawal) => match decode_amount(amount) {
            Ok(v) => Ok(
                Tx { client_id: client, tx_id, tx_type: TxType::Withdrawal(v), disputed: false },
            ),
            Err(e) => Err(e),
        },
        Some(TagKind::Dispute) => Ok(
            Tx { client_id: client, tx_id, tx_type: TxType::Dispute, disputed: false },
        ),
        Some(TagKind::Resolve) => Ok(
            Tx { client_id: client, tx_id, tx_type: TxType::Resolve, disputed: false },
        ),
        Some(TagKind::Chargeback) => Ok(
            Tx { client_id: client, tx_id, tx_type: TxType::Chargeback, disputed: false },
        ),
    }
}

} // verus!
