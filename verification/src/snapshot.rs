//! The snapshotter: one pass over the finished account store, producing one
//! balance row per known client, with money rendered back to decimal text at
//! the same three-digit precision used on input.

use vstd::prelude::*;

use crate::account::{Account, AccountView};
use crate::decode::{DIGIT_ZERO, DOT, MINUS};
use crate::store::AccountStore;
use crate::tx::{ClientId, Money};

verus! {

/// One output row: final balances of one account. `total` is the exact sum
/// of available and held, wide enough that it never wraps.
#[derive(Debug, Clone, Copy, PartialEq, Eq, Structural)]
pub struct Snapshot {
    pub client: ClientId,
    pub available: Money,
    pub held: Money,
    pub total: i64,
    pub locked: bool,
}

/// A row faithfully reports one account's final state.
pub open spec fn snapshot_matches(s: Snapshot, client: ClientId, a: AccountView) -> bool {
    &&& s.client == client
    &&& s.available as int == a.available
    &&& s.held as int == a.held
    &&& s.total as int == a.available + a.held
    &&& s.locked == a.locked
}

impl Snapshot {
    /// Reads one account into its output row; the account is not changed.
    pub fn from_account(client: ClientId, account: &Account) -> (r: Snapshot)
        ensures
            snapshot_matches(r, client, account@),
    {
        Snapshot {
            client,
            available: account.available,
            held: account.held,
            total: account.available as i64 + account.held as i64,
            locked: account.locked,
        }
    }
}

/// The decimal digits of `n`, most significant first, no leading zeros
/// (a single zero for zero).
pub open spec fn dec_digits(n: nat) -> Seq<u8>
    decreases n,
{
    if n < 10 {
        seq![(DIGIT_ZERO + n) as u8]
    } else {
        dec_digits(n / 10).push((DIGIT_ZERO + n % 10) as u8)
    }
}

/// The decimal rendering of a money value held in thousandths: an optional
/// sign, the units, a dot, and exactly three fractional digits.
pub open spec fn money_text(m: int) -> Seq<u8> {
    let mag = if m < 0 {
        -m
    } else {
        m
    };
    (if m < 0 {
        seq![MINUS]
    } else {
        Seq::<u8>::empty()
    }) + dec_digits((mag / 1000) as nat) + seq![
        DOT,
        (DIGIT_ZERO + (mag / 100) % 10) as u8,
        (DIGIT_ZERO + (mag / 10) % 10) as u8,
        (DIGIT_ZERO + mag % 10) as u8,
    ]
}

/// Appends the decimal digits of `n`, most significant first.
fn push_digits(n: u64, out: &mut Vec<u8>)
    ensures
        final(out)@ == old(out)@ + dec_digits(n as nat),
    decreases n,
{
    if n >= 10 {
        push_digits(n / 10, out);
    }
    out.push(DIGIT_ZERO + (n % 10) as u8);
    proof {
        assert(out@ =~= old(out)@ + dec_digits(n as nat));
    }
}

/// Renders a money value back to decimal text: truncation-free, exactly
/// three fractional digits, the same scale the decoder used.
#[verifier::rlimit(100)]
pub fn money_to_text(m: i64) -> (r: Vec<u8>)
    requires
        i64::MIN < m,
    ensures
        r@ == money_text(m as int),
{
    let mut out: Vec<u8> = Vec::new();
    let mag: u64 = if m < 0 {
        out.push(MINUS);
        (-m) as u64
    } else {
        m as u64
    };
    let ghost sign: Seq<u8> = if m < 0 {
        seq![MINUS]
    } else {
        Seq::<u8>::empty()
    };
    proof {
        assert(out@ =~= sign);
        assert(mag as int == if m < 0 {
            -(m as int)
        } else {
            m as int
        });
    }
    push_digits(mag / 1000, &mut out);
    proof {
        assert(out@ == sign + dec_digits((mag / 1000) as nat));
    }
    out.push(DOT);
    out.push(DIGIT_ZERO + ((mag / 100) % 10) as u8);
    out.push(DIGIT_ZERO + ((mag / 10) % 10) as u8);
    out.push(DIGIT_ZERO + (mag % 10) as u8);
    proof {
        assert(out@ =~= sign + dec_digits((mag / 1000) as nat) + seq![
            DOT,
            (DIGIT_ZERO + ((mag as int) / 100) % 10) as u8,
            (DIGIT_ZERO + ((mag as int) / 10) % 10) as u8,
            (DIGIT_ZERO + (mag as int) % 10) as u8,
        ]);
        assert(out@ =~= money_text(m as int));
    }
    out
}

impl AccountStore {
    /// One row per known client, in first-seen order; the store itself is
    /// left untouched, ready to be consumed by the caller.
    pub fn snapshot(&self) -> (r: Vec<Snapshot>)
        requires
            self.wf(),
        ensures
            r@.len() == self.clients().len(),
            forall|i: int|
                0 <= i < r@.len() ==> snapshot_matches(
                    #[trigger] r@[i],
                    self.clients()[i],
                    self@[self.clients()[i]],
                ),
    {
        broadcast use vstd::std_specs::hash::group_hash_axioms;

        let mut r: Vec<Snapshot> = Vec::new();
        let n = self.order.len();
        for i in 0..n
            invariant
                n == self.order@.len(),
                self.wf(),
                r@.len() == i,
                forall|j: int|
                    0 <= j < i ==> snapshot_matches(
                        #[trigger] r@[j],
                        self.order@[j],
                        self@[self.order@[j]],
                    ),
        {
            let c = self.order[i];
            proof {
                assert(self.order@.contains(c));
                assert(self.order@.to_set().contains(c));
            }
            match self.accounts.get(&c) {
                Some(account) => {
                    r.push(Snapshot::from_account(c, account));
                },
                None => {
                    proof {
                        assert(false);
                    }
                },
            }
        }
        r
    }
}

} // verus!
