use vstd::prelude::*;

use crate::types::{Amount, Timestamp};

verus! {

/// One lot of credit and the time after which it expires.
#[derive(Clone, Copy, Debug, PartialEq, Eq, Structural)]
pub struct AgeAmount {
    pub amount: Amount,
    pub expired: Timestamp,
}

/// The lots of one account, oldest first.
#[derive(Debug)]
pub struct AgeAmounts {
    pub amounts: Vec<AgeAmount>,
}

/// The sum of the amounts of a sequence of lots.
pub open spec fn lots_total(s: Seq<AgeAmount>) -> nat
    decreases s.len(),
{
    if s.len() == 0 {
        0
    } else {
        (s[0].amount + lots_total(s.skip(1))) as nat
    }
}

/// A lot has expired once the clock is strictly past its expiry.
pub open spec fn is_expired(lot: AgeAmount, now: Timestamp) -> bool {
    now > lot.expired
}

/// The lots of `s` that have not expired at `now`, in their order.
pub open spec fn live_lots(s: Seq<AgeAmount>, now: Timestamp) -> Seq<AgeAmount>
    decreases s.len(),
{
    if s.len() == 0 {
        s
    } else if is_expired(s[0], now) {
        live_lots(s.skip(1), now)
    } else {
        seq![s[0]].add(live_lots(s.skip(1), now))
    }
}

/// The sum of the amounts of the lots of `s` that have expired at `now`.
pub open spec fn expired_total(s: Seq<AgeAmount>, now: Timestamp) -> nat
    decreases s.len(),
{
    if s.len() == 0 {
        0
    } else if is_expired(s[0], now) {
        (s[0].amount + expired_total(s.skip(1), now)) as nat
    } else {
        expired_total(s.skip(1), now)
    }
}

/// How many lots, oldest first, a payment of `need` uses up: every lot up to
/// and including the first one that brings the running total to `need`.
pub open spec fn consumed_count(s: Seq<AgeAmount>, need: nat) -> nat
    decreases s.len(),
{
    if need == 0 || s.len() == 0 {
        0
    } else if s[0].amount >= need {
        1
    } else {
        1 + consumed_count(s.skip(1), (need - s[0].amount) as nat)
    }
}

/// By how much the lots used up by a payment of `need` exceed it.
pub open spec fn overshoot(s: Seq<AgeAmount>, need: nat) -> nat
    decreases s.len(),
{
    if need == 0 || s.len() == 0 {
        0
    } else if s[0].amount >= need {
        (s[0].amount - need) as nat
    } else {
        overshoot(s.skip(1), (need - s[0].amount) as nat)
    }
}

/// The lots left after paying `need` oldest first: the lots that were not
/// reached, then the leftover of the last lot used, if any, as a new lot
/// that expires at `expiry`.
pub open spec fn lots_after_payment(s: Seq<AgeAmount>, need: nat, expiry: Timestamp) -> Seq<
    AgeAmount,
> {
    let rest = s.skip(consumed_count(s, need) as int);
    let over = overshoot(s, need);
    if over > 0 {
        rest.push(AgeAmount { amount: over as Amount, expired: expiry })
    } else {
        rest
    }
}

pub proof fn lemma_lots_total_skip(s: Seq<AgeAmount>, i: int)
    requires
        0 <= i < s.len(),
    ensures
        lots_total(s.skip(i)) == s[i].amount + lots_total(s.skip(i + 1)),
{
    assert(s.skip(i).skip(1) =~= s.skip(i + 1));
}

pub proof fn lemma_lots_total_push(s: Seq<AgeAmount>, lot: AgeAmount)
    ensures
        lots_total(s.push(lot)) == lots_total(s) + lot.amount,
    decreases s.len(),
{
    if s.len() > 0 {
        assert(s.push(lot).skip(1) =~= s.skip(1).push(lot));
        lemma_lots_total_push(s.skip(1), lot);
    } else {
        assert(s.push(lot).skip(1) =~= s);
    }
}

/// Lots split into those still live and those expired, by amount.
pub proof fn lemma_live_expired_split(s: Seq<AgeAmount>, now: Timestamp)
    ensures
        lots_total(live_lots(s, now)) + expired_total(s, now) == lots_total(s),
    decreases s.len(),
{
    if s.len() > 0 {
        lemma_live_expired_split(s.skip(1), now);
        if !is_expired(s[0], now) {
            let l = seq![s[0]].add(live_lots(s.skip(1), now));
            assert(l.skip(1) =~= live_lots(s.skip(1), now));
        }
    }
}

/// No lot of the live part has expired; a second sweep keeps all of them.
pub proof fn lemma_live_lots_stable(s: Seq<AgeAmount>, now: Timestamp)
    ensures
        live_lots(live_lots(s, now), now) == live_lots(s, now),
        expired_total(live_lots(s, now), now) == 0,
    decreases s.len(),
{
    if s.len() > 0 {
        lemma_live_lots_stable(s.skip(1), now);
        if !is_expired(s[0], now) {
            let l = seq![s[0]].add(live_lots(s.skip(1), now));
            assert(l.skip(1) =~= live_lots(s.skip(1), now));
        }
    }
}

/// A payment of at most the total leaves the total less the payment.
pub proof fn lemma_payment_total(s: Seq<AgeAmount>, need: nat, expiry: Timestamp)
    requires
        need <= lots_total(s),
    ensures
        lots_total(lots_after_payment(s, need, expiry)) + need == lots_total(s),
        consumed_count(s, need) <= s.len(),
{
    lemma_consumed_total(s, need);
    let rest = s.skip(consumed_count(s, need) as int);
    let over = overshoot(s, need);
    if over > 0 {
        lemma_lots_total_push(rest, AgeAmount { amount: over as Amount, expired: expiry });
    }
}

proof fn lemma_consumed_total(s: Seq<AgeAmount>, need: nat)
    requires
        need <= lots_total(s),
    ensures
        consumed_count(s, need) <= s.len(),
        lots_total(s.skip(consumed_count(s, need) as int)) + need + overshoot(s, need)
            == lots_total(s),
        overshoot(s, need) <= u128::MAX,
    decreases s.len(),
{
    if need == 0 || s.len() == 0 {
        assert(s.skip(0) =~= s);
    } else if s[0].amount >= need {
    } else {
        lemma_consumed_total(s.skip(1), (need - s[0].amount) as nat);
        let k = consumed_count(s.skip(1), (need - s[0].amount) as nat);
        assert(s.skip(1).skip(k as int) =~= s.skip(k as int + 1));
    }
}

impl AgeAmounts {
    /// The sum of the amounts of all lots.
    pub fn sum(&self) -> (r: Amount)
        requires
            lots_total(self.amounts@) <= u128::MAX,
        ensures
            r == lots_total(self.amounts@),
    {
        let s = Ghost(self.amounts@);
        let mut total: Amount = 0;
        let mut i: usize = 0;
        proof {
            assert(s@.skip(0) =~= s@);
        }
        while i < self.amounts.len()
            invariant
                s@ == self.amounts@,
                i <= s@.len(),
                lots_total(s@) <= u128::MAX,
                total + lots_total(s@.skip(i as int)) == lots_total(s@),
            decreases s@.len() - i,
        {
            proof {
                lemma_lots_total_skip(s@, i as int);
            }
            total = total + self.amounts[i].amount;
            i = i + 1;
        }
        proof {
            assert(s@.skip(i as int).len() == 0);
        }
        total
    }

    /// Pays `amount` out of the lots, oldest first: each lot up to and
    /// including the one that brings the running total to `amount` is used
    /// up, and what that last lot held beyond `amount`, if anything, comes
    /// back at the end as a new lot that expires at `expiry`.
    pub fn pay(&mut self, amount: Amount, expiry: Timestamp)
        requires
            amount <= lots_total(old(self).amounts@),
            lots_total(old(self).amounts@) <= u128::MAX,
        ensures
            final(self).amounts@ == lots_after_payment(old(self).amounts@, amount as nat, expiry),
    {
        let s = Ghost(self.amounts@);
        let mut total: Amount = 0;
        let mut i: usize = 0;
        proof {
            assert(s@.skip(0) =~= s@);
        }
        while total < amount
            invariant
                s@ == self.amounts@,
                i <= s@.len(),
                lots_total(s@) <= u128::MAX,
                amount <= lots_total(s@),
                total + lots_total(s@.skip(i as int)) == lots_total(s@),
                total < amount ==> {
                    &&& consumed_count(s@, amount as nat) == i + consumed_count(
                        s@.skip(i as int),
                        (amount - total) as nat,
                    )
                    &&& overshoot(s@, amount as nat) == overshoot(
                        s@.skip(i as int),
                        (amount - total) as nat,
                    )
                },
                total >= amount ==> {
                    &&& consumed_count(s@, amount as nat) == i
                    &&& overshoot(s@, amount as nat) == total - amount
                },
            decreases s@.len() - i,
        {
            if i == self.amounts.len() {
                proof {
                    assert(s@.skip(i as int).len() == 0);
                }
            }
            proof {
                lemma_lots_total_skip(s@, i as int);
                assert(s@.skip(i as int).skip(1) =~= s@.skip(i + 1));
            }
            total = total + self.amounts[i].amount;
            i = i + 1;
        }
        let mut rest = self.amounts.split_off(i);
        proof {
            assert(rest@ =~= s@.skip(i as int));
        }
        if total > amount {
            rest.push(AgeAmount { amount: total - amount, expired: expiry });
        }
        self.amounts = rest;
    }

    /// Takes out the lots that have expired at `now`, keeping the others in
    /// their order, and returns the sum of what was taken out.
    pub fn retain_live(&mut self, now: Timestamp) -> (expired: Amount)
        requires
            lots_total(old(self).amounts@) <= u128::MAX,
        ensures
            final(self).amounts@ == live_lots(old(self).amounts@, now),
            expired == expired_total(old(self).amounts@, now),
    {
        let s = Ghost(self.amounts@);
        let mut live: Vec<AgeAmount> = Vec::new();
        let mut expired: Amount = 0;
        let mut i: usize = 0;
        proof {
            assert(s@.skip(0) =~= s@);
            lemma_live_expired_split(s@, now);
            assert(live@.add(live_lots(s@, now)) =~= live_lots(s@, now));
        }
        while i < self.amounts.len()
            invariant
                s@ == self.amounts@,
                i <= s@.len(),
                expired_total(s@, now) <= u128::MAX,
                live@.add(live_lots(s@.skip(i as int), now)) == live_lots(s@, now),
                expired + expired_total(s@.skip(i as int), now) == expired_total(s@, now),
            decreases s@.len() - i,
        {
            let lot = self.amounts[i];
            let ghost before = live@;
            proof {
                assert(s@.skip(i as int).skip(1) =~= s@.skip(i + 1));
            }
            if now > lot.expired {
                expired = expired + lot.amount;
            } else {
                live.push(lot);
                proof {
                    let rest = live_lots(s@.skip(i + 1), now);
                    assert(live@.add(rest) =~= before.add(seq![lot].add(rest)));
                }
            }
            i = i + 1;
        }
        proof {
            assert(s@.skip(i as int).len() == 0);
            assert(live@ =~= live@.add(live_lots(s@.skip(i as int), now)));
        }
        self.amounts = live;
        expired
    }
}

} // verus!
