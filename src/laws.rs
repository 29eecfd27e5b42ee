use vstd::prelude::*;

use crate::contract::{call_outcome, ApplicationCall, ContractError, Message};
use crate::lots::{
    lemma_live_expired_split, lemma_live_lots_stable, lemma_lots_total_push, lemma_payment_total,
    lots_total, AgeAmount,
};
use crate::state::{
    accounts_expired, accounts_total, lemma_index_of, lemma_same_owners, swept, AccountModel,
    CreditModel,
};
use crate::types::{Amount, ApplicationId, Owner, Timestamp};

verus! {

/// One ledger operation, with the time at which it runs.
pub enum LedgerOp {
    Reward { owner: Owner, amount: Amount, now: Timestamp },
    Transfer { from: Owner, to: Owner, amount: Amount, now: Timestamp },
    Liquidate { now: Timestamp },
}

impl CreditModel {
    /// The ledger after `op`; a refused operation leaves it as it was.
    pub open spec fn step(self, op: LedgerOp) -> CreditModel {
        match op {
            LedgerOp::Reward { owner, amount, now } => if self.can_reward(owner, amount) {
                self.rewarded(owner, amount, now)
            } else {
                self
            },
            LedgerOp::Transfer { from, to, amount, now } => if self.transfer_error(
                from,
                to,
                amount,
            ).is_none() {
                self.transferred(from, to, amount, now)
            } else {
                self
            },
            LedgerOp::Liquidate { now } => self.liquidated(now),
        }
    }
}

/// The ledger after each of `ops` in turn.
pub open spec fn run(s: CreditModel, ops: Seq<LedgerOp>) -> CreditModel
    decreases ops.len(),
{
    if ops.len() == 0 {
        s
    } else {
        run(s.step(ops[0]), ops.skip(1))
    }
}

/// Every reward among `ops`, run from `s`, is covered by the supply left to
/// issue when it comes.
pub open spec fn within_supply(s: CreditModel, ops: Seq<LedgerOp>) -> bool
    decreases ops.len(),
{
    ops.len() == 0 || ((match ops[0] {
        LedgerOp::Reward { amount, .. } => amount <= s.balance,
        _ => true,
    }) && within_supply(s.step(ops[0]), ops.skip(1)))
}

proof fn lemma_accounts_total_update(s: Seq<AccountModel>, i: int, a: AccountModel)
    requires
        0 <= i < s.len(),
    ensures
        accounts_total(s.update(i, a)) + lots_total(s[i].lots) == accounts_total(s) + lots_total(
            a.lots,
        ),
    decreases s.len(),
{
    if i == 0 {
        assert(s.update(0, a).skip(1) =~= s.skip(1));
    } else {
        lemma_accounts_total_update(s.skip(1), i - 1, a);
        assert(s.update(i, a).skip(1) =~= s.skip(1).update(i - 1, a));
    }
}

proof fn lemma_accounts_total_push(s: Seq<AccountModel>, a: AccountModel)
    ensures
        accounts_total(s.push(a)) == accounts_total(s) + lots_total(a.lots),
    decreases s.len(),
{
    if s.len() > 0 {
        assert(s.push(a).skip(1) =~= s.skip(1).push(a));
        lemma_accounts_total_push(s.skip(1), a);
    } else {
        assert(s.push(a).skip(1) =~= s);
    }
}

proof fn lemma_accounts_swept(s: Seq<AccountModel>, now: Timestamp)
    ensures
        accounts_total(s.map_values(|a: AccountModel| swept(a, now))) + accounts_expired(s, now)
            == accounts_total(s),
        accounts_expired(s.map_values(|a: AccountModel| swept(a, now)), now) == 0,
    decreases s.len(),
{
    if s.len() > 0 {
        let m = s.map_values(|a: AccountModel| swept(a, now));
        assert(m.skip(1) =~= s.skip(1).map_values(|a: AccountModel| swept(a, now)));
        lemma_accounts_swept(s.skip(1), now);
        lemma_live_expired_split(s[0].lots, now);
        lemma_live_lots_stable(s[0].lots, now);
    }
}

proof fn lemma_with_lot(s: CreditModel, o: Owner, lot: AgeAmount)
    requires
        s.wf(),
        s.spendable_of(o) + lot.amount <= u128::MAX,
    ensures
        s.with_lot(o, lot).wf(),
        s.with_lot(o, lot).issued() == s.issued() + lot.amount,
{
    let t = s.with_lot(o, lot);
    if s.has_account(o) {
        let i = s.index_of(o);
        lemma_lots_total_push(s.accounts[i].lots, lot);
        lemma_accounts_total_update(s.accounts, i, t.accounts[i]);
        assert forall|k: int| 0 <= k < t.accounts.len() implies t.accounts[k].owner
            == s.accounts[k].owner by {}
    } else {
        let a = AccountModel { owner: o, lots: seq![lot], spendable: lot.amount as nat };
        assert(a.lots.skip(1) =~= Seq::<AgeAmount>::empty());
        assert(lots_total(a.lots.skip(1)) == 0);
        lemma_accounts_total_push(s.accounts, a);
        assert forall|k: int| 0 <= k < s.accounts.len() implies t.accounts[k].owner != o by {}
    }
}

proof fn lemma_debited(s: CreditModel, from: Owner, amount: Amount, now: Timestamp)
    requires
        s.wf(),
        amount <= s.spendable_of(from),
    ensures
        s.debited(from, amount, now).wf(),
        s.debited(from, amount, now).issued() + amount == s.issued(),
        forall|o: Owner|
            #[trigger] s.debited(from, amount, now).spendable_of(o) == if o == from {
                s.spendable_of(o) - amount
            } else {
                s.spendable_of(o) as int
            },
{
    let t = s.debited(from, amount, now);
    if s.has_account(from) {
        let i = s.index_of(from);
        lemma_payment_total(s.accounts[i].lots, amount as nat, s.fresh_expiry(now));
        lemma_accounts_total_update(s.accounts, i, t.accounts[i]);
        assert forall|k: int| 0 <= k < t.accounts.len() implies t.accounts[k].owner
            == s.accounts[k].owner by {}
        assert(t.wf());
        assert forall|o: Owner| #[trigger] t.spendable_of(o) == if o == from {
            s.spendable_of(o) - amount
        } else {
            s.spendable_of(o) as int
        } by {
            lemma_same_owners(s, t, o);
        }
    }
}

proof fn lemma_liquidated(s: CreditModel, now: Timestamp)
    requires
        s.wf(),
    ensures
        s.liquidated(now).wf(),
        s.liquidated(now).issued() + accounts_expired(s.accounts, now) == s.issued(),
{
    let t = s.liquidated(now);
    lemma_accounts_swept(s.accounts, now);
    assert forall|k: int| 0 <= k < t.accounts.len() implies #[trigger] t.accounts[k].spendable
        == lots_total(t.accounts[k].lots) && t.accounts[k].spendable <= u128::MAX by {
        lemma_live_expired_split(s.accounts[k].lots, now);
    }
}

proof fn lemma_step(s: CreditModel, op: LedgerOp)
    requires
        s.wf(),
        s.balance + s.issued() == s.initial_supply,
        match op {
            LedgerOp::Reward { amount, .. } => amount <= s.balance,
            _ => true,
        },
    ensures
        s.step(op).wf(),
        s.step(op).initial_supply == s.initial_supply,
        s.step(op).balance + s.step(op).issued() == s.initial_supply,
{
    match op {
        LedgerOp::Reward { owner, amount, now } => {
            if s.can_reward(owner, amount) {
                lemma_with_lot(s, owner, AgeAmount { amount, expired: s.fresh_expiry(now) });
            }
        },
        LedgerOp::Transfer { from, to, amount, now } => {
            if s.transfer_error(from, to, amount).is_none() {
                lemma_debited(s, from, amount, now);
                let d = s.debited(from, amount, now);
                assert(d.spendable_of(to) + amount <= u128::MAX);
                lemma_with_lot(d, to, AgeAmount { amount, expired: s.fresh_expiry(now) });
            }
        },
        LedgerOp::Liquidate { now } => {
            lemma_liquidated(s, now);
        },
    }
}

/// Conservation: while no reward asks for more than the supply left to
/// issue, rewards, transfers and sweeps keep the supply left to issue plus
/// the sum of all lots equal to the initial supply.
pub proof fn lemma_conservation(s: CreditModel, ops: Seq<LedgerOp>)
    requires
        s.wf(),
        s.balance + s.issued() == s.initial_supply,
        within_supply(s, ops),
    ensures
        run(s, ops).wf(),
        run(s, ops).initial_supply == s.initial_supply,
        run(s, ops).balance + run(s, ops).issued() == s.initial_supply,
    decreases ops.len(),
{
    if ops.len() > 0 {
        lemma_step(s, ops[0]);
        lemma_conservation(s.step(ops[0]), ops.skip(1));
    }
}

/// In a well-formed ledger the spendable total kept for each owner is the
/// sum of that owner's lots, so a balance read from it is that sum.
pub proof fn lemma_spendable_matches_lots(s: CreditModel, owner: Owner)
    requires
        s.wf(),
    ensures
        s.spendable_of(owner) == lots_total(s.lots_of(owner)),
{
}

/// A second sweep at the same time changes nothing.
pub proof fn lemma_liquidate_idempotent(s: CreditModel, now: Timestamp)
    ensures
        s.liquidated(now).liquidated(now) == s.liquidated(now),
{
    let once = s.liquidated(now);
    lemma_accounts_swept(s.accounts, now);
    assert forall|k: int| 0 <= k < once.accounts.len() implies swept(once.accounts[k], now)
        == once.accounts[k] by {
        lemma_live_lots_stable(s.accounts[k].lots, now);
    }
    assert(once.accounts.map_values(|a: AccountModel| swept(a, now)) =~= once.accounts);
}

/// An application outside the reward callers is refused a reward; once its
/// identity is added to them, the same request is accepted.
pub proof fn lemma_reward_callers_gate(
    s: CreditModel,
    caller: ApplicationId,
    owner: Owner,
    amount: Amount,
    ids: Seq<ApplicationId>,
)
    requires
        ids.contains(caller),
    ensures
        !s.reward_callers.contains(caller) ==> call_outcome(
            s,
            caller,
            ApplicationCall::Reward { owner, amount },
        ) == Err::<Message, ContractError>(ContractError::CallerNotAllowed),
        call_outcome(
            s.with_reward_callers(ids.to_set()),
            caller,
            ApplicationCall::Reward { owner, amount },
        ) == Ok::<Message, ContractError>(Message::Reward { owner, amount }),
{
}

} // verus!
