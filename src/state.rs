use vstd::prelude::*;

use crate::lots::{
    expired_total, lemma_live_expired_split, lemma_lots_total_push, lemma_payment_total,
    live_lots, lots_after_payment, lots_total, AgeAmount, AgeAmounts,
};
use crate::types::{expiry_after, Amount, ApplicationId, Owner, Timestamp};

verus! {

/// The supply that a ledger starts with when it is created with none:
/// one hundred million tokens of 10^18 units each.
pub const DEFAULT_INITIAL_SUPPLY: Amount = 100_000_000_000_000_000_000_000_000;

/// The parameters a ledger is created with, and hands to its replicas.
#[derive(Clone, Copy, Debug, PartialEq, Eq, Structural)]
pub struct InitialState {
    pub initial_supply: Amount,
    /// How long a lot stays spendable; added as it is to the timestamp of issue.
    pub amount_alive_ms: u64,
}

/// Why a ledger operation was refused. A refused operation changes nothing.
#[derive(Clone, Copy, Debug, PartialEq, Eq, Structural)]
pub enum StateError {
    /// The payer's spendable total is below the amount.
    InsufficientAccountBalance,
    /// The payee's total would no longer fit in an `Amount`.
    AmountOverflow,
}

/// One account as the contracts see it.
pub struct AccountModel {
    pub owner: Owner,
    pub lots: Seq<AgeAmount>,
    pub spendable: nat,
}

/// A ledger as the contracts see it.
pub struct CreditModel {
    pub initial_supply: nat,
    /// What is left of the supply to issue.
    pub balance: nat,
    pub amount_alive_ms: u64,
    /// Accounts in the order they were opened.
    pub accounts: Seq<AccountModel>,
    pub reward_callers: Set<ApplicationId>,
    pub transfer_callers: Set<ApplicationId>,
}

/// The sum of the lots of all accounts.
pub open spec fn accounts_total(s: Seq<AccountModel>) -> nat
    decreases s.len(),
{
    if s.len() == 0 {
        0
    } else {
        lots_total(s[0].lots) + accounts_total(s.skip(1))
    }
}

/// The sum of the lots of all accounts that have expired at `now`.
pub open spec fn accounts_expired(s: Seq<AccountModel>, now: Timestamp) -> nat
    decreases s.len(),
{
    if s.len() == 0 {
        0
    } else {
        expired_total(s[0].lots, now) + accounts_expired(s.skip(1), now)
    }
}

/// An account after its expired lots are swept out.
pub open spec fn swept(a: AccountModel, now: Timestamp) -> AccountModel {
    AccountModel {
        owner: a.owner,
        lots: live_lots(a.lots, now),
        spendable: if a.spendable >= expired_total(a.lots, now) {
            (a.spendable - expired_total(a.lots, now)) as nat
        } else {
            0
        },
    }
}

/// `x`, clamped to the range of `Amount`.
pub open spec fn clamp_amount(x: int) -> nat {
    if x > u128::MAX {
        u128::MAX as nat
    } else if x < 0 {
        0
    } else {
        x as nat
    }
}

impl CreditModel {
    /// Owners are distinct, and each account's spendable total is the sum
    /// of its lots and fits in an `Amount`.
    pub open spec fn wf(self) -> bool {
        &&& self.initial_supply <= u128::MAX
        &&& self.balance <= u128::MAX
        &&& forall|i: int, j: int|
            0 <= i < self.accounts.len() && 0 <= j < self.accounts.len() && i != j
                ==> self.accounts[i].owner != self.accounts[j].owner
        &&& forall|i: int|
            0 <= i < self.accounts.len() ==> {
                &&& #[trigger] self.accounts[i].spendable == lots_total(self.accounts[i].lots)
                &&& self.accounts[i].spendable <= u128::MAX
            }
    }

    pub open spec fn has_account(self, owner: Owner) -> bool {
        exists|i: int| 0 <= i < self.accounts.len() && self.accounts[i].owner == owner
    }

    /// The position of the account of `owner`, or -1 where it has none.
    pub open spec fn index_of(self, owner: Owner) -> int {
        if self.has_account(owner) {
            choose|i: int| 0 <= i < self.accounts.len() && self.accounts[i].owner == owner
        } else {
            -1
        }
    }

    /// The lots of `owner`, oldest first; none where it has no account.
    pub open spec fn lots_of(self, owner: Owner) -> Seq<AgeAmount> {
        if self.has_account(owner) {
            self.accounts[self.index_of(owner)].lots
        } else {
            Seq::empty()
        }
    }

    /// The spendable total of `owner`; zero where it has no account.
    pub open spec fn spendable_of(self, owner: Owner) -> nat {
        if self.has_account(owner) {
            self.accounts[self.index_of(owner)].spendable
        } else {
            0
        }
    }

    /// The expiry of a lot issued at `now`.
    pub open spec fn fresh_expiry(self, now: Timestamp) -> Timestamp {
        expiry_after(now, self.amount_alive_ms)
    }

    /// The ledger with `lot` appended to the account of `owner`, which is
    /// opened if need be.
    pub open spec fn with_lot(self, owner: Owner, lot: AgeAmount) -> CreditModel {
        if self.has_account(owner) {
            let i = self.index_of(owner);
            CreditModel {
                accounts: self.accounts.update(
                    i,
                    AccountModel {
                        owner,
                        lots: self.accounts[i].lots.push(lot),
                        spendable: (self.accounts[i].spendable + lot.amount) as nat,
                    },
                ),
                ..self
            }
        } else {
            CreditModel {
                accounts: self.accounts.push(
                    AccountModel { owner, lots: seq![lot], spendable: lot.amount as nat },
                ),
                ..self
            }
        }
    }

    /// A reward is refused only where the account's total would overflow.
    pub open spec fn can_reward(self, owner: Owner, amount: Amount) -> bool {
        self.spendable_of(owner) + amount <= u128::MAX
    }

    /// The ledger after `amount` is issued to `owner` at `now`: a new lot at
    /// the end of the account, and the supply lowered, down to zero at most.
    pub open spec fn rewarded(self, owner: Owner, amount: Amount, now: Timestamp) -> CreditModel {
        CreditModel {
            balance: clamp_amount(self.balance - amount),
            ..self.with_lot(owner, AgeAmount { amount, expired: self.fresh_expiry(now) })
        }
    }

    /// Why a transfer would be refused, if it would be.
    pub open spec fn transfer_error(self, from: Owner, to: Owner, amount: Amount) -> Option<
        StateError,
    > {
        if self.spendable_of(from) < amount {
            Some(StateError::InsufficientAccountBalance)
        } else if from != to && self.spendable_of(to) + amount > u128::MAX {
            Some(StateError::AmountOverflow)
        } else {
            None
        }
    }

    /// The ledger after `amount` is paid out of the account of `from`,
    /// oldest lots first, at `now`.
    pub open spec fn debited(self, from: Owner, amount: Amount, now: Timestamp) -> CreditModel {
        if self.has_account(from) {
            let i = self.index_of(from);
            CreditModel {
                accounts: self.accounts.update(
                    i,
                    AccountModel {
                        owner: from,
                        lots: lots_after_payment(
                            self.accounts[i].lots,
                            amount as nat,
                            self.fresh_expiry(now),
                        ),
                        spendable: (self.accounts[i].spendable - amount) as nat,
                    },
                ),
                ..self
            }
        } else {
            self
        }
    }

    /// The ledger after a transfer of `amount` from `from` to `to` at `now`:
    /// the payer's lots are used up oldest first, and the payee gets a new lot.
    pub open spec fn transferred(self, from: Owner, to: Owner, amount: Amount, now: Timestamp) -> CreditModel {
        self.debited(from, amount, now).with_lot(
            to,
            AgeAmount { amount, expired: self.fresh_expiry(now) },
        )
    }

    /// The ledger after the lots expired at `now` go back to the supply.
    pub open spec fn liquidated(self, now: Timestamp) -> CreditModel {
        CreditModel {
            balance: clamp_amount(self.balance + accounts_expired(self.accounts, now) as int),
            accounts: self.accounts.map_values(|a: AccountModel| swept(a, now)),
            ..self
        }
    }

    /// The ledger with the parameters of `state`, and all of its initial
    /// supply left to issue; a supply of zero stands for the default one.
    pub open spec fn initialized(self, state: InitialState) -> CreditModel {
        let supply = if state.initial_supply == 0 {
            DEFAULT_INITIAL_SUPPLY
        } else {
            state.initial_supply
        };
        CreditModel {
            initial_supply: supply as nat,
            balance: supply as nat,
            amount_alive_ms: state.amount_alive_ms,
            ..self
        }
    }

    pub open spec fn with_reward_callers(self, ids: Set<ApplicationId>) -> CreditModel {
        CreditModel { reward_callers: self.reward_callers.union(ids), ..self }
    }

    pub open spec fn with_transfer_callers(self, ids: Set<ApplicationId>) -> CreditModel {
        CreditModel { transfer_callers: self.transfer_callers.union(ids), ..self }
    }

    /// The sum of the lots of all accounts.
    pub open spec fn issued(self) -> nat {
        accounts_total(self.accounts)
    }
}

/// One account: its owner, its lots and its spendable total.
pub struct Account {
    pub owner: Owner,
    pub amounts: AgeAmounts,
    pub spendable: Amount,
}

impl Account {
    pub open spec fn model(self) -> AccountModel {
        AccountModel {
            owner: self.owner,
            lots: self.amounts.amounts@,
            spendable: self.spendable as nat,
        }
    }
}

/// A credit ledger: the supply left to issue, the accounts, and who may
/// ask for rewards and transfers on others' behalf.
pub struct Credit {
    initial_supply: Amount,
    balance: Amount,
    amount_alive_ms: u64,
    accounts: Vec<Account>,
    reward_callers: Vec<ApplicationId>,
    transfer_callers: Vec<ApplicationId>,
}

impl View for Credit {
    type V = CreditModel;

    closed spec fn view(&self) -> CreditModel {
        CreditModel {
            initial_supply: self.initial_supply as nat,
            balance: self.balance as nat,
            amount_alive_ms: self.amount_alive_ms,
            accounts: self.accounts@.map_values(|a: Account| a.model()),
            reward_callers: self.reward_callers@.to_set(),
            transfer_callers: self.transfer_callers@.to_set(),
        }
    }
}

pub(crate) proof fn lemma_index_of(m: CreditModel, i: int)
    requires
        m.wf(),
        0 <= i < m.accounts.len(),
    ensures
        m.has_account(m.accounts[i].owner),
        m.index_of(m.accounts[i].owner) == i,
{
}

/// Two ledgers whose accounts have the same owners, position by position,
/// find an owner at the same place.
pub(crate) proof fn lemma_same_owners(m: CreditModel, m2: CreditModel, o: Owner)
    requires
        m.wf(),
        m2.wf(),
        m2.accounts.len() == m.accounts.len(),
        forall|i: int| 0 <= i < m.accounts.len() ==> m2.accounts[i].owner == m.accounts[i].owner,
    ensures
        m2.has_account(o) == m.has_account(o),
        m.has_account(o) ==> m2.index_of(o) == m.index_of(o),
{
    if m.has_account(o) {
        lemma_index_of(m2, m.index_of(o));
    }
    if m2.has_account(o) {
        lemma_index_of(m, m2.index_of(o));
    }
}

impl Credit {
    pub open spec fn wf(&self) -> bool {
        self@.wf()
    }

    /// The position of the account of `owner`, if it has one.
    fn find_account(&self, owner: Owner) -> (r: Option<usize>)
        requires
            self.wf(),
        ensures
            match r {
                Some(i) => self@.has_account(owner) && self@.index_of(owner) == i,
                None => !self@.has_account(owner),
            },
    {
        let mut i: usize = 0;
        while i < self.accounts.len()
            invariant
                self.wf(),
                i <= self.accounts@.len(),
                self@.accounts.len() == self.accounts@.len(),
                forall|j: int| 0 <= j < i ==> self@.accounts[j].owner != owner,
            decreases self.accounts@.len() - i,
        {
            if self.accounts[i].owner == owner {
                proof {
                    lemma_index_of(self@, i as int);
                }
                return Some(i);
            }
            i = i + 1;
        }
        None
    }

    /// A ledger with no accounts and no authorized callers, set up by
    /// `initialize_credit`.
    pub fn new(state: InitialState) -> (r: Credit)
        ensures
            r.wf(),
            r@.initial_supply == r@.balance,
            r@.initial_supply == (if state.initial_supply == 0 {
                DEFAULT_INITIAL_SUPPLY
            } else {
                state.initial_supply
            }),
            r@.amount_alive_ms == state.amount_alive_ms,
            r@.accounts.len() == 0,
            r@.reward_callers.is_empty(),
            r@.transfer_callers.is_empty(),
    {
        let mut r = Credit {
            initial_supply: 0,
            balance: 0,
            amount_alive_ms: 0,
            accounts: Vec::new(),
            reward_callers: Vec::new(),
            transfer_callers: Vec::new(),
        };
        r.initialize_credit(state);
        proof {
            assert(r@.accounts =~= Seq::<AccountModel>::empty());
            assert(r@.reward_callers =~= Set::<ApplicationId>::empty());
            assert(r@.transfer_callers =~= Set::<ApplicationId>::empty());
        }
        r
    }

    /// Sets the initial supply, the supply left to issue and the lifetime of
    /// lots. An initial supply of zero stands for the default one.
    pub fn initialize_credit(&mut self, state: InitialState)
        requires
            old(self).wf(),
        ensures
            final(self).wf(),
            final(self)@ == old(self)@.initialized(state),
    {
        let ghost m = self@;
        let supply = if state.initial_supply == 0 {
            DEFAULT_INITIAL_SUPPLY
        } else {
            state.initial_supply
        };
        self.initial_supply = supply;
        self.balance = supply;
        self.amount_alive_ms = state.amount_alive_ms;
        proof {
            assert(self@.accounts == m.accounts);
        }
    }

    /// The parameters of this ledger, as a replica needs them.
    pub fn initial_state(&self) -> (r: InitialState)
        ensures
            r.initial_supply == self@.initial_supply,
            r.amount_alive_ms == self@.amount_alive_ms,
    {
        InitialState { initial_supply: self.initial_supply, amount_alive_ms: self.amount_alive_ms }
    }

    pub fn initial_supply(&self) -> (r: Amount)
        ensures
            r == self@.initial_supply,
    {
        self.initial_supply
    }

    /// With an owner, the sum of that account's lots; without, the supply
    /// left to issue.
    pub fn balance(&self, owner: Option<Owner>) -> (r: Amount)
        requires
            self.wf(),
        ensures
            r == match owner {
                Some(o) => lots_total(self@.lots_of(o)),
                None => self@.balance,
            },
    {
        match owner {
            Some(o) => match self.find_account(o) {
                Some(i) => {
                    proof {
                        assert(self.accounts@[i as int].model() == self@.accounts[i as int]);
                        assert(self@.accounts[i as int].spendable <= u128::MAX);
                    }
                    self.accounts[i].amounts.sum()
                },
                None => 0,
            },
            None => self.balance,
        }
    }

    /// A copy of the lots of `owner`, oldest first.
    pub fn lots(&self, owner: Owner) -> (r: Vec<AgeAmount>)
        requires
            self.wf(),
        ensures
            r@ == self@.lots_of(owner),
    {
        let mut r: Vec<AgeAmount> = Vec::new();
        match self.find_account(owner) {
            Some(i) => {
                let lots = &self.accounts[i].amounts.amounts;
                let mut k: usize = 0;
                while k < lots.len()
                    invariant
                        k <= lots@.len(),
                        r@ == lots@.subrange(0, k as int),
                    decreases lots@.len() - k,
                {
                    r.push(lots[k]);
                    proof {
                        assert(lots@.subrange(0, k + 1) =~= lots@.subrange(0, k as int).push(lots@[k as int]));
                    }
                    k = k + 1;
                }
                proof {
                    assert(lots@.subrange(0, k as int) =~= lots@);
                    assert(self.accounts@[i as int].model() == self@.accounts[i as int]);
                }
            },
            None => {
                proof {
                    assert(r@ =~= self@.lots_of(owner));
                }
            },
        }
        r
    }

    /// The spendable total that the ledger keeps for `owner`.
    pub fn spendable(&self, owner: Owner) -> (r: Amount)
        requires
            self.wf(),
        ensures
            r == self@.spendable_of(owner),
    {
        match self.find_account(owner) {
            Some(i) => self.accounts[i].spendable,
            None => 0,
        }
    }

    /// Appends `lot` to the account of `owner`, opening it if need be.
    fn add_lot(&mut self, owner: Owner, lot: AgeAmount)
        requires
            old(self).wf(),
            old(self)@.spendable_of(owner) + lot.amount <= u128::MAX,
        ensures
            final(self).wf(),
            final(self)@ == old(self)@.with_lot(owner, lot),
    {
        let ghost m = self@;
        match self.find_account(owner) {
            Some(i) => {
                let mut account = self.accounts.remove(i);
                proof {
                    assert(account.model() == m.accounts[i as int]);
                    lemma_lots_total_push(account.amounts.amounts@, lot);
                }
                account.amounts.amounts.push(lot);
                account.spendable = account.spendable + lot.amount;
                self.accounts.insert(i, account);
                proof {
                    assert(self@.accounts =~= m.with_lot(owner, lot).accounts);
                }
            },
            None => {
                let account = Account {
                    owner,
                    amounts: AgeAmounts { amounts: vec![lot] },
                    spendable: lot.amount,
                };
                proof {
                    assert(account.amounts.amounts@ =~= seq![lot]);
                    assert(account.amounts.amounts@.skip(1) =~= Seq::<AgeAmount>::empty());
                    assert(lots_total(account.amounts.amounts@.skip(1)) == 0);
                    assert(lots_total(account.amounts.amounts@) == lot.amount);
                }
                let ghost old_accounts = self.accounts@;
                self.accounts.push(account);
                proof {
                    assert(self.accounts@ == old_accounts.push(account));
                    assert(self@.accounts =~= m.accounts.push(account.model()));
                    assert(self@.accounts =~= m.with_lot(owner, lot).accounts);
                }
            },
        }
    }

    /// Issues `amount` to `owner` at `now`: a new lot at the end of the
    /// account, which expires a lifetime later, and the supply lowered by
    /// `amount`, down to zero at most. Refused, with nothing changed, only
    /// where the account's total would not fit in an `Amount`.
    pub fn reward(&mut self, owner: Owner, amount: Amount, now: Timestamp) -> (r: Result<(), StateError>)
        requires
            old(self).wf(),
        ensures
            final(self).wf(),
            r.is_ok() == old(self)@.can_reward(owner, amount),
            match r {
                Ok(()) => final(self)@ == old(self)@.rewarded(owner, amount, now),
                Err(e) => e == StateError::AmountOverflow && final(self)@ == old(self)@,
            },
    {
        let spendable = self.spendable(owner);
        if spendable > u128::MAX - amount {
            return Err(StateError::AmountOverflow);
        }
        let expired = now.saturating_add(self.amount_alive_ms);
        self.add_lot(owner, AgeAmount { amount, expired });
        let ghost mid = self@;
        self.balance = self.balance.saturating_sub(amount);
        proof {
            assert(self@.accounts == mid.accounts);
        }
        Ok(())
    }

    /// Moves `amount` from `from` to `to` at `now`. The payer's lots are used
    /// up oldest first; the leftover of the last one used comes back as a
    /// new lot, and the payee gets a new lot of `amount`. Both new lots expire
    /// a lifetime after `now`. Refused, with nothing changed, where the
    /// payer's spendable total is below `amount`, or where the payee's total
    /// would not fit in an `Amount`.
    pub fn transfer(&mut self, from: Owner, to: Owner, amount: Amount, now: Timestamp) -> (r: Result<(), StateError>)
        requires
            old(self).wf(),
        ensures
            final(self).wf(),
            match r {
                Ok(()) => old(self)@.transfer_error(from, to, amount).is_none() && final(self)@
                    == old(self)@.transferred(from, to, amount, now),
                Err(e) => old(self)@.transfer_error(from, to, amount) == Some(e) && final(self)@
                    == old(self)@,
            },
    {
        let ghost m = self@;
        let spendable = self.spendable(from);
        if spendable < amount {
            return Err(StateError::InsufficientAccountBalance);
        }
        if from != to {
            let to_spendable = self.spendable(to);
            if to_spendable > u128::MAX - amount {
                return Err(StateError::AmountOverflow);
            }
        }
        let expiry = now.saturating_add(self.amount_alive_ms);
        match self.find_account(from) {
            Some(i) => {
                let mut account = self.accounts.remove(i);
                proof {
                    assert(account.model() == m.accounts[i as int]);
                    assert(m.accounts[i as int].spendable == lots_total(m.accounts[i as int].lots));
                    lemma_payment_total(account.amounts.amounts@, amount as nat, expiry);
                }
                account.amounts.pay(amount, expiry);
                account.spendable = account.spendable - amount;
                self.accounts.insert(i, account);
                proof {
                    assert(self@.accounts =~= m.debited(from, amount, now).accounts);
                    assert(self@ == m.debited(from, amount, now));
                    assert(self@.wf());
                    lemma_same_owners(m, self@, to);
                }
            },
            None => {
                proof {
                    assert(self@ == m.debited(from, amount, now));
                }
            },
        }
        self.add_lot(to, AgeAmount { amount, expired: expiry });
        Ok(())
    }

    /// Sweeps every account at `now`: its expired lots are taken out, its
    /// spendable total lowered by their sum, and that sum goes back to the
    /// supply, up to the largest `Amount` at most.
    pub fn liquidate(&mut self, now: Timestamp)
        requires
            old(self).wf(),
        ensures
            final(self).wf(),
            final(self)@ == old(self)@.liquidated(now),
    {
        let ghost m = self@;
        let ghost mut done: nat = 0;
        let mut j: usize = 0;
        proof {
            assert(m.accounts.skip(0) =~= m.accounts);
        }
        while j < self.accounts.len()
            invariant
                m.wf(),
                self.wf(),
                j <= self.accounts@.len(),
                self@.accounts.len() == m.accounts.len(),
                self@.initial_supply == m.initial_supply,
                self@.amount_alive_ms == m.amount_alive_ms,
                self@.reward_callers == m.reward_callers,
                self@.transfer_callers == m.transfer_callers,
                forall|k: int| 0 <= k < j ==> self@.accounts[k] == swept(m.accounts[k], now),
                forall|k: int| j <= k < m.accounts.len() ==> self@.accounts[k] == m.accounts[k],
                done + accounts_expired(m.accounts.skip(j as int), now) == accounts_expired(
                    m.accounts,
                    now,
                ),
                self@.balance == clamp_amount(m.balance + done as int),
            decreases m.accounts.len() - j,
        {
            let ghost before = self@;
            let mut account = self.accounts.remove(j);
            proof {
                assert(account.model() == m.accounts[j as int]);
                assert(m.accounts[j as int].spendable == lots_total(m.accounts[j as int].lots));
                lemma_live_expired_split(account.amounts.amounts@, now);
                assert(m.accounts.skip(j as int).skip(1) =~= m.accounts.skip(j + 1));
                assert(accounts_expired(m.accounts.skip(j as int), now) == expired_total(
                    m.accounts[j as int].lots,
                    now,
                ) + accounts_expired(m.accounts.skip(j + 1), now));
            }
            let expired = account.amounts.retain_live(now);
            account.spendable = account.spendable - expired;
            self.accounts.insert(j, account);
            self.balance = self.balance.saturating_add(expired);
            proof {
                assert(self@.accounts =~= before.accounts.update(j as int, swept(m.accounts[j as int], now)));
                assert forall|a: int, b: int|
                    0 <= a < self@.accounts.len() && 0 <= b < self@.accounts.len() && a != b
                    implies self@.accounts[a].owner != self@.accounts[b].owner by {
                    assert(self@.accounts[a].owner == m.accounts[a].owner);
                    assert(self@.accounts[b].owner == m.accounts[b].owner);
                }
            }
            proof {
                done = (done + expired) as nat;
            }
            j = j + 1;
        }
        proof {
            assert(self@.accounts =~= m.accounts.map_values(|a: AccountModel| swept(a, now)));
            assert(m.accounts.skip(j as int).len() == 0);
        }
    }

    /// Adds `application_ids` to those that may ask for rewards; the ones
    /// already there stay.
    pub fn set_reward_callers(&mut self, application_ids: &Vec<ApplicationId>)
        requires
            old(self).wf(),
        ensures
            final(self).wf(),
            final(self)@ == old(self)@.with_reward_callers(application_ids@.to_set()),
    {
        let ghost m = self@;
        add_ids(&mut self.reward_callers, application_ids);
        proof {
            assert(self@.accounts == m.accounts);
        }
    }

    /// Adds `application_ids` to those that may ask for transfers; the ones
    /// already there stay.
    pub fn set_transfer_callers(&mut self, application_ids: &Vec<ApplicationId>)
        requires
            old(self).wf(),
        ensures
            final(self).wf(),
            final(self)@ == old(self)@.with_transfer_callers(application_ids@.to_set()),
    {
        let ghost m = self@;
        add_ids(&mut self.transfer_callers, application_ids);
        proof {
            assert(self@.accounts == m.accounts);
        }
    }

    pub fn is_reward_caller(&self, application_id: ApplicationId) -> (r: bool)
        ensures
            r == self@.reward_callers.contains(application_id),
    {
        contains_id(&self.reward_callers, application_id)
    }

    pub fn is_transfer_caller(&self, application_id: ApplicationId) -> (r: bool)
        ensures
            r == self@.transfer_callers.contains(application_id),
    {
        contains_id(&self.transfer_callers, application_id)
    }
}

fn contains_id(ids: &Vec<ApplicationId>, id: ApplicationId) -> (r: bool)
    ensures
        r == ids@.to_set().contains(id),
{
    let mut i: usize = 0;
    while i < ids.len()
        invariant
            i <= ids@.len(),
            forall|k: int| 0 <= k < i ==> ids@[k] != id,
        decreases ids@.len() - i,
    {
        if ids[i] == id {
            proof {
                assert(ids@.contains(id));
            }
            return true;
        }
        i = i + 1;
    }
    false
}

/// Appends each of `new_ids` that `ids` lacks.
fn add_ids(ids: &mut Vec<ApplicationId>, new_ids: &Vec<ApplicationId>)
    ensures
        final(ids)@.to_set() == old(ids)@.to_set().union(new_ids@.to_set()),
{
    let ghost start = ids@.to_set();
    let mut i: usize = 0;
    proof {
        assert(new_ids@.subrange(0, 0).to_set() =~= Set::<ApplicationId>::empty());
        assert(start.union(Set::<ApplicationId>::empty()) =~= start);
    }
    while i < new_ids.len()
        invariant
            i <= new_ids@.len(),
            ids@.to_set() == start.union(new_ids@.subrange(0, i as int).to_set()),
        decreases new_ids@.len() - i,
    {
        let id = new_ids[i];
        let ghost before = ids@;
        if !contains_id(ids, id) {
            ids.push(id);
            proof {
                before.lemma_push_to_set_commute(id);
            }
        } else {
            proof {
                assert(before.to_set().insert(id) =~= before.to_set());
            }
        }
        proof {
            assert(new_ids@.subrange(0, i + 1) =~= new_ids@.subrange(0, i as int).push(id));
            new_ids@.subrange(0, i as int).lemma_push_to_set_commute(id);
        }
        i = i + 1;
    }
    proof {
        assert(new_ids@.subrange(0, i as int) =~= new_ids@);
    }
}

} // verus!
