use crate::lab3::task::benchmark::BenchmarkKind;
use crate::lab3::task::executable::RunMode;
use vstd::prelude::*;

verus! {

/// An account and its balance.
#[derive(Debug, Clone, Copy, PartialEq, Eq, Structural)]
pub struct Account {
    pub id: usize,
    pub balance: i64,
}

/// The sum of a sequence of balances.
pub open spec fn balance_sum(s: Seq<i64>) -> int
    decreases s.len(),
{
    if s.len() == 0 {
        0
    } else {
        balance_sum(s.drop_last()) + s.last()
    }
}

/// The balances of a sequence of accounts.
pub open spec fn balances_of(accounts: Seq<Account>) -> Seq<i64> {
    accounts.map_values(|a: Account| a.balance)
}

/// The opening balance of account `id`: between 100 and 1099.
pub open spec fn opening_balance(id: int) -> int {
    100 + (id * 37) % 1000
}

/// The pair of accounts that transfer number `iteration` moves money between: `from` is
/// `iteration * 17`, `to` is `iteration * 31` (or the next account when both coincide),
/// modulo the number of accounts.
pub open spec fn account_indices_spec(iteration: int, accounts_amount: int) -> (int, int) {
    let from_id = (iteration * 17) % accounts_amount;
    let to_id = (iteration * 31) % accounts_amount;
    if from_id == to_id {
        (from_id, (to_id + 1) % accounts_amount)
    } else {
        (from_id, to_id)
    }
}

/// The balances after a transfer of `amount`: it happens only when the payer can afford it.
pub open spec fn settle_spec(from_balance: int, to_balance: int, amount: int) -> (int, int) {
    if from_balance >= amount {
        (from_balance - amount, to_balance + amount)
    } else {
        (from_balance, to_balance)
    }
}

/// A payer who can afford the amount pays it: the payer holds exactly `amount` less and the
/// payee exactly `amount` more. Only a payer holding less than the amount is refused, and then
/// both balances stay.
pub proof fn lemma_settle_pays_when_affordable(from_balance: int, to_balance: int, amount: int)
    ensures
        from_balance >= amount ==> settle_spec(from_balance, to_balance, amount) == (
            from_balance - amount,
            to_balance + amount,
        ),
        from_balance < amount ==> settle_spec(from_balance, to_balance, amount) == (
            from_balance,
            to_balance,
        ),
        settle_spec(from_balance, to_balance, amount).0 + settle_spec(
            from_balance,
            to_balance,
            amount,
        ).1 == from_balance + to_balance,
{
}

proof fn lemma_balance_sum_update(s: Seq<i64>, i: int, v: i64)
    requires
        0 <= i < s.len(),
    ensures
        balance_sum(s.update(i, v)) == balance_sum(s) - s[i] + v,
    decreases s.len(),
{
    if i < s.len() - 1 {
        assert(s.update(i, v).drop_last() =~= s.drop_last().update(i, v));
        lemma_balance_sum_update(s.drop_last(), i, v);
    } else {
        assert(s.update(i, v).drop_last() =~= s.drop_last());
    }
}

/// A transfer between two different accounts keeps the total of all balances.
pub proof fn lemma_transfer_conserves_total(balances: Seq<i64>, from: int, to: int, amount: int)
    requires
        0 <= from < balances.len(),
        0 <= to < balances.len(),
        from != to,
        i64::MIN <= settle_spec(balances[from] as int, balances[to] as int, amount).0 <= i64::MAX,
        i64::MIN <= settle_spec(balances[from] as int, balances[to] as int, amount).1 <= i64::MAX,
    ensures
        ({
            let (f, t) = settle_spec(balances[from] as int, balances[to] as int, amount);
            balance_sum(balances.update(from, f as i64).update(to, t as i64)) == balance_sum(balances)
        }),
{
    let (f, t) = settle_spec(balances[from] as int, balances[to] as int, amount);
    lemma_balance_sum_update(balances, from, f as i64);
    lemma_balance_sum_update(balances.update(from, f as i64), to, t as i64);
}

/// The sum of a sequence of amounts.
pub open spec fn amount_sum(s: Seq<int>) -> int
    decreases s.len(),
{
    if s.len() == 0 {
        0
    } else {
        amount_sum(s.drop_last()) + s.last()
    }
}

/// The balances after transfer number `iteration` of `amount`, between the accounts that
/// `account_indices_spec` picks: the payer pays only when it can afford it.
pub open spec fn after_transfer(balances: Seq<int>, iteration: int, amount: int) -> Seq<int> {
    let (from, to) = account_indices_spec(iteration, balances.len() as int);
    let (paid, received) = settle_spec(balances[from], balances[to], amount);
    balances.update(from, paid).update(to, received)
}

/// The balances after the transfers `iterations`, one after another in that order (the order in
/// which the threads took the locks).
pub open spec fn after_transfers(balances: Seq<int>, iterations: Seq<int>, amount: int) -> Seq<int>
    decreases iterations.len(),
{
    if iterations.len() == 0 {
        balances
    } else {
        after_transfer(after_transfers(balances, iterations.drop_last(), amount), iterations.last(), amount)
    }
}

proof fn lemma_amount_sum_update(s: Seq<int>, i: int, v: int)
    requires
        0 <= i < s.len(),
    ensures
        amount_sum(s.update(i, v)) == amount_sum(s) - s[i] + v,
    decreases s.len(),
{
    if i < s.len() - 1 {
        assert(s.update(i, v).drop_last() =~= s.drop_last().update(i, v));
        lemma_amount_sum_update(s.drop_last(), i, v);
    } else {
        assert(s.update(i, v).drop_last() =~= s.drop_last());
    }
}

/// A whole run of transfers, in whatever order the threads serialise them: with two or more
/// accounts and a non-negative amount, the number of accounts and the total of the balances
/// stay as they were, and no balance that started non-negative goes below zero.
pub proof fn lemma_transfers_conserve_total(balances: Seq<int>, iterations: Seq<int>, amount: int)
    requires
        balances.len() >= 2,
        amount >= 0,
        forall|k: int| 0 <= k < iterations.len() ==> #[trigger] iterations[k] >= 0,
    ensures
        after_transfers(balances, iterations, amount).len() == balances.len(),
        amount_sum(after_transfers(balances, iterations, amount)) == amount_sum(balances),
        (forall|i: int| 0 <= i < balances.len() ==> #[trigger] balances[i] >= 0) ==> forall|i: int|
            0 <= i < balances.len() ==> #[trigger] after_transfers(balances, iterations, amount)[i]
                >= 0,
    decreases iterations.len(),
{
    if iterations.len() > 0 {
        let prefix = iterations.drop_last();
        lemma_transfers_conserve_total(balances, prefix, amount);
        let before = after_transfers(balances, prefix, amount);
        let it = iterations.last();
        assert(it == iterations[iterations.len() - 1]);
        lemma_account_indices_valid(it, before.len() as int);
        let (from, to) = account_indices_spec(it, before.len() as int);
        let (paid, received) = settle_spec(before[from], before[to], amount);
        lemma_amount_sum_update(before, from, paid);
        lemma_amount_sum_update(before.update(from, paid), to, received);
        if forall|i: int| 0 <= i < balances.len() ==> #[trigger] balances[i] >= 0 {
            assert forall|i: int| 0 <= i < before.len() implies #[trigger] after_transfer(
                before,
                it,
                amount,
            )[i] >= 0 by {
                assert(before[i] >= 0);
            }
        }
    }
}

/// Transfers money between accounts from many threads.
#[derive(Debug)]
pub struct BankTransfers {
    accounts: Vec<Account>,
    accounts_amount: usize,
    threads_amount: usize,
    initial_total: i64,
}

impl BankTransfers {
    /// The accounts.
    pub closed spec fn accounts_spec(&self) -> Seq<Account> {
        self.accounts@
    }

    /// The number of accounts that `setup` opens.
    pub closed spec fn accounts_amount_spec(&self) -> usize {
        self.accounts_amount
    }

    /// The number of transfers, one per thread.
    pub closed spec fn threads_amount_spec(&self) -> usize {
        self.threads_amount
    }

    /// The total of the balances after `setup`.
    pub closed spec fn initial_total_spec(&self) -> i64 {
        self.initial_total
    }

    /// A bank with no accounts yet.
    pub fn new(accounts_amount: usize, threads_amount: usize) -> (r: Self)
        ensures
            r.accounts_spec() == Seq::<Account>::empty(),
            r.accounts_amount_spec() == accounts_amount,
            r.threads_amount_spec() == threads_amount,
            r.initial_total_spec() == 0,
    {
        Self { accounts: Vec::new(), accounts_amount, threads_amount, initial_total: 0 }
    }

    /// The number of accounts that `setup` opens.
    pub fn accounts_amount(&self) -> (r: usize)
        ensures
            r == self.accounts_amount_spec(),
    {
        self.accounts_amount
    }

    /// The number of transfers, one per thread.
    pub fn threads_amount(&self) -> (r: usize)
        ensures
            r == self.threads_amount_spec(),
    {
        self.threads_amount
    }

    /// The total of the balances after `setup`.
    pub fn initial_total(&self) -> (r: i64)
        ensures
            r == self.initial_total_spec(),
    {
        self.initial_total
    }

    /// The accounts.
    pub fn accounts(&self) -> (r: &Vec<Account>)
        ensures
            r@ == self.accounts_spec(),
    {
        &self.accounts
    }

    /// Opens the accounts `0..accounts_amount` with their opening balances and records the
    /// total.
    pub fn setup(&mut self)
        requires
            old(self).accounts_amount_spec() * 1099 <= i64::MAX,
        ensures
            final(self).accounts_amount_spec() == old(self).accounts_amount_spec(),
            final(self).threads_amount_spec() == old(self).threads_amount_spec(),
            final(self).accounts_spec().len() == old(self).accounts_amount_spec(),
            forall|i: int|
                0 <= i < final(self).accounts_spec().len() ==> #[trigger] final(self).accounts_spec()[i]
                    == (Account { id: i as usize, balance: opening_balance(i) as i64 }),
            final(self).initial_total_spec() == balance_sum(balances_of(final(self).accounts_spec())),
    {
        let amount = self.accounts_amount;
        let mut accounts: Vec<Account> = Vec::new();
        let mut total: i64 = 0;
        let mut id: usize = 0;
        while id < amount
            invariant
                amount * 1099 <= i64::MAX,
                id <= amount,
                accounts@.len() == id,
                forall|i: int| 0 <= i < id ==> #[trigger] accounts@[i] == (Account {
                    id: i as usize,
                    balance: opening_balance(i) as i64,
                }),
                total == balance_sum(balances_of(accounts@)),
                0 <= total <= id * 1099,
            decreases amount - id,
        {
            let balance = 100 + ((id % 1000) * 37 % 1000) as i64;
            proof {
                vstd::arithmetic::div_mod::lemma_mul_mod_noop_left(id as int, 37, 1000);
                assert(balance == opening_balance(id as int));
            }
            let ghost before = accounts@;
            total = total + balance;
            accounts.push(Account { id, balance });
            proof {
                assert(balances_of(accounts@).drop_last() =~= balances_of(before));
            }
            id = id + 1;
        }
        self.accounts = accounts;
        self.initial_total = total;
    }

    /// Closes all accounts.
    pub fn teardown(&mut self)
        ensures
            final(self).accounts_spec() == Seq::<Account>::empty(),
            final(self).accounts_amount_spec() == old(self).accounts_amount_spec(),
            final(self).threads_amount_spec() == old(self).threads_amount_spec(),
            final(self).initial_total_spec() == old(self).initial_total_spec(),
    {
        self.accounts.clear();
    }

    /// The payer and payee of transfer number `iteration` (see `account_indices_spec`).
    pub fn get_account_indices(&self, iteration: usize) -> (r: (usize, usize))
        requires
            self.accounts_amount_spec() >= 1,
            iteration * 31 <= usize::MAX,
        ensures
            r.0 == account_indices_spec(iteration as int, self.accounts_amount_spec() as int).0,
            r.1 == account_indices_spec(iteration as int, self.accounts_amount_spec() as int).1,
    {
        let from_id = (iteration * 17) % self.accounts_amount;
        let mut to_id = (iteration * 31) % self.accounts_amount;
        if from_id == to_id {
            to_id = (to_id + 1) % self.accounts_amount;
        }
        (from_id, to_id)
    }

    /// The balances of payer and payee after a transfer of `amount` between them.
    pub fn settle(from_balance: i64, to_balance: i64, amount: i64) -> (r: (i64, i64))
        requires
            from_balance >= amount ==> i64::MIN <= from_balance - amount <= i64::MAX && i64::MIN
                <= to_balance + amount <= i64::MAX,
        ensures
            r.0 == settle_spec(from_balance as int, to_balance as int, amount as int).0,
            r.1 == settle_spec(from_balance as int, to_balance as int, amount as int).1,
            from_balance >= amount ==> r.0 == from_balance - amount && r.1 == to_balance + amount,
            from_balance < amount ==> r.0 == from_balance && r.1 == to_balance,
    {
        if from_balance >= amount {
            (from_balance - amount, to_balance + amount)
        } else {
            (from_balance, to_balance)
        }
    }

    /// The sum of the balances.
    pub fn calculate_total_balance(balances: &[i64]) -> (r: i64)
        requires
            forall|k: int|
                0 <= k <= balances@.len() ==> i64::MIN <= #[trigger] balance_sum(balances@.take(k))
                    <= i64::MAX,
        ensures
            r == balance_sum(balances@),
    {
        let mut total: i64 = 0;
        let mut i: usize = 0;
        while i < balances.len()
            invariant
                i <= balances@.len(),
                total == balance_sum(balances@.take(i as int)),
                forall|k: int|
                    0 <= k <= balances@.len() ==> i64::MIN <= #[trigger] balance_sum(balances@.take(k))
                        <= i64::MAX,
            decreases balances@.len() - i,
        {
            assert(balances@.take(i + 1).drop_last() =~= balances@.take(i as int));
            assert(i64::MIN <= balance_sum(balances@.take(i + 1)) <= i64::MAX);
            total = total + balances[i];
            i = i + 1;
        }
        assert(balances@.take(balances@.len() as int) =~= balances@);
        total
    }
}

/// For two or more accounts, the payer and the payee of a transfer are different accounts of
/// the bank.
pub proof fn lemma_account_indices_valid(iteration: int, accounts_amount: int)
    requires
        iteration >= 0,
        accounts_amount >= 2,
    ensures
        0 <= account_indices_spec(iteration, accounts_amount).0 < accounts_amount,
        0 <= account_indices_spec(iteration, accounts_amount).1 < accounts_amount,
        account_indices_spec(iteration, accounts_amount).0 != account_indices_spec(
            iteration,
            accounts_amount,
        ).1,
{
    let f = (iteration * 17) % accounts_amount;
    let t = (iteration * 31) % accounts_amount;
    vstd::arithmetic::div_mod::lemma_mod_bound(iteration * 17, accounts_amount);
    vstd::arithmetic::div_mod::lemma_mod_bound(iteration * 31, accounts_amount);
    if f == t {
        vstd::arithmetic::div_mod::lemma_mod_bound(t + 1, accounts_amount);
        if t + 1 < accounts_amount {
            vstd::arithmetic::div_mod::lemma_small_mod((t + 1) as nat, accounts_amount as nat);
        } else {
            vstd::arithmetic::div_mod::lemma_mod_self_0(accounts_amount);
        }
    }
}

impl BankTransfers {
    /// The ways the task is benchmarked, in order: the race, the deadlock and the fix.
    pub fn benchmarks(&self) -> (r: Vec<BenchmarkKind>)
        ensures
            r@ == seq![BenchmarkKind::RaceCondition, BenchmarkKind::Deadlock, BenchmarkKind::MutexFixed],
    {
        let r = vec![BenchmarkKind::RaceCondition, BenchmarkKind::Deadlock, BenchmarkKind::MutexFixed];
        assert(r@ =~= seq![BenchmarkKind::RaceCondition, BenchmarkKind::Deadlock, BenchmarkKind::MutexFixed]);
        r
    }

    /// The ways the task can be run.
    pub fn supported_modes(&self) -> (r: Vec<RunMode>)
        ensures
            r@ == seq![RunMode::RaceCondition, RunMode::Deadlock, RunMode::MutexFixed],
    {
        let r = vec![RunMode::RaceCondition, RunMode::Deadlock, RunMode::MutexFixed];
        assert(r@ =~= seq![RunMode::RaceCondition, RunMode::Deadlock, RunMode::MutexFixed]);
        r
    }

    /// Whether the totals are compared after a run of `kind`: not after the deadlock, whose
    /// threads hold the locks for ever.
    pub fn checks_total_after(kind: BenchmarkKind) -> (r: bool)
        ensures
            r <==> kind != BenchmarkKind::Deadlock,
    {
        !matches!(kind, BenchmarkKind::Deadlock)
    }
}

} // verus!
