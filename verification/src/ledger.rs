//! A model of the multi-currency ledger the accounting core works against:
//! per-account balances and per-currency total issuance, with the transfer and
//! deposit primitives and the total-issuance read the core consumes.

use vstd::prelude::*;

use crate::types::{AccountId, Balance, CurrencyId, Error};

verus! {

/// One account's balance in one currency.
#[derive(Clone, Copy, PartialEq, Eq, Structural, Debug)]
pub struct BalanceRecord {
    pub currency: CurrencyId,
    pub who: AccountId,
    pub amount: Balance,
}

/// The balance the record list `s` gives account `a` in currency `c`; zero when
/// no record exists (absence and a zero balance are equivalent).
spec fn balance_in(s: Seq<BalanceRecord>, c: CurrencyId, a: AccountId) -> Balance
    decreases s.len(),
{
    if s.len() == 0 {
        0
    } else if s[0].currency == c && s[0].who == a {
        s[0].amount
    } else {
        balance_in(s.drop_first(), c, a)
    }
}

proof fn lemma_balance_in_found(s: Seq<BalanceRecord>, c: CurrencyId, a: AccountId, i: int)
    requires
        0 <= i < s.len(),
        s[i].currency == c,
        s[i].who == a,
        forall|j: int| 0 <= j < i ==> !(s[j].currency == c && s[j].who == a),
    ensures
        balance_in(s, c, a) == s[i].amount,
    decreases i,
{
    if i > 0 {
        assert(forall|j: int|
            0 <= j < i - 1 ==> s.drop_first()[j] == s[j + 1]);
        lemma_balance_in_found(s.drop_first(), c, a, i - 1);
    }
}

proof fn lemma_balance_in_absent(s: Seq<BalanceRecord>, c: CurrencyId, a: AccountId)
    requires
        forall|j: int| 0 <= j < s.len() ==> !(s[j].currency == c && s[j].who == a),
    ensures
        balance_in(s, c, a) == 0,
    decreases s.len(),
{
    if s.len() > 0 {
        assert(forall|j: int|
            0 <= j < s.len() - 1 ==> s.drop_first()[j] == s[j + 1]);
        lemma_balance_in_absent(s.drop_first(), c, a);
    }
}

/// Changing only the amount of record `i` leaves every other key's balance as
/// it was.
proof fn lemma_balance_in_update_other(
    s: Seq<BalanceRecord>,
    i: int,
    r: BalanceRecord,
    c: CurrencyId,
    a: AccountId,
)
    requires
        0 <= i < s.len(),
        r.currency == s[i].currency,
        r.who == s[i].who,
        !(c == r.currency && a == r.who),
    ensures
        balance_in(s.update(i, r), c, a) == balance_in(s, c, a),
    decreases s.len(),
{
    if i == 0 {
        assert(s.update(0, r).drop_first() =~= s.drop_first());
    } else {
        assert(s.update(i, r).drop_first() =~= s.drop_first().update(i - 1, r));
        lemma_balance_in_update_other(s.drop_first(), i - 1, r, c, a);
    }
}

/// Appending a record for one key leaves every other key's balance as it was.
proof fn lemma_balance_in_push_other(
    s: Seq<BalanceRecord>,
    r: BalanceRecord,
    c: CurrencyId,
    a: AccountId,
)
    requires
        !(c == r.currency && a == r.who),
    ensures
        balance_in(s.push(r), c, a) == balance_in(s, c, a),
    decreases s.len(),
{
    if s.len() == 0 {
        assert(s.push(r)[0] == r);
        assert(s.push(r).drop_first() =~= Seq::<BalanceRecord>::empty());
        assert(balance_in(s.push(r), c, a) == balance_in(s.push(r).drop_first(), c, a));
        assert(balance_in(Seq::<BalanceRecord>::empty(), c, a) == 0);
    } else {
        assert(s.push(r)[0] == s[0]);
        assert(s.push(r).drop_first() =~= s.drop_first().push(r));
        if s[0].currency == c && s[0].who == a {
            assert(balance_in(s.push(r), c, a) == s[0].amount);
            assert(balance_in(s, c, a) == s[0].amount);
        } else {
            assert(balance_in(s.push(r), c, a) == balance_in(s.push(r).drop_first(), c, a));
            assert(balance_in(s, c, a) == balance_in(s.drop_first(), c, a));
            lemma_balance_in_push_other(s.drop_first(), r, c, a);
        }
    }
}

/// The first record matching `(c, a)`, if any, with nothing matching before it.
fn find_index(v: &Vec<BalanceRecord>, c: CurrencyId, a: AccountId) -> (r: Option<usize>)
    ensures
        match r {
            Some(i) => {
                &&& i < v@.len()
                &&& v@[i as int].currency == c
                &&& v@[i as int].who == a
                &&& forall|j: int| 0 <= j < i ==> !(v@[j].currency == c && v@[j].who == a)
            },
            None => forall|j: int| 0 <= j < v@.len() ==> !(v@[j].currency == c && v@[j].who == a),
        },
{
    let mut i: usize = 0;
    while i < v.len()
        invariant
            i <= v@.len(),
            forall|j: int| 0 <= j < i ==> !(v@[j].currency == c && v@[j].who == a),
        decreases v@.len() - i,
    {
        if v[i].currency == c && v[i].who == a {
            return Some(i);
        }
        i = i + 1;
    }
    None
}

/// The currency ledger: who holds how much of each currency, and how much of
/// each currency circulates in total.
pub struct CurrencyLedger {
    balances: Vec<BalanceRecord>,
    staking_issuance: Balance,
    liquid_issuance: Balance,
}

/// Both ledgers give every account the same balance and both currencies the
/// same total issuance.
pub open spec fn same_ledger(a: CurrencyLedger, b: CurrencyLedger) -> bool {
    &&& forall|c: CurrencyId, w: AccountId| a.balance_of(c, w) == b.balance_of(c, w)
    &&& forall|c: CurrencyId| a.issuance_of(c) == b.issuance_of(c)
}

/// The inputs on which `transfer` succeeds.
pub open spec fn can_transfer(
    l: CurrencyLedger,
    c: CurrencyId,
    from: AccountId,
    to: AccountId,
    amount: Balance,
) -> bool {
    &&& l.balance_of(c, from) >= amount
    &&& (from == to || l.balance_of(c, to) + amount <= u128::MAX)
}

/// `post` is `pre` after `amount` of `c` moved from `from` to `to`.
pub open spec fn transferred(
    pre: CurrencyLedger,
    post: CurrencyLedger,
    c: CurrencyId,
    from: AccountId,
    to: AccountId,
    amount: Balance,
) -> bool {
    if from == to {
        same_ledger(pre, post)
    } else {
        &&& post.balance_of(c, from) == pre.balance_of(c, from) - amount
        &&& post.balance_of(c, to) == pre.balance_of(c, to) + amount
        &&& forall|c2: CurrencyId, w: AccountId|
            !(c2 == c && (w == from || w == to)) ==> post.balance_of(c2, w) == pre.balance_of(
                c2,
                w,
            )
        &&& forall|c2: CurrencyId| post.issuance_of(c2) == pre.issuance_of(c2)
    }
}

/// The inputs on which `deposit` succeeds.
pub open spec fn can_deposit(
    l: CurrencyLedger,
    c: CurrencyId,
    who: AccountId,
    amount: Balance,
) -> bool {
    &&& l.issuance_of(c) + amount <= u128::MAX
    &&& l.balance_of(c, who) + amount <= u128::MAX
}

/// `post` is `pre` after `amount` of `c` was minted into `who`.
pub open spec fn deposited(
    pre: CurrencyLedger,
    post: CurrencyLedger,
    c: CurrencyId,
    who: AccountId,
    amount: Balance,
) -> bool {
    &&& post.balance_of(c, who) == pre.balance_of(c, who) + amount
    &&& forall|c2: CurrencyId, w: AccountId|
        !(c2 == c && w == who) ==> post.balance_of(c2, w) == pre.balance_of(c2, w)
    &&& post.issuance_of(c) == pre.issuance_of(c) + amount
    &&& forall|c2: CurrencyId| c2 != c ==> post.issuance_of(c2) == pre.issuance_of(c2)
}

impl CurrencyLedger {
    /// The balance of `a` in currency `c`; zero when the account holds none.
    pub closed spec fn balance_of(self, c: CurrencyId, a: AccountId) -> Balance {
        balance_in(self.balances@, c, a)
    }

    /// The total circulating supply of currency `c`.
    pub closed spec fn issuance_of(self, c: CurrencyId) -> Balance {
        match c {
            CurrencyId::Staking => self.staking_issuance,
            CurrencyId::Liquid => self.liquid_issuance,
        }
    }

    /// An empty ledger: nothing is held and nothing circulates.
    pub fn new() -> (l: CurrencyLedger)
        ensures
            forall|c: CurrencyId, w: AccountId| l.balance_of(c, w) == 0,
            forall|c: CurrencyId| l.issuance_of(c) == 0,
    {
        let l = CurrencyLedger { balances: Vec::new(), staking_issuance: 0, liquid_issuance: 0 };
        proof {
            assert forall|c: CurrencyId, w: AccountId| l.balance_of(c, w) == 0 by {
                assert(l.balances@.len() == 0);
            };
        }
        l
    }

    /// The balance of `who` in `currency`.
    pub fn free_balance(&self, currency: CurrencyId, who: AccountId) -> (r: Balance)
        ensures
            r == self.balance_of(currency, who),
    {
        match find_index(&self.balances, currency, who) {
            Some(i) => {
                proof {
                    lemma_balance_in_found(self.balances@, currency, who, i as int);
                }
                self.balances[i].amount
            },
            None => {
                proof {
                    lemma_balance_in_absent(self.balances@, currency, who);
                }
                0
            },
        }
    }

    /// The total circulating supply of `currency`.
    pub fn total_issuance(&self, currency: CurrencyId) -> (r: Balance)
        ensures
            r == self.issuance_of(currency),
    {
        match currency {
            CurrencyId::Staking => self.staking_issuance,
            CurrencyId::Liquid => self.liquid_issuance,
        }
    }

    /// Overwrites the balance of one key, touching nothing else.
    fn set_balance(&mut self, currency: CurrencyId, who: AccountId, value: Balance)
        ensures
            final(self).balance_of(currency, who) == value,
            forall|c2: CurrencyId, w: AccountId|
                !(c2 == currency && w == who) ==> final(self).balance_of(c2, w) == old(
                    self,
                ).balance_of(c2, w),
            forall|c2: CurrencyId| final(self).issuance_of(c2) == old(self).issuance_of(c2),
    {
        let rec = BalanceRecord { currency, who, amount: value };
        match find_index(&self.balances, currency, who) {
            Some(i) => {
                self.balances.set(i, rec);
                proof {
                    lemma_balance_in_found(self.balances@, currency, who, i as int);
                    assert forall|c2: CurrencyId, w: AccountId| !(c2 == currency && w == who)
                        implies self.balance_of(c2, w) == old(self).balance_of(c2, w) by {
                        lemma_balance_in_update_other(
                            old(self).balances@,
                            i as int,
                            rec,
                            c2,
                            w,
                        );
                    };
                }
            },
            None => {
                self.balances.push(rec);
                proof {
                    lemma_balance_in_found(
                        self.balances@,
                        currency,
                        who,
                        old(self).balances@.len() as int,
                    );
                    assert forall|c2: CurrencyId, w: AccountId| !(c2 == currency && w == who)
                        implies self.balance_of(c2, w) == old(self).balance_of(c2, w) by {
                        lemma_balance_in_push_other(old(self).balances@, rec, c2, w);
                    };
                }
            },
        }
    }

    /// Moves `amount` of `currency` from `from` to `to`. The whole call fails,
    /// changing nothing, if `from` holds less than `amount` or crediting `to`
    /// would overflow its balance.
    pub fn transfer(
        &mut self,
        currency: CurrencyId,
        from: AccountId,
        to: AccountId,
        amount: Balance,
    ) -> (r: Result<(), Error>)
        ensures
            old(self).balance_of(currency, from) < amount ==> r == Err::<(), Error>(
                Error::InsufficientBalance,
            ) && same_ledger(*old(self), *final(self)),
            old(self).balance_of(currency, from) >= amount && !(from == to || old(
                self,
            ).balance_of(currency, to) + amount <= u128::MAX) ==> r == Err::<(), Error>(
                Error::BalanceOverflow,
            ) && same_ledger(*old(self), *final(self)),
            can_transfer(*old(self), currency, from, to, amount) ==> r == Ok::<(), Error>(())
                && transferred(*old(self), *final(self), currency, from, to, amount),
    {
        let from_bal = self.free_balance(currency, from);
        if from_bal < amount {
            return Err(Error::InsufficientBalance);
        }
        if from == to {
            return Ok(());
        }
        let to_bal = self.free_balance(currency, to);
        if u128::MAX - to_bal < amount {
            return Err(Error::BalanceOverflow);
        }
        self.set_balance(currency, from, from_bal - amount);
        self.set_balance(currency, to, to_bal + amount);
        Ok(())
    }

    /// Mints `amount` of `currency` into `who`, growing that currency's total
    /// issuance by the same amount. The whole call fails, changing nothing, if
    /// either the issuance or the balance would overflow.
    pub fn deposit(&mut self, currency: CurrencyId, who: AccountId, amount: Balance) -> (r:
        Result<(), Error>)
        ensures
            !can_deposit(*old(self), currency, who, amount) ==> r == Err::<(), Error>(
                Error::BalanceOverflow,
            ) && same_ledger(*old(self), *final(self)),
            can_deposit(*old(self), currency, who, amount) ==> r == Ok::<(), Error>(())
                && deposited(*old(self), *final(self), currency, who, amount),
    {
        let iss = self.total_issuance(currency);
        if u128::MAX - iss < amount {
            return Err(Error::BalanceOverflow);
        }
        let bal = self.free_balance(currency, who);
        if u128::MAX - bal < amount {
            return Err(Error::BalanceOverflow);
        }
        match currency {
            CurrencyId::Staking => {
                self.staking_issuance = iss + amount;
            },
            CurrencyId::Liquid => {
                self.liquid_issuance = iss + amount;
            },
        }
        self.set_balance(currency, who, bal + amount);
        Ok(())
    }
}

} // verus!
