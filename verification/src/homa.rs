//! The batch accounting state machine: the pending-request ledger, the
//! per-batch issuance snapshots, the batch cursor and the stash registry,
//! driven by the four operations commit (`request_mint`), close (`issue`),
//! redeem (`claim`) and `set_stash_account_id`.

use vstd::prelude::*;

use crate::ledger::{can_deposit, deposited, same_ledger, transferred, CurrencyLedger};
use crate::rate::{compute_liquid_to_mint, liquid_to_mint_spec};
use crate::types::{AccountId, Balance, CurrencyId, EraIndex, Error, Event, Origin, TotalIssuanceInfo};

verus! {

/// One user's not-yet-redeemed commitment to one batch.
#[derive(Clone, Copy, PartialEq, Eq, Structural, Debug)]
struct PendingRecord {
    batch: EraIndex,
    who: AccountId,
    amount: Balance,
}

/// The amount the record list `s` holds pending for `(b, u)`; zero when no
/// record exists (absence and a zero commitment are equivalent).
spec fn pending_in(s: Seq<PendingRecord>, b: EraIndex, u: AccountId) -> Balance
    decreases s.len(),
{
    if s.len() == 0 {
        0
    } else if s[0].batch == b && s[0].who == u {
        s[0].amount
    } else {
        pending_in(s.drop_first(), b, u)
    }
}

proof fn lemma_pending_in_found(s: Seq<PendingRecord>, b: EraIndex, u: AccountId, i: int)
    requires
        0 <= i < s.len(),
        s[i].batch == b,
        s[i].who == u,
        forall|j: int| 0 <= j < i ==> !(s[j].batch == b && s[j].who == u),
    ensures
        pending_in(s, b, u) == s[i].amount,
    decreases i,
{
    if i > 0 {
        assert(forall|j: int| 0 <= j < i - 1 ==> s.drop_first()[j] == s[j + 1]);
        lemma_pending_in_found(s.drop_first(), b, u, i - 1);
    }
}

proof fn lemma_pending_in_absent(s: Seq<PendingRecord>, b: EraIndex, u: AccountId)
    requires
        forall|j: int| 0 <= j < s.len() ==> !(s[j].batch == b && s[j].who == u),
    ensures
        pending_in(s, b, u) == 0,
    decreases s.len(),
{
    if s.len() > 0 {
        assert(forall|j: int| 0 <= j < s.len() - 1 ==> s.drop_first()[j] == s[j + 1]);
        lemma_pending_in_absent(s.drop_first(), b, u);
    }
}

/// Changing only the amount of record `i` leaves every other key's pending
/// amount as it was.
proof fn lemma_pending_in_update_other(
    s: Seq<PendingRecord>,
    i: int,
    r: PendingRecord,
    b: EraIndex,
    u: AccountId,
)
    requires
        0 <= i < s.len(),
        r.batch == s[i].batch,
        r.who == s[i].who,
        !(b == r.batch && u == r.who),
    ensures
        pending_in(s.update(i, r), b, u) == pending_in(s, b, u),
    decreases s.len(),
{
    if i == 0 {
        assert(s.update(0, r).drop_first() =~= s.drop_first());
    } else {
        assert(s.update(i, r).drop_first() =~= s.drop_first().update(i - 1, r));
        lemma_pending_in_update_other(s.drop_first(), i - 1, r, b, u);
    }
}

/// Appending a record for one key leaves every other key's pending amount as
/// it was.
proof fn lemma_pending_in_push_other(
    s: Seq<PendingRecord>,
    r: PendingRecord,
    b: EraIndex,
    u: AccountId,
)
    requires
        !(b == r.batch && u == r.who),
    ensures
        pending_in(s.push(r), b, u) == pending_in(s, b, u),
    decreases s.len(),
{
    if s.len() == 0 {
        assert(s.push(r)[0] == r);
        assert(s.push(r).drop_first() =~= Seq::<PendingRecord>::empty());
        assert(pending_in(s.push(r), b, u) == pending_in(s.push(r).drop_first(), b, u));
        assert(pending_in(Seq::<PendingRecord>::empty(), b, u) == 0);
    } else {
        assert(s.push(r)[0] == s[0]);
        assert(s.push(r).drop_first() =~= s.drop_first().push(r));
        if s[0].batch == b && s[0].who == u {
            assert(pending_in(s.push(r), b, u) == s[0].amount);
            assert(pending_in(s, b, u) == s[0].amount);
        } else {
            assert(pending_in(s.push(r), b, u) == pending_in(s.push(r).drop_first(), b, u));
            assert(pending_in(s, b, u) == pending_in(s.drop_first(), b, u));
            lemma_pending_in_push_other(s.drop_first(), r, b, u);
        }
    }
}

/// The first record matching `(b, u)`, if any, with nothing matching before it.
fn find_pending_index(v: &Vec<PendingRecord>, b: EraIndex, u: AccountId) -> (r: Option<usize>)
    ensures
        match r {
            Some(i) => {
                &&& i < v@.len()
                &&& v@[i as int].batch == b
                &&& v@[i as int].who == u
                &&& forall|j: int| 0 <= j < i ==> !(v@[j].batch == b && v@[j].who == u)
            },
            None => forall|j: int| 0 <= j < v@.len() ==> !(v@[j].batch == b && v@[j].who == u),
        },
{
    let mut i: usize = 0;
    while i < v.len()
        invariant
            i <= v@.len(),
            forall|j: int| 0 <= j < i ==> !(v@[j].batch == b && v@[j].who == u),
        decreases v@.len() - i,
    {
        if v[i].batch == b && v[i].who == u {
            return Some(i);
        }
        i = i + 1;
    }
    None
}

/// A batch has a snapshot exactly when the cursor has moved past it: a closed
/// batch keeps its snapshot forever and is never the open batch again, so the
/// close path, which only ever writes a snapshot for the open batch, cannot
/// give any batch a second one; and every snapshot carries a strictly
/// positive staking total.
pub proof fn lemma_snapshot_iff_closed(p: Pallet, batch: EraIndex)
    requires
        p.wf(),
    ensures
        p.snapshot_of(batch) is Some <==> batch < p.batch_spec(),
        p.snapshot_of(batch) matches Some(info) ==> info.staking_total > 0,
{
}

/// The accounting core's whole persistent state.
pub struct Pallet {
    pending: Vec<PendingRecord>,
    snapshots: Vec<TotalIssuanceInfo>,
    current_batch: EraIndex,
    relay_chain_stash_account: Option<AccountId>,
    events: Vec<Event>,
}

/// Both states agree on every storage item and on the emitted events.
pub open spec fn same_accounting(a: Pallet, b: Pallet) -> bool {
    &&& a.batch_spec() == b.batch_spec()
    &&& a.stash_spec() == b.stash_spec()
    &&& a.events_spec() == b.events_spec()
    &&& forall|bt: EraIndex, u: AccountId| a.pending_of(bt, u) == b.pending_of(bt, u)
    &&& forall|bt: EraIndex| a.snapshot_of(bt) == b.snapshot_of(bt)
}

impl Pallet {
    /// The staking amount `who` has committed to `batch` and not yet redeemed.
    pub closed spec fn pending_of(self, batch: EraIndex, who: AccountId) -> Balance {
        pending_in(self.pending@, batch, who)
    }

    /// The issuance snapshot fixed for `batch`, if that batch has been closed.
    pub closed spec fn snapshot_of(self, batch: EraIndex) -> Option<TotalIssuanceInfo> {
        if (batch as int) < self.snapshots@.len() {
            Some(self.snapshots@[batch as int])
        } else {
            None
        }
    }

    /// The batch currently accepting commitments.
    pub closed spec fn batch_spec(self) -> EraIndex {
        self.current_batch
    }

    /// The configured stash destination, if any.
    pub closed spec fn stash_spec(self) -> Option<AccountId> {
        self.relay_chain_stash_account
    }

    /// Every notification emitted so far, in emission order.
    pub closed spec fn events_spec(self) -> Seq<Event> {
        self.events@
    }

    /// The state's internal invariant: batches are closed consecutively from
    /// zero, so a snapshot exists for exactly the batches below the cursor,
    /// and every snapshot carries a strictly positive staking total.
    pub closed spec fn wf(self) -> bool {
        &&& self.current_batch as int == self.snapshots@.len()
        &&& forall|i: int|
            0 <= i < self.snapshots@.len() ==> self.snapshots@[i].staking_total > 0
    }

    /// The genesis state: batch zero is open, nothing is pending, no stash is
    /// configured and nothing has been emitted.
    pub fn new() -> (p: Pallet)
        ensures
            p.wf(),
            p.batch_spec() == 0,
            p.stash_spec() is None,
            p.events_spec().len() == 0,
            forall|bt: EraIndex, u: AccountId| p.pending_of(bt, u) == 0,
            forall|bt: EraIndex| p.snapshot_of(bt) is None,
    {
        let p = Pallet {
            pending: Vec::new(),
            snapshots: Vec::new(),
            current_batch: 0,
            relay_chain_stash_account: None,
            events: Vec::new(),
        };
        proof {
            assert forall|bt: EraIndex, u: AccountId| p.pending_of(bt, u) == 0 by {
                assert(p.pending@.len() == 0);
            };
        }
        p
    }

    /// The pending commitment of `who` to `batch`; zero when there is none.
    pub fn pending_amount(&self, batch: EraIndex, who: AccountId) -> (r: Balance)
        ensures
            r == self.pending_of(batch, who),
    {
        match find_pending_index(&self.pending, batch, who) {
            Some(i) => {
                proof {
                    lemma_pending_in_found(self.pending@, batch, who, i as int);
                }
                self.pending[i].amount
            },
            None => {
                proof {
                    lemma_pending_in_absent(self.pending@, batch, who);
                }
                0
            },
        }
    }

    /// The issuance snapshot of `batch`, or nothing while `batch` is open or
    /// unknown.
    pub fn batch_total_issuance_info(&self, batch: EraIndex) -> (r: Option<TotalIssuanceInfo>)
        ensures
            r == self.snapshot_of(batch),
    {
        if (batch as usize) < self.snapshots.len() {
            Some(self.snapshots[batch as usize])
        } else {
            None
        }
    }

    /// The batch currently accepting commitments.
    pub fn current_batch(&self) -> (r: EraIndex)
        ensures
            r == self.batch_spec(),
    {
        self.current_batch
    }

    /// The configured stash destination, if any.
    pub fn relay_chain_stash_account(&self) -> (r: Option<AccountId>)
        ensures
            r == self.stash_spec(),
    {
        self.relay_chain_stash_account
    }

    /// Every notification emitted so far, in emission order.
    pub fn events(&self) -> (r: &Vec<Event>)
        ensures
            r@ == self.events_spec(),
    {
        &self.events
    }

    /// Configures the stash destination for committed stake. Only governance
    /// may call this; it unconditionally overwrites the previous destination.
    pub fn set_stash_account_id(&mut self, origin: Origin, new_account_id: AccountId) -> (r:
        Result<(), Error>)
        requires
            old(self).wf(),
        ensures
            final(self).wf(),
            (match origin {
                Origin::Governance => {
                    &&& r == Ok::<(), Error>(())
                    &&& final(self).stash_spec() == Some(new_account_id)
                    &&& final(self).batch_spec() == old(self).batch_spec()
                    &&& forall|bt: EraIndex, u: AccountId|
                        final(self).pending_of(bt, u) == old(self).pending_of(bt, u)
                    &&& forall|bt: EraIndex| final(self).snapshot_of(bt) == old(self).snapshot_of(bt)
                    &&& final(self).events_spec() == old(self).events_spec().push(
                        Event::RelayChainStashAccountUpdated(new_account_id),
                    )
                },
                _ => r == Err::<(), Error>(Error::Unauthorized) && same_accounting(
                    *old(self),
                    *final(self),
                ),
            }),
    {
        match origin {
            Origin::Governance => {},
            _ => {
                return Err(Error::Unauthorized);
            },
        }
        self.relay_chain_stash_account = Some(new_account_id);
        self.events.push(Event::RelayChainStashAccountUpdated(new_account_id));
        Ok(())
    }

    /// Closes the currently open batch: snapshots the operator-attested
    /// staking total together with the live liquid total issuance, then
    /// advances the batch cursor by exactly one. Only the issuer may call
    /// this, and the staking total must be nonzero.
    pub fn issue(
        &mut self,
        currency_ledger: &CurrencyLedger,
        origin: Origin,
        staking_total: Balance,
    ) -> (r: Result<(), Error>)
        requires
            old(self).wf(),
            old(self).batch_spec() < u32::MAX,
        ensures
            final(self).wf(),
            (match origin {
                Origin::Issuer => {
                    if staking_total == 0 {
                        r == Err::<(), Error>(Error::InvalidStakedCurrencyTotalIssuance)
                            && same_accounting(*old(self), *final(self))
                    } else {
                        &&& r == Ok::<(), Error>(())
                        &&& final(self).batch_spec() == old(self).batch_spec() + 1
                        &&& final(self).snapshot_of(old(self).batch_spec()) == Some(
                            (TotalIssuanceInfo {
                                staking_total: staking_total,
                                liquid_total: currency_ledger.issuance_of(CurrencyId::Liquid),
                            }),
                        )
                        &&& forall|bt: EraIndex|
                            bt != old(self).batch_spec() ==> final(self).snapshot_of(bt) == old(
                                self,
                            ).snapshot_of(bt)
                        &&& forall|bt: EraIndex, u: AccountId|
                            final(self).pending_of(bt, u) == old(self).pending_of(bt, u)
                        &&& final(self).stash_spec() == old(self).stash_spec()
                        &&& final(self).events_spec() == old(self).events_spec().push(
                            Event::BatchProcessed(
                                old(self).batch_spec(),
                                staking_total,
                                currency_ledger.issuance_of(CurrencyId::Liquid),
                            ),
                        )
                    }
                },
                _ => r == Err::<(), Error>(Error::Unauthorized) && same_accounting(
                    *old(self),
                    *final(self),
                ),
            }),
    {
        match origin {
            Origin::Issuer => {},
            _ => {
                return Err(Error::Unauthorized);
            },
        }
        if staking_total == 0 {
            return Err(Error::InvalidStakedCurrencyTotalIssuance);
        }
        let current = self.current_batch;
        let liquid_total = currency_ledger.total_issuance(CurrencyId::Liquid);
        self.snapshots.push(TotalIssuanceInfo { staking_total, liquid_total });
        self.current_batch = current + 1;
        self.events.push(Event::BatchProcessed(current, staking_total, liquid_total));
        Ok(())
    }

    /// Commits `amount` of the staking currency to the currently open batch:
    /// the amount moves from the caller to the stash destination, and the
    /// caller's pending entry for the open batch grows by `amount`. Fails
    /// before any state change when no stash is configured, when the origin is
    /// not a signed user, or when the transfer fails.
    pub fn request_mint(
        &mut self,
        currency_ledger: &mut CurrencyLedger,
        origin: Origin,
        amount: Balance,
    ) -> (r: Result<(), Error>)
        requires
            old(self).wf(),
            (match origin {
                Origin::Signed(w) => old(self).pending_of(old(self).batch_spec(), w) + amount
                    <= u128::MAX,
                _ => true,
            }),
        ensures
            final(self).wf(),
            (match (old(self).stash_spec(), origin) {
                (Option::None, _) => {
                    &&& r == Err::<(), Error>(Error::RelayChainStashAccountNotSet)
                    &&& same_accounting(*old(self), *final(self))
                    &&& same_ledger(*old(currency_ledger), *final(currency_ledger))
                },
                (Option::Some(stash), Origin::Signed(who)) => {
                    if old(currency_ledger).balance_of(CurrencyId::Staking, who) < amount {
                        &&& r == Err::<(), Error>(Error::InsufficientBalance)
                        &&& same_accounting(*old(self), *final(self))
                        &&& same_ledger(*old(currency_ledger), *final(currency_ledger))
                    } else if !(who == stash || old(currency_ledger).balance_of(
                        CurrencyId::Staking,
                        stash,
                    ) + amount <= u128::MAX) {
                        &&& r == Err::<(), Error>(Error::BalanceOverflow)
                        &&& same_accounting(*old(self), *final(self))
                        &&& same_ledger(*old(currency_ledger), *final(currency_ledger))
                    } else {
                        &&& r == Ok::<(), Error>(())
                        &&& transferred(
                            *old(currency_ledger),
                            *final(currency_ledger),
                            CurrencyId::Staking,
                            who,
                            stash,
                            amount,
                        )
                        &&& final(self).pending_of(old(self).batch_spec(), who) == old(
                            self,
                        ).pending_of(old(self).batch_spec(), who) + amount
                        &&& forall|bt: EraIndex, u: AccountId|
                            !(bt == old(self).batch_spec() && u == who) ==> final(self).pending_of(
                                bt,
                                u,
                            ) == old(self).pending_of(bt, u)
                        &&& final(self).batch_spec() == old(self).batch_spec()
                        &&& forall|bt: EraIndex|
                            final(self).snapshot_of(bt) == old(self).snapshot_of(bt)
                        &&& final(self).stash_spec() == old(self).stash_spec()
                        &&& final(self).events_spec() == old(self).events_spec().push(
                            Event::MintRequested(old(self).batch_spec(), who, amount),
                        )
                    }
                },
                (Option::Some(_), _) => {
                    &&& r == Err::<(), Error>(Error::Unauthorized)
                    &&& same_accounting(*old(self), *final(self))
                    &&& same_ledger(*old(currency_ledger), *final(currency_ledger))
                },
            }),
    {
        let stash_account = match self.relay_chain_stash_account {
            Some(a) => a,
            None => {
                return Err(Error::RelayChainStashAccountNotSet);
            },
        };
        let who = match origin {
            Origin::Signed(w) => w,
            _ => {
                return Err(Error::Unauthorized);
            },
        };
        let current = self.current_batch;
        match currency_ledger.transfer(CurrencyId::Staking, who, stash_account, amount) {
            Ok(()) => {},
            Err(e) => {
                return Err(e);
            },
        }
        match find_pending_index(&self.pending, current, who) {
            Some(i) => {
                proof {
                    lemma_pending_in_found(self.pending@, current, who, i as int);
                }
                let rec = PendingRecord {
                    batch: current,
                    who,
                    amount: self.pending[i].amount + amount,
                };
                self.pending.set(i, rec);
                proof {
                    lemma_pending_in_found(self.pending@, current, who, i as int);
                    assert forall|bt: EraIndex, u: AccountId| !(bt == current && u == who)
                        implies self.pending_of(bt, u) == old(self).pending_of(bt, u) by {
                        lemma_pending_in_update_other(old(self).pending@, i as int, rec, bt, u);
                    };
                }
            },
            None => {
                proof {
                    lemma_pending_in_absent(self.pending@, current, who);
                }
                let rec = PendingRecord { batch: current, who, amount };
                self.pending.push(rec);
                proof {
                    lemma_pending_in_found(
                        self.pending@,
                        current,
                        who,
                        old(self).pending@.len() as int,
                    );
                    assert forall|bt: EraIndex, u: AccountId| !(bt == current && u == who)
                        implies self.pending_of(bt, u) == old(self).pending_of(bt, u) by {
                        lemma_pending_in_push_other(old(self).pending@, rec, bt, u);
                    };
                }
            },
        }
        self.events.push(Event::MintRequested(current, who, amount));
        Ok(())
    }

    /// Redeems `who`'s pending commitment to the closed batch `batch`: mints
    /// the committed amount times the batch's fixed exchange rate into `who`
    /// and clears the pending entry. Any signed caller may redeem on `who`'s
    /// behalf. A missing pending entry counts as zero and mints zero.
    pub fn claim(
        &mut self,
        currency_ledger: &mut CurrencyLedger,
        origin: Origin,
        who: AccountId,
        batch: EraIndex,
    ) -> (r: Result<(), Error>)
        requires
            old(self).wf(),
        ensures
            final(self).wf(),
            (match origin {
                Origin::Signed(_) => (match old(self).snapshot_of(batch) {
                    Option::None => {
                        &&& r == Err::<(), Error>(Error::LiquidCurrencyNotIssuedForThisBatch)
                        &&& same_accounting(*old(self), *final(self))
                        &&& same_ledger(*old(currency_ledger), *final(currency_ledger))
                    },
                    Option::Some(info) => ({
                        let staked = old(self).pending_of(batch, who);
                        match liquid_to_mint_spec(staked, info.staking_total, info.liquid_total) {
                            Option::None => {
                                &&& r == Err::<(), Error>(Error::ArithmeticOverflow)
                                &&& same_accounting(*old(self), *final(self))
                                &&& same_ledger(*old(currency_ledger), *final(currency_ledger))
                            },
                            Option::Some(minted) => {
                                if !can_deposit(
                                    *old(currency_ledger),
                                    CurrencyId::Liquid,
                                    who,
                                    minted,
                                ) {
                                    &&& r == Err::<(), Error>(Error::BalanceOverflow)
                                    &&& same_accounting(*old(self), *final(self))
                                    &&& same_ledger(*old(currency_ledger), *final(currency_ledger))
                                } else {
                                    &&& r == Ok::<(), Error>(())
                                    &&& deposited(
                                        *old(currency_ledger),
                                        *final(currency_ledger),
                                        CurrencyId::Liquid,
                                        who,
                                        minted,
                                    )
                                    &&& final(self).pending_of(batch, who) == 0
                                    &&& forall|bt: EraIndex, u: AccountId|
                                        !(bt == batch && u == who) ==> final(self).pending_of(
                                            bt,
                                            u,
                                        ) == old(self).pending_of(bt, u)
                                    &&& final(self).batch_spec() == old(self).batch_spec()
                                    &&& forall|bt: EraIndex|
                                        final(self).snapshot_of(bt) == old(self).snapshot_of(bt)
                                    &&& final(self).stash_spec() == old(self).stash_spec()
                                    &&& final(self).events_spec() == old(
                                        self,
                                    ).events_spec().push(
                                        Event::LiquidCurrencyClaimed(batch, who, minted),
                                    )
                                }
                            },
                        }
                    }),
                }),
                _ => {
                    &&& r == Err::<(), Error>(Error::Unauthorized)
                    &&& same_accounting(*old(self), *final(self))
                    &&& same_ledger(*old(currency_ledger), *final(currency_ledger))
                },
            }),
    {
        match origin {
            Origin::Signed(_) => {},
            _ => {
                return Err(Error::Unauthorized);
            },
        }
        let staked_amount = self.pending_amount(batch, who);
        let total_info = match self.batch_total_issuance_info(batch) {
            Some(t) => t,
            None => {
                return Err(Error::LiquidCurrencyNotIssuedForThisBatch);
            },
        };
        let liquid_to_mint = match compute_liquid_to_mint(
            staked_amount,
            total_info.staking_total,
            total_info.liquid_total,
        ) {
            Ok(m) => m,
            Err(e) => {
                return Err(e);
            },
        };
        match currency_ledger.deposit(CurrencyId::Liquid, who, liquid_to_mint) {
            Ok(()) => {},
            Err(e) => {
                return Err(e);
            },
        }
        match find_pending_index(&self.pending, batch, who) {
            Some(i) => {
                let rec = PendingRecord { batch, who, amount: 0 };
                self.pending.set(i, rec);
                proof {
                    lemma_pending_in_found(self.pending@, batch, who, i as int);
                    assert forall|bt: EraIndex, u: AccountId| !(bt == batch && u == who)
                        implies self.pending_of(bt, u) == old(self).pending_of(bt, u) by {
                        lemma_pending_in_update_other(old(self).pending@, i as int, rec, bt, u);
                    };
                }
            },
            None => {
                proof {
                    lemma_pending_in_absent(self.pending@, batch, who);
                }
            },
        }
        self.events.push(Event::LiquidCurrencyClaimed(batch, who, liquid_to_mint));
        Ok(())
    }
}

} // verus!
