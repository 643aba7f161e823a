//! The fungible-asset ledger, modelled as a balance table, and the scoped
//! single-use transfer authorization.
//!
//! The real ledger is an external collaborator; this model keeps one signed
//! balance per (token, holder) account and proves that every balance stays
//! nonnegative and that a transfer conserves the sum it moves between.
//!
//! A cross-engine token pull must present a [`TransferPermit`]: a permission
//! object naming one token, one payer, one payee and one amount. The permit
//! is consumed by move, so it cannot be replayed, and the ledger accepts it
//! only for exactly the movement it names.

use vstd::prelude::*;
use std::collections::HashMap;

verus! {

broadcast use vstd::std_specs::hash::group_hash_axioms;

/// The account key of `holder`'s balance of `token`.
pub open spec fn account_key(token: u64, holder: u64) -> u128 {
    (token * 0x1_0000_0000_0000_0000 + holder) as u128
}

/// Distinct (token, holder) pairs name distinct accounts.
pub proof fn lemma_account_key_injective(t1: u64, h1: u64, t2: u64, h2: u64)
    ensures
        account_key(t1, h1) == account_key(t2, h2) <==> (t1 == t2 && h1 == h2),
{
    assert(t1 * 0x1_0000_0000_0000_0000 + h1 == t2 * 0x1_0000_0000_0000_0000 + h2 <==> (t1 == t2
        && h1 == h2)) by (nonlinear_arith)
        requires
            h1 <= 0xffff_ffff_ffff_ffffu64,
            h2 <= 0xffff_ffff_ffff_ffffu64,
    ;
    assert(t1 * 0x1_0000_0000_0000_0000 + h1 <= 0xffff_ffff_ffff_ffff_ffff_ffff_ffff_ffffu128)
        by (nonlinear_arith)
        requires
            t1 <= 0xffff_ffff_ffff_ffffu64,
            h1 <= 0xffff_ffff_ffff_ffffu64,
    ;
    assert(t2 * 0x1_0000_0000_0000_0000 + h2 <= 0xffff_ffff_ffff_ffff_ffff_ffff_ffff_ffffu128)
        by (nonlinear_arith)
        requires
            t2 <= 0xffff_ffff_ffff_ffffu64,
            h2 <= 0xffff_ffff_ffff_ffffu64,
    ;
}

/// A scoped, single-use permission to move `amount` of `token` from the
/// `from` account to the `to` account. Consumed by move: a permit spent on
/// one transfer is gone and cannot be replayed.
pub struct TransferPermit {
    pub token: u64,
    pub from: u64,
    pub to: u64,
    pub amount: i128,
}

/// The balance table: one signed balance per (token, holder) account, zero
/// when absent.
pub struct Ledger {
    accounts: HashMap<u128, i128>,
}

impl Ledger {
    /// The balance of `holder`'s account of `token`.
    pub closed spec fn bal(self, token: u64, holder: u64) -> int {
        if self.accounts@.contains_key(account_key(token, holder)) {
            self.accounts@[account_key(token, holder)] as int
        } else {
            0
        }
    }

    /// Every balance is nonnegative.
    pub closed spec fn wf(self) -> bool {
        forall|k: u128| self.accounts@.contains_key(k) ==> self.accounts@[k] >= 0
    }

    /// A well-formed ledger holds no negative balance.
    pub proof fn lemma_wf_nonneg(self, token: u64, holder: u64)
        requires
            self.wf(),
        ensures
            self.bal(token, holder) >= 0,
    {
    }

    /// An empty ledger.
    pub fn new() -> (r: Ledger)
        ensures
            r.wf(),
            forall|t: u64, h: u64| r.bal(t, h) == 0,
    {
        Ledger { accounts: HashMap::new() }
    }

    /// The balance of `holder`'s account of `token`.
    pub fn balance(&self, token: u64, holder: u64) -> (r: i128)
        ensures
            r == self.bal(token, holder),
    {
        let key = account_key_exec(token, holder);
        match self.accounts.get(&key) {
            Some(v) => *v,
            None => 0,
        }
    }

    /// Create `amount` new units of `token` in the `to` account.
    pub fn mint(&mut self, token: u64, to: u64, amount: i128)
        requires
            old(self).wf(),
            amount >= 0,
            old(self).bal(token, to) + amount <= i128::MAX,
        ensures
            final(self).wf(),
            final(self).bal(token, to) == old(self).bal(token, to) + amount,
            forall|t: u64, h: u64|
                !(t == token && h == to) ==> final(self).bal(t, h) == old(self).bal(t, h),
    {
        let key = account_key_exec(token, to);
        let held = self.balance(token, to);
        self.accounts.insert(key, held + amount);
        proof {
            assert forall|t: u64, h: u64| !(t == token && h == to) implies self.bal(t, h)
                == old(self).bal(t, h) by {
                lemma_account_key_injective(t, h, token, to);
            }
        }
    }

    /// Destroy `amount` units of `token` held by the `from` account.
    pub fn burn(&mut self, token: u64, from: u64, amount: i128)
        requires
            old(self).wf(),
            0 <= amount <= old(self).bal(token, from),
        ensures
            final(self).wf(),
            final(self).bal(token, from) == old(self).bal(token, from) - amount,
            forall|t: u64, h: u64|
                !(t == token && h == from) ==> final(self).bal(t, h) == old(self).bal(t, h),
    {
        let key = account_key_exec(token, from);
        let held = self.balance(token, from);
        self.accounts.insert(key, held - amount);
        proof {
            assert forall|t: u64, h: u64| !(t == token && h == from) implies self.bal(t, h)
                == old(self).bal(t, h) by {
                lemma_account_key_injective(t, h, token, from);
            }
        }
    }

    /// Move `amount` units of `token` from the `from` account to the `to`
    /// account. The moved sum is conserved and no other account changes.
    pub fn transfer(&mut self, token: u64, from: u64, to: u64, amount: i128)
        requires
            old(self).wf(),
            0 <= amount <= old(self).bal(token, from),
            from != to ==> old(self).bal(token, to) + amount <= i128::MAX,
        ensures
            final(self).wf(),
            from != to ==> final(self).bal(token, from) == old(self).bal(token, from) - amount,
            from != to ==> final(self).bal(token, to) == old(self).bal(token, to) + amount,
            final(self).bal(token, from) + final(self).bal(token, to) == old(self).bal(token, from)
                + old(self).bal(token, to),
            forall|t: u64, h: u64|
                !(t == token && (h == from || h == to)) ==> final(self).bal(t, h) == old(self).bal(
                    t,
                    h,
                ),
            from == to ==> final(self).bal(token, from) == old(self).bal(token, from),
    {
        if from == to {
            return ;
        }
        let from_key = account_key_exec(token, from);
        let held_from = self.balance(token, from);
        self.accounts.insert(from_key, held_from - amount);
        proof {
            lemma_account_key_injective(token, to, token, from);
        }
        let to_key = account_key_exec(token, to);
        let held_to = self.balance(token, to);
        self.accounts.insert(to_key, held_to + amount);
        proof {
            lemma_account_key_injective(token, from, token, to);
            assert forall|t: u64, h: u64| !(t == token && (h == from || h == to)) implies self.bal(
                t,
                h,
            ) == old(self).bal(t, h) by {
                lemma_account_key_injective(t, h, token, from);
                lemma_account_key_injective(t, h, token, to);
            }
        }
    }

    /// Move tokens under a scoped authorization. The permit must name
    /// exactly this movement, and it is consumed here whether or not the
    /// caller holds any other right.
    pub fn transfer_with_permit(
        &mut self,
        permit: TransferPermit,
        token: u64,
        from: u64,
        to: u64,
        amount: i128,
    )
        requires
            old(self).wf(),
            permit.token == token,
            permit.from == from,
            permit.to == to,
            permit.amount == amount,
            0 <= amount <= old(self).bal(token, from),
            from != to ==> old(self).bal(token, to) + amount <= i128::MAX,
        ensures
            final(self).wf(),
            from != to ==> final(self).bal(token, from) == old(self).bal(token, from) - amount,
            from != to ==> final(self).bal(token, to) == old(self).bal(token, to) + amount,
            final(self).bal(token, from) + final(self).bal(token, to) == old(self).bal(token, from)
                + old(self).bal(token, to),
            forall|t: u64, h: u64|
                !(t == token && (h == from || h == to)) ==> final(self).bal(t, h) == old(self).bal(
                    t,
                    h,
                ),
            from == to ==> final(self).bal(token, from) == old(self).bal(token, from),
    {
        let TransferPermit { token: _, from: _, to: _, amount: _ } = permit;
        self.transfer(token, from, to, amount);
    }
}

/// The account key of `holder`'s balance of `token`.
fn account_key_exec(token: u64, holder: u64) -> (k: u128)
    ensures
        k == account_key(token, holder),
{
    proof {
        assert(token * 0x1_0000_0000_0000_0000 + holder
            <= 0xffff_ffff_ffff_ffff_ffff_ffff_ffff_ffffu128) by (nonlinear_arith)
            requires
                token <= 0xffff_ffff_ffff_ffffu64,
                holder <= 0xffff_ffff_ffff_ffffu64,
        ;
    }
    (token as u128) * 0x1_0000_0000_0000_0000u128 + (holder as u128)
}

} // verus!
