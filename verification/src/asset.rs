//! A model of a fungible asset: a balance-bearing resource with `balance`,
//! `mint` and `transfer` operations. The collective's payment asset and its
//! reward asset are both instances of it.

use vstd::prelude::*;

verus! {

/// The mathematical state of an asset: its contract reference and who holds
/// how much of it.
#[verifier::ext_equal]
pub struct AssetView {
    pub address: u64,
    pub balances: Map<u64, i128>,
}

impl AssetView {
    /// The balance an identity holds; identities without an entry hold zero.
    pub open spec fn bal(self, id: u64) -> int {
        if self.balances.contains_key(id) {
            self.balances[id] as int
        } else {
            0
        }
    }

    /// Every balance is non-negative.
    pub open spec fn wf(self) -> bool {
        forall|a: u64| #[trigger] self.bal(a) >= 0
    }
}

/// The balances a write log denotes: later entries win.
pub open spec fn bal_map(s: Seq<(u64, i128)>) -> Map<u64, i128>
    decreases s.len(),
{
    if s.len() == 0 {
        Map::empty()
    } else {
        bal_map(s.drop_last()).insert(s.last().0, s.last().1)
    }
}

/// One fungible asset contract.
#[derive(Debug)]
pub struct AssetContract {
    address: u64,
    log: Vec<(u64, i128)>,
}

impl View for AssetContract {
    type V = AssetView;

    closed spec fn view(&self) -> AssetView {
        AssetView { address: self.address, balances: bal_map(self.log@) }
    }
}

/// Reads the balance of `id` out of the first `n` log entries, newest first.
fn bal_from(log: &Vec<(u64, i128)>, n: usize, id: u64) -> (r: i128)
    requires
        n <= log.len(),
    ensures
        ({
            let m = bal_map(log@.take(n as int));
            r as int == if m.contains_key(id) {
                m[id] as int
            } else {
                0
            }
        }),
    decreases n,
{
    if n == 0 {
        0
    } else {
        proof {
            assert(log@.take(n as int).drop_last() =~= log@.take(n as int - 1));
        }
        let entry = &log[n - 1];
        if entry.0 == id {
            entry.1
        } else {
            bal_from(log, n - 1, id)
        }
    }
}

impl AssetContract {
    /// A fresh asset under reference `address`: nobody holds anything yet.
    pub fn new(address: u64) -> (r: AssetContract)
        ensures
            r@.address == address,
            r@.wf(),
            forall|a: u64| #[trigger] r@.bal(a) == 0,
    {
        AssetContract { address, log: Vec::new() }
    }

    /// The asset's contract reference.
    pub fn address(&self) -> (r: u64)
        ensures
            r == self@.address,
    {
        self.address
    }

    /// The balance `id` currently holds.
    pub fn balance(&self, id: u64) -> (r: i128)
        ensures
            r as int == self@.bal(id),
    {
        proof {
            assert(self.log@.take(self.log@.len() as int) =~= self.log@);
        }
        bal_from(&self.log, self.log.len(), id)
    }

    /// Creates `amount` fresh units and credits them to `to`.
    pub fn mint(&mut self, to: u64, amount: i128)
        requires
            old(self)@.wf(),
            amount >= 0,
            old(self)@.bal(to) + amount <= i128::MAX,
        ensures
            final(self)@.address == old(self)@.address,
            final(self)@.wf(),
            final(self)@.bal(to) == old(self)@.bal(to) + amount,
            forall|a: u64| a != to ==> final(self)@.bal(a) == old(self)@.bal(a),
    {
        let b = self.balance(to);
        self.log.push((to, b + amount));
        proof {
            assert(self.log@.drop_last() =~= old(self).log@);
            assert forall|a: u64| #[trigger] self@.bal(a) >= 0 by {
                assert(old(self)@.bal(a) >= 0);
            }
        }
    }

    /// Moves `amount` units from `from` to `to`. The caller must have
    /// established that `from` can cover the amount; a transfer to oneself
    /// changes nothing.
    pub fn transfer(&mut self, from: u64, to: u64, amount: i128)
        requires
            old(self)@.wf(),
            amount >= 0,
            old(self)@.bal(from) >= amount,
            old(self)@.bal(to) + amount <= i128::MAX,
        ensures
            final(self)@.address == old(self)@.address,
            final(self)@.wf(),
            from != to ==> final(self)@.bal(from) == old(self)@.bal(from) - amount,
            from != to ==> final(self)@.bal(to) == old(self)@.bal(to) + amount,
            from == to ==> final(self)@ == old(self)@,
            forall|a: u64| a != from && a != to ==> final(self)@.bal(a) == old(self)@.bal(a),
    {
        if from != to {
            let fb = self.balance(from);
            let tb = self.balance(to);
            let debited = fb - amount;
            let credited = tb + amount;
            self.log.push((from, debited));
            proof {
                assert(self.log@.drop_last() =~= old(self).log@);
                assert(self@.balances == old(self)@.balances.insert(from, debited));
            }
            let ghost mid_log = self.log@;
            self.log.push((to, credited));
            proof {
                assert(self.log@.drop_last() =~= mid_log);
                assert(self@.balances == bal_map(mid_log).insert(to, credited));
                assert(self@.balances == old(self)@.balances.insert(from, debited).insert(
                    to,
                    credited,
                ));
                assert forall|a: u64| #[trigger] self@.bal(a) >= 0 by {
                    assert(old(self)@.bal(a) >= 0);
                }
            }
        }
    }
}

} // verus!
