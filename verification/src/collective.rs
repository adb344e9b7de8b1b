//! The membership collective: records, errors, and the contract state machine.

use vstd::pervasive::unreached;
use vstd::prelude::*;
use vstd::string::StringExecFns;

use crate::asset::AssetContract;
use crate::storage::{map_get, storage_d, storage_g, storage_p, Datakey, Kind, Store, Val, ValView};
use crate::tokens::{IpfsToken, NodeToken};

verus! {

/// Why an operation was rejected. Every rejection leaves the contract state
/// exactly as it was before the call.
#[derive(Clone, Copy, PartialEq, Eq, Structural, Debug)]
pub enum ContractError {
    /// A join was attempted by an identity that is already a member.
    AlreadyMember,
    /// A balance is below the fee the operation requires.
    InsufficientFunds,
    /// The required authorization is missing, or a deployment was attempted
    /// by a non-member.
    Unauthorized,
    /// The referenced member record is absent.
    NotFound,
    /// A withdrawal was attempted while the treasury holds less than the
    /// current join fee.
    InsufficientTreasury,
    /// The reward network was asked to launch a second time.
    AlreadyLaunched,
    /// A reward-paying operation was attempted before the reward network
    /// was launched.
    NetworkNotUp,
}

/// One collective participant. `paid` is the join fee that was in force at
/// the moment this member joined; later fee updates never touch it.
#[derive(Clone, Copy, PartialEq, Eq, Structural, Debug)]
pub struct Member {
    pub address: u64,
    pub paid: u32,
}

/// The durable root record: the member list in join order, the current join
/// fee, and the payment asset, which is fixed at construction.
pub struct Collective {
    pub members: Vec<Member>,
    pub fee: u32,
    pub pay_token: u64,
}

/// The mathematical value of a [`Collective`] record.
#[verifier::ext_equal]
pub struct CollectiveView {
    pub members: Seq<Member>,
    pub fee: u32,
    pub pay_token: u64,
}

impl View for Collective {
    type V = CollectiveView;

    open spec fn view(&self) -> CollectiveView {
        CollectiveView { members: self.members@, fee: self.fee, pay_token: self.pay_token }
    }
}

impl Clone for Collective {
    fn clone(&self) -> (r: Self)
        ensures
            r@ == self@,
    {
        let mut members: Vec<Member> = Vec::new();
        let mut i: usize = 0;
        while i < self.members.len()
            invariant
                i <= self.members.len(),
                members@ == self.members@.take(i as int),
            decreases self.members.len() - i,
        {
            members.push(self.members[i]);
            proof {
                assert(self.members@.take(i + 1) =~= self.members@.take(i as int).push(
                    self.members@[i as int],
                ));
            }
            i += 1;
        }
        proof {
            assert(self.members@.take(self.members@.len() as int) =~= self.members@);
        }
        Collective { members, fee: self.fee, pay_token: self.pay_token }
    }
}

/// No two entries of a member list share an address.
pub open spec fn unique_addresses(s: Seq<Member>) -> bool {
    forall|i: int, j: int|
        0 <= i < j < s.len() ==> (#[trigger] s[i]).address != (#[trigger] s[j]).address
}

/// Membership and each member's recorded payment are functions of the member
/// list alone: any operation that leaves the list as it is — updating the
/// join fee above all — neither changes who is a member nor alters what an
/// existing member is recorded as having paid.
pub proof fn lemma_member_paid_depends_only_on_members(
    pre: CollectiveContract,
    post: CollectiveContract,
    person: u64,
)
    requires
        pre.wf(),
        post.members_seq() == pre.members_seq(),
    ensures
        post.has_member(person) == pre.has_member(person),
        pre.has_member(person) ==> post.member_paid_spec(person) == pre.member_paid_spec(person),
{
    if pre.has_member(person) {
        let i = pre.member_index(person);
        assert(pre.members_seq()[i].address == person);
        assert(post.members_seq()[i].address == person);
        assert(post.has_member(person));
        let j = post.member_index(person);
        assert(post.members_seq()[j].address == person);
        if i != j {
            assert(false);
        }
    }
    if post.has_member(person) {
        let i = post.member_index(person);
        assert(pre.members_seq()[i].address == person);
        assert(pre.has_member(person));
    }
}

/// Appending a member with a fresh address keeps addresses unique.
proof fn lemma_unique_push(s: Seq<Member>, m: Member)
    requires
        unique_addresses(s),
        !(exists|i: int| 0 <= i < s.len() && (#[trigger] s[i]).address == m.address),
    ensures
        unique_addresses(s.push(m)),
{
    assert forall|i: int, j: int| 0 <= i < j < s.push(m).len() implies (#[trigger] s.push(m)[i]).address
        != (#[trigger] s.push(m)[j]).address by {
        assert(s.push(m)[i] == s[i]);
        if j < s.len() {
            assert(s.push(m)[j] == s[j]);
        } else {
            assert(s.push(m)[j] == m);
        }
    }
}

/// Removing an entry keeps addresses unique.
proof fn lemma_unique_remove(s: Seq<Member>, k: int)
    requires
        unique_addresses(s),
        0 <= k < s.len(),
    ensures
        unique_addresses(s.remove(k)),
{
    s.remove_ensures(k);
    assert forall|i: int, j: int| 0 <= i < j < s.remove(k).len() implies (#[trigger] s.remove(
        k,
    )[i]).address != (#[trigger] s.remove(k)[j]).address by {
        if i < k {
            assert(s.remove(k)[i] == s[i]);
        } else {
            assert(s.remove(k)[i] == s[i + 1]);
        }
        if j < k {
            assert(s.remove(k)[j] == s[j]);
        } else {
            assert(s.remove(k)[j] == s[j + 1]);
        }
    }
}

/// The collective contract: the durable records behind the storage
/// dispatcher, the reward asset once launched, and the contract's own
/// address on the ledger.
pub struct CollectiveContract {
    contract_id: u64,
    next_ref: u64,
    store: Store,
    opus: Option<AssetContract>,
}

impl CollectiveContract {
    /// The durable records.
    pub closed spec fn durable(&self) -> Map<Datakey, ValView> {
        self.store.tier(Kind::Permanent)
    }

    /// The root collective record.
    pub closed spec fn collective_rec(&self) -> CollectiveView {
        match self.durable()[Datakey::Collective] {
            ValView::Record(c) => c,
            _ => CollectiveView { members: Seq::empty(), fee: 0, pay_token: 0 },
        }
    }

    /// The privileged admin identity, fixed at construction.
    pub closed spec fn admin_spec(&self) -> u64 {
        match self.durable()[Datakey::Admin] {
            ValView::Ident(a) => a,
            _ => 0,
        }
    }

    /// The fee charged when a member creates a file token.
    pub closed spec fn mint_fee_spec(&self) -> u32 {
        match self.durable()[Datakey::MintFee] {
            ValView::Amount(x) => x,
            _ => 0,
        }
    }

    /// The contract's own address, which holds the treasury.
    pub closed spec fn contract_address(&self) -> u64 {
        self.contract_id
    }

    /// The member list, in join order.
    pub open spec fn members_seq(&self) -> Seq<Member> {
        self.collective_rec().members
    }

    /// The current join fee.
    pub open spec fn fee_spec(&self) -> u32 {
        self.collective_rec().fee
    }

    /// The payment asset's reference, fixed at construction.
    pub open spec fn pay_token_spec(&self) -> u64 {
        self.collective_rec().pay_token
    }

    /// Whether the reward network has been launched.
    pub closed spec fn launched(&self) -> bool {
        self.opus is Some
    }

    /// The reward asset's reference, once launched.
    pub closed spec fn opus_addr_spec(&self) -> u64 {
        match self.opus {
            Some(o) => o@.address,
            None => 0,
        }
    }

    /// The reward-asset balance an identity holds; zero before launch.
    pub closed spec fn opus_bal(&self, a: u64) -> int {
        match self.opus {
            Some(o) => o@.bal(a),
            None => 0,
        }
    }

    /// Whether `a` is currently a member.
    pub open spec fn has_member(&self, a: u64) -> bool {
        exists|i: int|
            0 <= i < self.members_seq().len() && (#[trigger] self.members_seq()[i]).address == a
    }

    /// The position of member `a` in the list.
    pub open spec fn member_index(&self, a: u64) -> int {
        choose|i: int|
            0 <= i < self.members_seq().len() && (#[trigger] self.members_seq()[i]).address == a
    }

    /// The fee member `a` is recorded as having paid when they joined.
    pub open spec fn member_paid_spec(&self, a: u64) -> u32 {
        self.members_seq()[self.member_index(a)].paid
    }

    /// The member record a successful join of `person` creates.
    pub open spec fn joined_member(&self, person: u64) -> Member {
        Member { address: person, paid: self.fee_spec() }
    }

    /// What only construction sets: the admin, the contract's own address,
    /// the payment asset, and the mint fee.
    pub open spec fn config_unchanged(&self, post: Self) -> bool {
        &&& post.admin_spec() == self.admin_spec()
        &&& post.contract_address() == self.contract_address()
        &&& post.pay_token_spec() == self.pay_token_spec()
        &&& post.mint_fee_spec() == self.mint_fee_spec()
    }

    /// The reward network's whole state: flag, reference, and balances.
    pub open spec fn opus_unchanged(&self, post: Self) -> bool {
        &&& post.launched() == self.launched()
        &&& post.opus_addr_spec() == self.opus_addr_spec()
        &&& forall|a: u64| (#[trigger] post.opus_bal(a)) == self.opus_bal(a)
    }

    /// Well-formedness: the admin, root, and mint-fee records exist with
    /// their proper shapes; the instance tier mirrors the admin; membership
    /// is unique; each member's durable record matches the list and no stray
    /// member records exist; and the reward records match the launched state.
    pub closed spec fn wf(&self) -> bool {
        &&& self.durable().contains_key(Datakey::Admin)
        &&& self.durable()[Datakey::Admin] is Ident
        &&& self.durable().contains_key(Datakey::Collective)
        &&& self.durable()[Datakey::Collective] is Record
        &&& self.durable().contains_key(Datakey::MintFee)
        &&& self.durable()[Datakey::MintFee] is Amount
        &&& map_get(self.store.tier(Kind::Instance), Datakey::Admin) == Some(
            ValView::Ident(self.admin_spec()),
        )
        &&& unique_addresses(self.members_seq())
        &&& forall|i: int|
            0 <= i < self.members_seq().len() ==> map_get(
                self.durable(),
                Datakey::Member((#[trigger] self.members_seq()[i]).address),
            ) == Some(ValView::Entry(self.members_seq()[i]))
        &&& forall|a: u64|
            (#[trigger] self.durable().contains_key(Datakey::Member(a))) ==> self.has_member(a)
        &&& (self.durable().contains_key(Datakey::Opus) <==> self.launched())
        &&& (self.launched() ==> self.durable()[Datakey::Opus] == ValView::Ident(
            self.opus_addr_spec(),
        ))
        &&& (match self.opus {
            Some(o) => o@.wf(),
            None => true,
        })
    }

    /// Builds the collective: the admin identity (in both the instance and
    /// the permanent tier), the root record with no members, the join fee
    /// and the payment asset, and the mint fee.
    pub fn new(admin: u64, fee: u32, mint_fee: u32, pay_token: u64, contract_id: u64) -> (c:
        CollectiveContract)
        ensures
            c.wf(),
            c.admin_spec() == admin,
            c.fee_spec() == fee,
            c.mint_fee_spec() == mint_fee,
            c.pay_token_spec() == pay_token,
            c.contract_address() == contract_id,
            c.members_seq() == Seq::<Member>::empty(),
            !c.launched(),
    {
        let mut store = Store::new();
        let _ = storage_p(&mut store, Val::Ident(admin), Kind::Instance, Datakey::Admin);
        let _ = storage_p(&mut store, Val::Ident(admin), Kind::Permanent, Datakey::Admin);
        let collective = Collective { members: Vec::new(), fee, pay_token };
        let _ = storage_p(&mut store, Val::Record(collective), Kind::Permanent, Datakey::Collective);
        let _ = storage_p(&mut store, Val::Amount(mint_fee), Kind::Permanent, Datakey::MintFee);
        CollectiveContract { contract_id, next_ref: contract_id, store, opus: None }
    }

    /// Reads the root record; well-formedness guarantees it is present.
    fn read_collective(&self) -> (c: Collective)
        requires
            self.wf(),
        ensures
            c@ == self.collective_rec(),
    {
        match storage_g(&self.store, Kind::Permanent, Datakey::Collective) {
            Some(Val::Record(c)) => c,
            _ => unreached(),
        }
    }

    /// Reads the admin identity from the instance tier.
    fn read_admin(&self) -> (a: u64)
        requires
            self.wf(),
        ensures
            a == self.admin_spec(),
    {
        match storage_g(&self.store, Kind::Instance, Datakey::Admin) {
            Some(Val::Ident(a)) => a,
            _ => unreached(),
        }
    }

    /// Reads the mint fee record.
    fn read_mint_fee(&self) -> (x: u32)
        requires
            self.wf(),
        ensures
            x == self.mint_fee_spec(),
    {
        match storage_g(&self.store, Kind::Permanent, Datakey::MintFee) {
            Some(Val::Amount(x)) => x,
            _ => unreached(),
        }
    }

    /// Hands out a contract reference for a newly instantiated collaborator.
    fn alloc_ref(&mut self) -> (r: u64)
        ensures
            final(self).store == old(self).store,
            final(self).opus == old(self).opus,
            final(self).contract_id == old(self).contract_id,
    {
        let r = self.next_ref;
        self.next_ref = if self.next_ref < u64::MAX {
            self.next_ref + 1
        } else {
            0
        };
        r
    }

    /// Pure membership lookup; no authorization, no side effect.
    pub fn is_member(&self, person: u64) -> (r: bool)
        requires
            self.wf(),
        ensures
            r == self.has_member(person),
    {
        let collective = self.read_collective();
        let n = collective.members.len();
        let mut i: usize = 0;
        while i < n
            invariant
                self.wf(),
                n == collective.members.len(),
                i <= n,
                collective.members@ == self.members_seq(),
                forall|j: int| 0 <= j < i ==> (#[trigger] collective.members@[j]).address != person,
            decreases n - i,
        {
            if collective.members[i].address == person {
                proof {
                    assert(self.members_seq()[i as int].address == person);
                }
                return true;
            }
            i += 1;
        }
        proof {
            if self.has_member(person) {
                let w = choose|w: int|
                    0 <= w < self.members_seq().len() && (#[trigger] self.members_seq()[w]).address
                        == person;
                assert(collective.members@[w].address != person);
            }
        }
        false
    }

    /// The historical fee `person` paid at join time; `NotFound` when no
    /// such member record exists.
    pub fn member_paid(&self, person: u64) -> (r: Result<u32, ContractError>)
        requires
            self.wf(),
        ensures
            self.has_member(person) ==> r == Ok::<u32, ContractError>(
                self.member_paid_spec(person),
            ),
            !self.has_member(person) ==> r == Err::<u32, ContractError>(ContractError::NotFound),
    {
        let got = storage_g(&self.store, Kind::Permanent, Datakey::Member(person));
        match got {
            Some(Val::Entry(m)) => {
                proof {
                    let i = self.member_index(person);
                    assert(map_get(self.durable(), Datakey::Member(self.members_seq()[i].address))
                        == Some(ValView::Entry(self.members_seq()[i])));
                }
                Ok(m.paid)
            },
            None => {
                proof {
                    if self.has_member(person) {
                        let i = self.member_index(person);
                        assert(map_get(
                            self.durable(),
                            Datakey::Member(self.members_seq()[i].address),
                        ) == Some(ValView::Entry(self.members_seq()[i])));
                    }
                }
                Err(ContractError::NotFound)
            },
            _ => {
                proof {
                    let i = self.member_index(person);
                    assert(map_get(self.durable(), Datakey::Member(self.members_seq()[i].address))
                        == Some(ValView::Entry(self.members_seq()[i])));
                }
                unreached()
            },
        }
    }

    /// The member list, for the admin's eyes only.
    pub fn members(&self, caller: u64) -> (r: Result<Vec<Member>, ContractError>)
        requires
            self.wf(),
        ensures
            caller != self.admin_spec() ==> r == Err::<Vec<Member>, ContractError>(
                ContractError::Unauthorized,
            ),
            caller == self.admin_spec() ==> (r matches Ok(v) && v@ == self.members_seq()),
    {
        let admin = self.read_admin();
        if caller != admin {
            return Err(ContractError::Unauthorized);
        }
        let collective = self.read_collective();
        Ok(collective.members)
    }

    /// The collective's symbol.
    pub fn symbol(&self) -> (r: String)
        ensures
            r@ == "HVYM"@,
    {
        String::from_str("HVYM")
    }

    /// The current join fee.
    pub fn join_fee(&self) -> (r: u32)
        requires
            self.wf(),
        ensures
            r == self.fee_spec(),
    {
        self.read_collective().fee
    }

    /// The current mint fee.
    pub fn mint_fee(&self) -> (r: u32)
        requires
            self.wf(),
        ensures
            r == self.mint_fee_spec(),
    {
        self.read_mint_fee()
    }

    /// The reward-asset balance `id` holds; `NetworkNotUp` before launch.
    pub fn opus_balance(&self, id: u64) -> (r: Result<i128, ContractError>)
        requires
            self.wf(),
        ensures
            self.launched() ==> (r matches Ok(b) && b as int == self.opus_bal(id)),
            !self.launched() ==> r == Err::<i128, ContractError>(ContractError::NetworkNotUp),
    {
        match &self.opus {
            Some(o) => Ok(o.balance(id)),
            None => Err(ContractError::NetworkNotUp),
        }
    }

    /// The reward asset's reference; `NetworkNotUp` before launch.
    pub fn opus_address(&self) -> (r: Result<u64, ContractError>)
        requires
            self.wf(),
        ensures
            self.launched() ==> r == Ok::<u64, ContractError>(self.opus_addr_spec()),
            !self.launched() ==> r == Err::<u64, ContractError>(ContractError::NetworkNotUp),
    {
        match &self.opus {
            Some(o) => Ok(o.address()),
            None => Err(ContractError::NetworkNotUp),
        }
    }

    /// Overwrites the join fee, admin only. Existing member records — and
    /// what each member is recorded as having paid — are untouched.
    pub fn update_join_fee(&mut self, caller: u64, new_fee: u32) -> (r: Result<
        u32,
        ContractError,
    >)
        requires
            old(self).wf(),
        ensures
            final(self).wf(),
            caller != old(self).admin_spec() ==> r == Err::<u32, ContractError>(
                ContractError::Unauthorized,
            ) && *final(self) == *old(self),
            caller == old(self).admin_spec() ==> ({
                &&& r == Ok::<u32, ContractError>(new_fee)
                &&& final(self).fee_spec() == new_fee
                &&& final(self).members_seq() == old(self).members_seq()
                &&& old(self).config_unchanged(*final(self))
                &&& old(self).opus_unchanged(*final(self))
            }),
    {
        let admin = self.read_admin();
        if caller != admin {
            return Err(ContractError::Unauthorized);
        }
        let mut collective = self.read_collective();
        collective.fee = new_fee;
        let _ = storage_p(
            &mut self.store,
            Val::Record(collective),
            Kind::Permanent,
            Datakey::Collective,
        );
        Ok(new_fee)
    }

    /// Accepts a donation of `amount` units of the payment asset from any
    /// principal; no membership is required.
    pub fn fund_contract(&self, pay: &mut AssetContract, from: u64, amount: i128) -> (r: Result<
        (),
        ContractError,
    >)
        requires
            self.wf(),
            old(pay)@.wf(),
            old(pay)@.address == self.pay_token_spec(),
            amount >= 0,
            old(pay)@.bal(self.contract_address()) + amount <= i128::MAX,
        ensures
            final(pay)@.wf(),
            final(pay)@.address == old(pay)@.address,
            old(pay)@.bal(from) < amount ==> r == Err::<(), ContractError>(
                ContractError::InsufficientFunds,
            ) && *final(pay) == *old(pay),
            old(pay)@.bal(from) >= amount ==> ({
                &&& r == Ok::<(), ContractError>(())
                &&& from != self.contract_address() ==> final(pay)@.bal(from) == old(pay)@.bal(from)
                    - amount
                &&& from != self.contract_address() ==> final(pay)@.bal(self.contract_address())
                    == old(pay)@.bal(self.contract_address()) + amount
                &&& from == self.contract_address() ==> final(pay)@ == old(pay)@
                &&& forall|a: u64|
                    a != from && a != self.contract_address() ==> final(pay)@.bal(a) == old(
                        pay,
                    )@.bal(a)
            }),
    {
        let balance = pay.balance(from);
        if balance < amount {
            return Err(ContractError::InsufficientFunds);
        }
        pay.transfer(from, self.contract_id, amount);
        Ok(())
    }

    /// Sends the entire treasury — the contract's whole balance of the
    /// payment asset — to `to`, admin only; refused while the treasury holds
    /// less than one join fee.
    pub fn withdraw(&self, pay: &mut AssetContract, caller: u64, to: u64) -> (r: Result<
        bool,
        ContractError,
    >)
        requires
            self.wf(),
            old(pay)@.wf(),
            old(pay)@.address == self.pay_token_spec(),
            old(pay)@.bal(to) + old(pay)@.bal(self.contract_address()) <= i128::MAX,
        ensures
            final(pay)@.wf(),
            final(pay)@.address == old(pay)@.address,
            caller != self.admin_spec() ==> r == Err::<bool, ContractError>(
                ContractError::Unauthorized,
            ) && *final(pay) == *old(pay),
            caller == self.admin_spec() && old(pay)@.bal(self.contract_address())
                < self.fee_spec() ==> r == Err::<bool, ContractError>(
                ContractError::InsufficientTreasury,
            ) && *final(pay) == *old(pay),
            caller == self.admin_spec() && old(pay)@.bal(self.contract_address())
                >= self.fee_spec() ==> ({
                &&& r == Ok::<bool, ContractError>(true)
                &&& to != self.contract_address() ==> final(pay)@.bal(to) == old(pay)@.bal(to)
                    + old(pay)@.bal(self.contract_address())
                &&& to != self.contract_address() ==> final(pay)@.bal(self.contract_address()) == 0
                &&& to == self.contract_address() ==> final(pay)@ == old(pay)@
                &&& forall|a: u64|
                    a != to && a != self.contract_address() ==> final(pay)@.bal(a) == old(
                        pay,
                    )@.bal(a)
            }),
    {
        let admin = self.read_admin();
        if caller != admin {
            return Err(ContractError::Unauthorized);
        }
        let fee = self.join_fee();
        let total = pay.balance(self.contract_id);
        if total < fee as i128 {
            return Err(ContractError::InsufficientTreasury);
        }
        pay.transfer(self.contract_id, to, total);
        Ok(true)
    }

    /// Launches the reward network exactly once, admin only: creates the
    /// reward asset, mints the initial supply to the contract, and durably
    /// records the asset's reference as the launched flag.
    pub fn launch_opus(&mut self, caller: u64, initial_supply: i128) -> (r: Result<
        (),
        ContractError,
    >)
        requires
            old(self).wf(),
            initial_supply >= 0,
        ensures
            final(self).wf(),
            caller != old(self).admin_spec() ==> r == Err::<(), ContractError>(
                ContractError::Unauthorized,
            ) && *final(self) == *old(self),
            caller == old(self).admin_spec() && old(self).launched() ==> r == Err::<
                (),
                ContractError,
            >(ContractError::AlreadyLaunched) && *final(self) == *old(self),
            caller == old(self).admin_spec() && !old(self).launched() ==> ({
                &&& r == Ok::<(), ContractError>(())
                &&& final(self).launched()
                &&& final(self).opus_bal(old(self).contract_address()) == initial_supply
                &&& forall|a: u64|
                    a != old(self).contract_address() ==> (#[trigger] final(self).opus_bal(a)) == 0
                &&& final(self).members_seq() == old(self).members_seq()
                &&& final(self).fee_spec() == old(self).fee_spec()
                &&& old(self).config_unchanged(*final(self))
            }),
    {
        let admin = self.read_admin();
        if caller != admin {
            return Err(ContractError::Unauthorized);
        }
        let already = storage_g(&self.store, Kind::Permanent, Datakey::Opus);
        if already.is_some() {
            return Err(ContractError::AlreadyLaunched);
        }
        let addr = self.alloc_ref();
        let mut asset = AssetContract::new(addr);
        asset.mint(self.contract_id, initial_supply);
        let _ = storage_p(&mut self.store, Val::Ident(addr), Kind::Permanent, Datakey::Opus);
        self.opus = Some(asset);
        Ok(())
    }

    /// Creates a node token for member `person` through the node-token
    /// factory; the new token mints one unit to the member. Members only;
    /// no fee beyond membership.
    pub fn deploy_node_token(&mut self, person: u64, name: String, descriptor: String) -> (r:
        Result<NodeToken, ContractError>)
        requires
            old(self).wf(),
        ensures
            final(self).wf(),
            !old(self).has_member(person) ==> r == Err::<NodeToken, ContractError>(
                ContractError::Unauthorized,
            ) && *final(self) == *old(self),
            old(self).has_member(person) ==> ({
                &&& r matches Ok(t) && t.owner == person && t.name == name && t.symbol@
                    == "HVYMNODE"@ && t.descriptor == descriptor
                &&& final(self).members_seq() == old(self).members_seq()
                &&& final(self).fee_spec() == old(self).fee_spec()
                &&& old(self).config_unchanged(*final(self))
                &&& old(self).opus_unchanged(*final(self))
            }),
    {
        if !self.is_member(person) {
            return Err(ContractError::Unauthorized);
        }
        let addr = self.alloc_ref();
        Ok(NodeToken::deploy(addr, person, name, descriptor))
    }

    /// Adds `person` to the collective: captures the current join fee from
    /// their balance of the payment asset into the treasury, appends the new
    /// member record, and persists both. Nothing moves or is recorded when
    /// any check fails.
    pub fn join(&mut self, pay: &mut AssetContract, person: u64) -> (r: Result<
        Member,
        ContractError,
    >)
        requires
            old(self).wf(),
            old(pay)@.wf(),
            old(pay)@.address == old(self).pay_token_spec(),
            old(pay)@.bal(old(self).contract_address()) + old(self).fee_spec() <= i128::MAX,
        ensures
            final(self).wf(),
            final(pay)@.wf(),
            final(pay)@.address == old(pay)@.address,
            old(self).has_member(person) ==> r == Err::<Member, ContractError>(
                ContractError::AlreadyMember,
            ) && *final(self) == *old(self) && *final(pay) == *old(pay),
            !old(self).has_member(person) && old(pay)@.bal(person) < old(self).fee_spec() ==> r
                == Err::<Member, ContractError>(ContractError::InsufficientFunds) && *final(self)
                == *old(self) && *final(pay) == *old(pay),
            !old(self).has_member(person) && old(pay)@.bal(person) >= old(self).fee_spec() ==> ({
                &&& r == Ok::<Member, ContractError>(old(self).joined_member(person))
                &&& final(self).members_seq() == old(self).members_seq().push(
                    old(self).joined_member(person),
                )
                &&& final(self).has_member(person)
                &&& final(self).member_paid_spec(person) == old(self).fee_spec()
                &&& final(self).fee_spec() == old(self).fee_spec()
                &&& old(self).config_unchanged(*final(self))
                &&& old(self).opus_unchanged(*final(self))
                &&& person != old(self).contract_address() ==> final(pay)@.bal(person) == old(
                    pay,
                )@.bal(person) - old(self).fee_spec()
                &&& person != old(self).contract_address() ==> final(pay)@.bal(
                    old(self).contract_address(),
                ) == old(pay)@.bal(old(self).contract_address()) + old(self).fee_spec()
                &&& person == old(self).contract_address() ==> final(pay)@ == old(pay)@
                &&& forall|a: u64|
                    a != person && a != old(self).contract_address() ==> final(pay)@.bal(a) == old(
                        pay,
                    )@.bal(a)
            }),
    {
        if self.is_member(person) {
            return Err(ContractError::AlreadyMember);
        }
        let mut collective = self.read_collective();
        let fee = collective.fee;
        let balance = pay.balance(person);
        if balance < fee as i128 {
            return Err(ContractError::InsufficientFunds);
        }
        pay.transfer(person, self.contract_id, fee as i128);
        let member = Member { address: person, paid: fee };
        collective.members.push(member);
        let ghost c2 = collective@;
        let _ = storage_p(
            &mut self.store,
            Val::Entry(member),
            Kind::Permanent,
            Datakey::Member(person),
        );
        let _ = storage_p(
            &mut self.store,
            Val::Record(collective),
            Kind::Permanent,
            Datakey::Collective,
        );
        proof {
            let pre = *old(self);
            assert(self.durable() == pre.durable().insert(
                Datakey::Member(person),
                ValView::Entry(member),
            ).insert(Datakey::Collective, ValView::Record(c2)));
            assert(self.members_seq() == pre.members_seq().push(member));
            lemma_unique_push(pre.members_seq(), member);
            assert forall|i: int| 0 <= i < self.members_seq().len() implies map_get(
                self.durable(),
                Datakey::Member((#[trigger] self.members_seq()[i]).address),
            ) == Some(ValView::Entry(self.members_seq()[i])) by {
                if i < pre.members_seq().len() {
                    assert(self.members_seq()[i] == pre.members_seq()[i]);
                    assert(map_get(pre.durable(), Datakey::Member(pre.members_seq()[i].address))
                        == Some(ValView::Entry(pre.members_seq()[i])));
                    assert(pre.members_seq()[i].address != person);
                } else {
                    assert(self.members_seq()[i] == member);
                }
            }
            assert forall|a: u64| (#[trigger] self.durable().contains_key(
                Datakey::Member(a),
            )) implies self.has_member(a) by {
                if a == person {
                    assert(self.members_seq()[pre.members_seq().len() as int].address == person);
                } else {
                    assert(pre.durable().contains_key(Datakey::Member(a)));
                    let w = choose|w: int|
                        0 <= w < pre.members_seq().len() && (#[trigger] pre.members_seq()[w]).address
                            == a;
                    assert(self.members_seq()[w].address == a);
                }
            }
            // the new entry is the member the fee was recorded for
            let k = self.member_index(person);
            assert(self.members_seq()[pre.members_seq().len() as int].address == person);
            if k != pre.members_seq().len() as int {
                assert(false);
            }
        }
        Ok(member)
    }

    /// The position of `person` in the member list, if present.
    fn member_position(&self, person: u64) -> (r: Option<usize>)
        requires
            self.wf(),
        ensures
            match r {
                Some(i) => i < self.members_seq().len() && self.members_seq()[i as int].address
                    == person,
                None => !self.has_member(person),
            },
    {
        let collective = self.read_collective();
        let n = collective.members.len();
        let mut i: usize = 0;
        while i < n
            invariant
                self.wf(),
                n == collective.members.len(),
                i <= n,
                collective.members@ == self.members_seq(),
                forall|j: int| 0 <= j < i ==> (#[trigger] collective.members@[j]).address != person,
            decreases n - i,
        {
            if collective.members[i].address == person {
                return Some(i);
            }
            i += 1;
        }
        proof {
            if self.has_member(person) {
                let w = choose|w: int|
                    0 <= w < self.members_seq().len() && (#[trigger] self.members_seq()[w]).address
                        == person;
                assert(collective.members@[w].address != person);
            }
        }
        None
    }

    /// Removes member `person`, admin only: deletes the member record and
    /// persists the shortened list. Every other member — and what they are
    /// recorded as having paid — is untouched.
    pub fn remove(&mut self, caller: u64, person: u64) -> (r: Result<bool, ContractError>)
        requires
            old(self).wf(),
        ensures
            final(self).wf(),
            caller != old(self).admin_spec() ==> r == Err::<bool, ContractError>(
                ContractError::Unauthorized,
            ) && *final(self) == *old(self),
            caller == old(self).admin_spec() && !old(self).has_member(person) ==> r == Err::<
                bool,
                ContractError,
            >(ContractError::NotFound) && *final(self) == *old(self),
            caller == old(self).admin_spec() && old(self).has_member(person) ==> ({
                &&& r == Ok::<bool, ContractError>(true)
                &&& final(self).members_seq() == old(self).members_seq().remove(
                    old(self).member_index(person),
                )
                &&& final(self).members_seq().len() == old(self).members_seq().len() - 1
                &&& !final(self).has_member(person)
                &&& final(self).fee_spec() == old(self).fee_spec()
                &&& old(self).config_unchanged(*final(self))
                &&& old(self).opus_unchanged(*final(self))
                &&& forall|a: u64|
                    a != person && old(self).has_member(a) ==> (#[trigger] final(self).has_member(
                        a,
                    )) && final(self).member_paid_spec(a) == old(self).member_paid_spec(a)
            }),
    {
        let admin = self.read_admin();
        if caller != admin {
            return Err(ContractError::Unauthorized);
        }
        let pos = match self.member_position(person) {
            Some(i) => i,
            None => {
                return Err(ContractError::NotFound);
            },
        };
        let mut collective = self.read_collective();
        let _removed = collective.members.remove(pos);
        let ghost c2 = collective@;
        storage_d(&mut self.store, Kind::Permanent, Datakey::Member(person));
        let _ = storage_p(
            &mut self.store,
            Val::Record(collective),
            Kind::Permanent,
            Datakey::Collective,
        );
        proof {
            let pre = *old(self);
            let k = pos as int;
            pre.members_seq().remove_ensures(k);
            assert(self.durable() == pre.durable().remove(Datakey::Member(person)).insert(
                Datakey::Collective,
                ValView::Record(c2),
            ));
            assert(self.members_seq() == pre.members_seq().remove(k));
            lemma_unique_remove(pre.members_seq(), k);
            // the position found is the member's unique index
            let ki = pre.member_index(person);
            assert(pre.members_seq()[ki].address == person);
            if ki != k {
                assert(false);
            }
            // each remaining member keeps a matching durable record
            assert forall|i: int| 0 <= i < self.members_seq().len() implies map_get(
                self.durable(),
                Datakey::Member((#[trigger] self.members_seq()[i]).address),
            ) == Some(ValView::Entry(self.members_seq()[i])) by {
                let orig: int = if i < k {
                    i
                } else {
                    i + 1
                };
                assert(self.members_seq()[i] == pre.members_seq()[orig]);
                assert(map_get(pre.durable(), Datakey::Member(pre.members_seq()[orig].address))
                    == Some(ValView::Entry(pre.members_seq()[orig])));
                assert(pre.members_seq()[orig].address != person);
            }
            // no stray member record remains
            assert forall|a: u64| (#[trigger] self.durable().contains_key(
                Datakey::Member(a),
            )) implies self.has_member(a) by {
                assert(pre.durable().contains_key(Datakey::Member(a)));
                let w = choose|w: int|
                    0 <= w < pre.members_seq().len() && (#[trigger] pre.members_seq()[w]).address
                        == a;
                assert(pre.members_seq()[w].address == a);
                assert(w != k);
                let w2: int = if w < k {
                    w
                } else {
                    w - 1
                };
                assert(self.members_seq()[w2] == pre.members_seq()[w]);
            }
            // the removed member is gone
            if self.has_member(person) {
                let w = choose|w: int|
                    0 <= w < self.members_seq().len() && (#[trigger] self.members_seq()[w]).address
                        == person;
                let orig: int = if w < k {
                    w
                } else {
                    w + 1
                };
                assert(self.members_seq()[w] == pre.members_seq()[orig]);
                assert(false);
            }
            // every other member keeps their recorded payment
            assert forall|a: u64| a != person && pre.has_member(a) implies (
            #[trigger] self.has_member(a)) && self.member_paid_spec(a) == pre.member_paid_spec(
                a,
            ) by {
                let w = pre.member_index(a);
                assert(pre.members_seq()[w].address == a);
                assert(w != k);
                let w2: int = if w < k {
                    w
                } else {
                    w - 1
                };
                assert(self.members_seq()[w2] == pre.members_seq()[w]);
                assert(self.has_member(a));
                let k2 = self.member_index(a);
                assert(self.members_seq()[k2].address == a);
                if k2 != w2 {
                    assert(false);
                }
            }
        }
        Ok(true)
    }

    /// Creates an IPFS file token for member `person` through the file-token
    /// factory: charges the mint fee from the member into the treasury,
    /// instantiates the token with the supplied metadata and the ledger
    /// clock reading `now`, and rewards the member with exactly the mint fee
    /// in the reward asset. Members only, and only once the reward network
    /// is up; nothing moves when any check fails.
    pub fn deploy_ipfs_token(
        &mut self,
        pay: &mut AssetContract,
        person: u64,
        name: String,
        ipfs_hash: String,
        file_type: String,
        gateways: String,
        ipns_hash: Option<String>,
        now: u64,
    ) -> (r: Result<IpfsToken, ContractError>)
        requires
            old(self).wf(),
            old(pay)@.wf(),
            old(pay)@.address == old(self).pay_token_spec(),
            old(pay)@.bal(old(self).contract_address()) + old(self).mint_fee_spec() <= i128::MAX,
            old(self).opus_bal(person) + old(self).mint_fee_spec() <= i128::MAX,
        ensures
            final(self).wf(),
            final(pay)@.wf(),
            final(pay)@.address == old(pay)@.address,
            !old(self).has_member(person) ==> r == Err::<IpfsToken, ContractError>(
                ContractError::Unauthorized,
            ) && *final(self) == *old(self) && *final(pay) == *old(pay),
            old(self).has_member(person) && !old(self).launched() ==> r == Err::<
                IpfsToken,
                ContractError,
            >(ContractError::NetworkNotUp) && *final(self) == *old(self) && *final(pay) == *old(
                pay,
            ),
            old(self).has_member(person) && old(self).launched() && old(pay)@.bal(person) < old(
                self,
            ).mint_fee_spec() ==> r == Err::<IpfsToken, ContractError>(
                ContractError::InsufficientFunds,
            ) && *final(self) == *old(self) && *final(pay) == *old(pay),
            old(self).has_member(person) && old(self).launched() && old(pay)@.bal(person) >= old(
                self,
            ).mint_fee_spec() ==> ({
                &&& r matches Ok(t) && t.owner == person && t.name == name && t.symbol@
                    == "HVYMFILE"@ && t.ipfs_hash == ipfs_hash && t.file_type == file_type
                    && t.published == now && t.gateways == gateways && t.ipns_hash == ipns_hash
                &&& final(self).opus_bal(person) == old(self).opus_bal(person) + old(
                    self,
                ).mint_fee_spec()
                &&& forall|a: u64|
                    a != person ==> (#[trigger] final(self).opus_bal(a)) == old(self).opus_bal(a)
                &&& final(self).launched()
                &&& final(self).opus_addr_spec() == old(self).opus_addr_spec()
                &&& final(self).members_seq() == old(self).members_seq()
                &&& final(self).fee_spec() == old(self).fee_spec()
                &&& old(self).config_unchanged(*final(self))
                &&& person != old(self).contract_address() ==> final(pay)@.bal(person) == old(
                    pay,
                )@.bal(person) - old(self).mint_fee_spec()
                &&& person != old(self).contract_address() ==> final(pay)@.bal(
                    old(self).contract_address(),
                ) == old(pay)@.bal(old(self).contract_address()) + old(self).mint_fee_spec()
                &&& person == old(self).contract_address() ==> final(pay)@ == old(pay)@
                &&& forall|a: u64|
                    a != person && a != old(self).contract_address() ==> final(pay)@.bal(a) == old(
                        pay,
                    )@.bal(a)
            }),
    {
        if !self.is_member(person) {
            return Err(ContractError::Unauthorized);
        }
        let up = storage_g(&self.store, Kind::Permanent, Datakey::Opus);
        if up.is_none() {
            return Err(ContractError::NetworkNotUp);
        }
        let mint_fee = self.read_mint_fee();
        let balance = pay.balance(person);
        if balance < mint_fee as i128 {
            return Err(ContractError::InsufficientFunds);
        }
        pay.transfer(person, self.contract_id, mint_fee as i128);
        let addr = self.alloc_ref();
        let token = IpfsToken::deploy(
            addr,
            person,
            name,
            ipfs_hash,
            file_type,
            now,
            gateways,
            ipns_hash,
        );
        match &mut self.opus {
            Some(o) => o.mint(person, mint_fee as i128),
            None => {
                proof {
                    assert(false);
                }
            },
        }
        Ok(token)
    }
}

} // verus!

