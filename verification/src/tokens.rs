//! Models of the asset tokens that the factory collaborators instantiate for
//! members: a node token and an IPFS file token. The collective depends only
//! on the narrow surface modeled here.

use vstd::prelude::*;
use vstd::string::StringExecFns;

use crate::asset::AssetContract;

verus! {

/// A node token, scoped to one owner. Deployment mints exactly one unit to
/// the owner; the token never changes afterwards.
#[derive(Debug)]
pub struct NodeToken {
    pub address: u64,
    pub owner: u64,
    pub name: String,
    pub symbol: String,
    pub descriptor: String,
}

impl NodeToken {
    /// The node-token factory: instantiates a token under reference
    /// `address`, owned by `owner`, with one unit minted to the owner and
    /// the fixed node-token symbol.
    pub fn deploy(address: u64, owner: u64, name: String, descriptor: String) -> (t: NodeToken)
        ensures
            t.address == address,
            t.owner == owner,
            t.name == name,
            t.symbol@ == "HVYMNODE"@,
            t.descriptor == descriptor,
    {
        NodeToken { address, owner, name, symbol: String::from_str("HVYMNODE"), descriptor }
    }

    /// The token's balance: exactly one unit, held by the owner.
    pub fn balance(&self, id: u64) -> (r: i128)
        ensures
            r == if id == self.owner {
                1i128
            } else {
                0i128
            },
    {
        if id == self.owner {
            1
        } else {
            0
        }
    }

    pub fn name(&self) -> (r: &String)
        ensures
            r == &self.name,
    {
        &self.name
    }

    pub fn symbol(&self) -> (r: &String)
        ensures
            r == &self.symbol,
    {
        &self.symbol
    }

    pub fn descriptor(&self) -> (r: &String)
        ensures
            r == &self.descriptor,
    {
        &self.descriptor
    }
}

/// An IPFS file token, scoped to one owner, carrying the file's metadata and
/// a mintable balance ledger.
#[derive(Debug)]
pub struct IpfsToken {
    pub address: u64,
    pub owner: u64,
    pub name: String,
    pub symbol: String,
    pub ipfs_hash: String,
    pub file_type: String,
    pub published: u64,
    pub gateways: String,
    pub ipns_hash: Option<String>,
    pub ledger: AssetContract,
}

impl IpfsToken {
    /// The IPFS-token factory: instantiates a file token under reference
    /// `address`, owned by `owner`, carrying the supplied metadata, with the
    /// fixed file-token symbol and an empty balance ledger.
    pub fn deploy(
        address: u64,
        owner: u64,
        name: String,
        ipfs_hash: String,
        file_type: String,
        published: u64,
        gateways: String,
        ipns_hash: Option<String>,
    ) -> (t: IpfsToken)
        ensures
            t.address == address,
            t.owner == owner,
            t.name == name,
            t.symbol@ == "HVYMFILE"@,
            t.ipfs_hash == ipfs_hash,
            t.file_type == file_type,
            t.published == published,
            t.gateways == gateways,
            t.ipns_hash == ipns_hash,
            t.ledger@.wf(),
            forall|a: u64| #[trigger] t.ledger@.bal(a) == 0,
    {
        IpfsToken {
            address,
            owner,
            name,
            symbol: String::from_str("HVYMFILE"),
            ipfs_hash,
            file_type,
            published,
            gateways,
            ipns_hash,
            ledger: AssetContract::new(address),
        }
    }

    /// The balance `id` holds of this token.
    pub fn balance(&self, id: u64) -> (r: i128)
        ensures
            r as int == self.ledger@.bal(id),
    {
        self.ledger.balance(id)
    }

    /// Creates `amount` fresh units of the token and credits them to `to`.
    pub fn mint(&mut self, to: u64, amount: i128)
        requires
            old(self).ledger@.wf(),
            amount >= 0,
            old(self).ledger@.bal(to) + amount <= i128::MAX,
        ensures
            final(self).ledger@.wf(),
            final(self).ledger@.bal(to) == old(self).ledger@.bal(to) + amount,
            forall|a: u64| a != to ==> final(self).ledger@.bal(a) == old(self).ledger@.bal(a),
            final(self).address == old(self).address,
            final(self).owner == old(self).owner,
            final(self).name == old(self).name,
            final(self).symbol == old(self).symbol,
            final(self).ipfs_hash == old(self).ipfs_hash,
            final(self).file_type == old(self).file_type,
            final(self).published == old(self).published,
            final(self).gateways == old(self).gateways,
            final(self).ipns_hash == old(self).ipns_hash,
    {
        self.ledger.mint(to, amount);
    }

    pub fn name(&self) -> (r: &String)
        ensures
            r == &self.name,
    {
        &self.name
    }

    pub fn symbol(&self) -> (r: &String)
        ensures
            r == &self.symbol,
    {
        &self.symbol
    }

    pub fn ipfs_hash(&self) -> (r: &String)
        ensures
            r == &self.ipfs_hash,
    {
        &self.ipfs_hash
    }

    pub fn file_type(&self) -> (r: &String)
        ensures
            r == &self.file_type,
    {
        &self.file_type
    }

    pub fn published(&self) -> (r: u64)
        ensures
            r == self.published,
    {
        self.published
    }

    pub fn gateways(&self) -> (r: &String)
        ensures
            r == &self.gateways,
    {
        &self.gateways
    }

    pub fn ipns_hash(&self) -> (r: &Option<String>)
        ensures
            r == &self.ipns_hash,
    {
        &self.ipns_hash
    }
}

} // verus!
