//! The collective's behavior, exercised end to end: membership, treasury,
//! reward-network bootstrap, and token deployment.

use hvym_collective::asset::AssetContract;
use hvym_collective::collective::{CollectiveContract, ContractError};

#[test]
fn test_member_creation() {
    let admin: u64 = 1;
    let issuer: u64 = 2;
    let pay_addr: u64 = 100;
    let contract_id: u64 = 1000;
    let mut pay = AssetContract::new(pay_addr);
    pay.mint(issuer, 10000);

    let mut collective = CollectiveContract::new(admin, 7, 7, pay_addr, contract_id);
    collective.fund_contract(&mut pay, issuer, 500).unwrap();

    let person1: u64 = 11;
    let person2: u64 = 12;
    let person3: u64 = 13;
    pay.mint(person1, 100);
    pay.mint(person2, 100);
    pay.mint(person3, 50);

    collective.launch_opus(admin, 888).unwrap();

    let a = collective.join(&mut pay, person1).unwrap();
    collective.join(&mut pay, person2).unwrap();

    assert_eq!(collective.symbol(), "HVYM");
    assert_eq!(collective.join_fee(), 7);
    assert_eq!(collective.mint_fee(), 7);
    assert_eq!(pay.balance(admin), 0);
    assert_eq!(a.address, person1);
    assert_eq!(collective.is_member(person1), true);
    assert_eq!(collective.member_paid(person1).unwrap(), 7);
    assert_eq!(collective.withdraw(&mut pay, admin, admin).unwrap(), true);
    assert_eq!(pay.balance(admin), 514);

    collective.join(&mut pay, person3).unwrap();
    assert_eq!(collective.is_member(person3), true);
    assert_eq!(collective.remove(admin, person3).unwrap(), true);
    assert_eq!(collective.is_member(person3), false);

    assert_eq!(collective.update_join_fee(admin, 21).unwrap(), 21);
    assert_eq!(collective.join_fee(), 21);
}

#[test]
fn test_node_creation() {
    let admin: u64 = 1;
    let pay_addr: u64 = 100;
    let contract_id: u64 = 1000;
    let mut pay = AssetContract::new(pay_addr);
    let mut collective = CollectiveContract::new(admin, 7, 7, pay_addr, contract_id);

    let name = String::from("name");
    let symbol = String::from("HVYMNODE");
    let descriptor = String::from("DESCRIPTOR");

    let person1: u64 = 11;
    pay.mint(person1, 100);
    collective.join(&mut pay, person1).unwrap();

    let token = collective
        .deploy_node_token(person1, name.clone(), descriptor.clone())
        .unwrap();

    assert_eq!(token.balance(person1), 1);
    assert_eq!(token.name(), &name);
    assert_eq!(token.symbol(), &symbol);
    assert_eq!(token.descriptor(), &descriptor);
}

#[test]
fn test_node_creation_fail() {
    let admin: u64 = 1;
    let pay_addr: u64 = 100;
    let contract_id: u64 = 1000;
    let mut pay = AssetContract::new(pay_addr);
    let mut collective = CollectiveContract::new(admin, 7, 7, pay_addr, contract_id);

    let name = String::from("name");
    let descriptor = String::from("DESCRIPTOR");

    let person1: u64 = 11;
    pay.mint(person1, 100);

    let r = collective.deploy_node_token(person1, name, descriptor);
    assert_eq!(r.unwrap_err(), ContractError::Unauthorized);
}

#[test]
fn test_ipfs_token_creation() {
    let admin: u64 = 1;
    let issuer: u64 = 2;
    let pay_addr: u64 = 100;
    let contract_id: u64 = 1000;
    let mut pay = AssetContract::new(pay_addr);
    pay.mint(issuer, 1000);

    let mut collective = CollectiveContract::new(admin, 7, 7, pay_addr, contract_id);
    collective.fund_contract(&mut pay, issuer, 500).unwrap();
    collective.launch_opus(admin, 888).unwrap();

    let name = String::from("name");
    let symbol = String::from("HVYMFILE");
    let ipfs_hash = String::from("IPFS_HASH");
    let file_type = String::from("FILE_TYPE");
    let published: u64 = 0;
    let gateways = String::from("GATEWAYS");
    let ipns_hash: Option<String> = None;

    let person1: u64 = 11;
    pay.mint(person1, 100);
    collective.join(&mut pay, person1).unwrap();

    let mut token = collective
        .deploy_ipfs_token(
            &mut pay,
            person1,
            name.clone(),
            ipfs_hash.clone(),
            file_type.clone(),
            gateways.clone(),
            ipns_hash.clone(),
            published,
        )
        .unwrap();

    token.mint(person1, 1000);
    assert_eq!(token.name(), &name);
    assert_eq!(token.symbol(), &symbol);
    assert_eq!(token.ipfs_hash(), &ipfs_hash);
    assert_eq!(token.file_type(), &file_type);
    assert_eq!(token.published(), published);
    assert_eq!(token.gateways(), &gateways);
    assert_eq!(token.ipns_hash(), &ipns_hash);
    assert_eq!(collective.opus_balance(person1).unwrap(), 7);
}

#[test]
fn test_ipfs_token_creation_fail_no_network() {
    let admin: u64 = 1;
    let issuer: u64 = 2;
    let pay_addr: u64 = 100;
    let contract_id: u64 = 1000;
    let mut pay = AssetContract::new(pay_addr);
    pay.mint(issuer, 1000);

    let mut collective = CollectiveContract::new(admin, 7, 7, pay_addr, contract_id);
    collective.fund_contract(&mut pay, issuer, 500).unwrap();

    let name = String::from("name");
    let ipfs_hash = String::from("IPFS_HASH");
    let file_type = String::from("FILE_TYPE");
    let gateways = String::from("GATEWAYS");
    let ipns_hash: Option<String> = None;

    let person1: u64 = 11;
    pay.mint(person1, 100);
    collective.join(&mut pay, person1).unwrap();

    let r = collective.deploy_ipfs_token(
        &mut pay, person1, name, ipfs_hash, file_type, gateways, ipns_hash, 0,
    );
    assert_eq!(r.unwrap_err(), ContractError::NetworkNotUp);
}

#[test]
fn test_fail_launch_twice() {
    let admin: u64 = 1;
    let issuer: u64 = 2;
    let pay_addr: u64 = 100;
    let contract_id: u64 = 1000;
    let mut pay = AssetContract::new(pay_addr);
    pay.mint(issuer, 1000);

    let mut collective = CollectiveContract::new(admin, 7, 7, pay_addr, contract_id);
    collective.fund_contract(&mut pay, issuer, 500).unwrap();
    collective.launch_opus(admin, 888).unwrap();
    let r = collective.launch_opus(admin, 888);
    assert_eq!(r.unwrap_err(), ContractError::AlreadyLaunched);
}

#[test]
fn test_ipfs_token_creation_fail_no_fee() {
    let admin: u64 = 1;
    let issuer: u64 = 2;
    let pay_addr: u64 = 100;
    let contract_id: u64 = 1000;
    let mut pay = AssetContract::new(pay_addr);
    pay.mint(issuer, 1000);

    let mut collective = CollectiveContract::new(admin, 7, 7, pay_addr, contract_id);
    collective.fund_contract(&mut pay, issuer, 500).unwrap();
    collective.launch_opus(admin, 888).unwrap();

    let name = String::from("name");
    let ipfs_hash = String::from("IPFS_HASH");
    let file_type = String::from("FILE_TYPE");
    let gateways = String::from("GATEWAYS");
    let ipns_hash: Option<String> = None;

    let person1: u64 = 11;
    pay.mint(person1, 7);
    assert_eq!(pay.balance(person1), 7);
    collective.join(&mut pay, person1).unwrap();
    assert_eq!(pay.balance(person1), 0);

    let r = collective.deploy_ipfs_token(
        &mut pay, person1, name, ipfs_hash, file_type, gateways, ipns_hash, 0,
    );
    assert_eq!(r.unwrap_err(), ContractError::InsufficientFunds);
}

#[test]
fn test_ipfs_token_creation_fail_unauthorized() {
    let admin: u64 = 1;
    let issuer: u64 = 2;
    let pay_addr: u64 = 100;
    let contract_id: u64 = 1000;
    let mut pay = AssetContract::new(pay_addr);
    pay.mint(issuer, 1000);

    let mut collective = CollectiveContract::new(admin, 7, 7, pay_addr, contract_id);
    collective.fund_contract(&mut pay, issuer, 500).unwrap();
    collective.launch_opus(admin, 888).unwrap();

    let name = String::from("name");
    let ipfs_hash = String::from("IPFS_HASH");
    let file_type = String::from("FILE_TYPE");
    let gateways = String::from("GATEWAYS");
    let ipns_hash: Option<String> = None;

    let person1: u64 = 11;
    pay.mint(person1, 100);

    let r = collective.deploy_ipfs_token(
        &mut pay, person1, name, ipfs_hash, file_type, gateways, ipns_hash, 0,
    );
    assert_eq!(r.unwrap_err(), ContractError::Unauthorized);
}

#[test]
fn test_member_join_fail() {
    let admin: u64 = 1;
    let pay_addr: u64 = 100;
    let contract_id: u64 = 1000;
    let mut pay = AssetContract::new(pay_addr);
    let mut collective = CollectiveContract::new(admin, 7, 7, pay_addr, contract_id);

    let person1: u64 = 11;
    pay.mint(person1, 5);

    let r = collective.join(&mut pay, person1);
    assert_eq!(r.unwrap_err(), ContractError::InsufficientFunds);
}

#[test]
fn test_member_join_twice_fail() {
    let admin: u64 = 1;
    let pay_addr: u64 = 100;
    let contract_id: u64 = 1000;
    let mut pay = AssetContract::new(pay_addr);
    let mut collective = CollectiveContract::new(admin, 7, 7, pay_addr, contract_id);

    let person1: u64 = 11;
    pay.mint(person1, 10);

    collective.join(&mut pay, person1).unwrap();
    let r = collective.join(&mut pay, person1);
    assert_eq!(r.unwrap_err(), ContractError::AlreadyMember);
}

#[test]
fn test_withdraw_fail() {
    let admin: u64 = 1;
    let pay_addr: u64 = 100;
    let contract_id: u64 = 1000;
    let mut pay = AssetContract::new(pay_addr);
    let collective = CollectiveContract::new(admin, 7, 7, pay_addr, contract_id);

    let r = collective.withdraw(&mut pay, admin, admin);
    assert_eq!(r.unwrap_err(), ContractError::InsufficientTreasury);
}
