use radix_engine::account::Account;
use radix_engine::engine::{check_resource_leak, validate_module, ImportEntry, ModuleInfo};
use radix_engine::error::{ResourceDefError, RuntimeError};
use radix_engine::nft::Nft;
use radix_engine::resource::{Bucket, BucketError, LockedBucket, ResourceSupply, ResourceType};
use radix_engine::resource_def::ResourceDef;
use radix_engine::types::{Address, AddressKind, Bid, Decimal, Rid};

fn addr(kind: AddressKind, seed: u8) -> Address {
    Address::new(kind, vec![seed; 26])
}

fn units(n: u64) -> Decimal {
    Decimal::from_units(n)
}

fn fungible(def: &Address, granularity: u8, raw: i128) -> Bucket {
    Bucket::new(
        def.duplicate(),
        ResourceType::Fungible { granularity },
        ResourceSupply::Fungible { amount: Decimal(raw) },
    )
}

fn nfts(def: &Address, ids: &[u128]) -> Bucket {
    let entries = ids.iter().map(|id| (*id, Nft::new(vec![1, 2], vec![3]))).collect();
    Bucket::new(def.duplicate(), ResourceType::NonFungible, ResourceSupply::NonFungible { entries })
}

#[test]
fn account_deposit_withdraw_round_trip() {
    let r = addr(AddressKind::ResourceDef, 1);
    let minter = addr(AddressKind::ResourceDef, 9);
    let k = addr(AddressKind::Component, 7);
    let mut def = ResourceDef::new(r.duplicate(), ResourceType::Fungible { granularity: 1 }, Some(minter.duplicate()));
    let bucket = def.mint(units(1000), &Some(minter.duplicate())).unwrap();
    assert_eq!(def.total_supply(), units(1000));
    let mut account = Account::new(k.duplicate());
    account.deposit(bucket).unwrap();
    assert_eq!(account.balance(&r), units(1000));

    let taken = account.withdraw(&vec![k.duplicate()], &vec![], units(400), &r).unwrap();
    assert_eq!(taken.amount(), units(400));
    assert_eq!(account.balance(&r), units(600));
    account.deposit(taken).unwrap();
    assert_eq!(account.balance(&r), units(1000));
    assert_eq!(def.total_supply(), units(1000));
}

#[test]
fn unauthorised_withdraw_leaves_vault() {
    let r = addr(AddressKind::ResourceDef, 1);
    let k = addr(AddressKind::Component, 7);
    let other = addr(AddressKind::Component, 8);
    let mut account = Account::with_bucket(k.duplicate(), fungible(&r, 1, units(1000).0));
    let result = account.withdraw(&vec![other], &vec![], units(400), &r);
    assert!(matches!(result, Err(RuntimeError::UnauthorizedAccess)));
    assert_eq!(account.balance(&r), units(1000));
}

#[test]
fn badge_authorises_withdraw() {
    let r = addr(AddressKind::ResourceDef, 1);
    let k = addr(AddressKind::ResourceDef, 7);
    let mut account = Account::with_bucket(k.duplicate(), fungible(&r, 1, units(10).0));
    let empty_badge = LockedBucket::new(Bid(1), fungible(&k, 1, 0));
    let result = account.withdraw(&vec![], &vec![empty_badge], units(4), &r);
    assert!(matches!(result, Err(RuntimeError::UnauthorizedAccess)));
    let other_badge = LockedBucket::new(Bid(2), fungible(&r, 1, 1));
    let result = account.withdraw(&vec![], &vec![other_badge], units(4), &r);
    assert!(matches!(result, Err(RuntimeError::UnauthorizedAccess)));
    let badge = LockedBucket::new(Bid(3), fungible(&k, 1, 1));
    let taken = account.withdraw(&vec![], &vec![badge], units(4), &r).unwrap();
    assert_eq!(taken.amount(), units(4));
    assert_eq!(account.balance(&r), units(6));
}

#[test]
fn withdraw_of_unknown_resource_fails() {
    let k = addr(AddressKind::Component, 7);
    let mut account = Account::new(k.duplicate());
    let r = addr(AddressKind::ResourceDef, 1);
    let result = account.withdraw(&vec![k], &vec![], units(1), &r);
    assert!(matches!(result, Err(RuntimeError::BucketError(BucketError::InsufficientBalance))));
}

#[test]
fn withdraw_more_than_balance_fails() {
    let r = addr(AddressKind::ResourceDef, 1);
    let k = addr(AddressKind::Component, 7);
    let mut account = Account::with_bucket(k.duplicate(), fungible(&r, 1, units(10).0));
    let result = account.withdraw(&vec![k], &vec![], units(11), &r);
    assert!(matches!(result, Err(RuntimeError::BucketError(BucketError::InsufficientBalance))));
    assert_eq!(account.balance(&r), units(10));
}

#[test]
fn granularity_violation() {
    let r = addr(AddressKind::ResourceDef, 1);
    let mut b = fungible(&r, 3, 1000);
    assert!(matches!(b.take(Decimal(50)), Err(BucketError::GranularityCheckFailed)));
    assert_eq!(b.amount(), Decimal(1000));
    let t = b.take(Decimal(300)).unwrap();
    assert_eq!(t.amount(), Decimal(300));
    assert_eq!(b.amount(), Decimal(700));
}

#[test]
fn invalid_granularity_and_negative_amount() {
    let r = addr(AddressKind::ResourceDef, 1);
    let mut b = fungible(&r, 37, 1000);
    assert!(matches!(b.take(Decimal(1)), Err(BucketError::InvalidGranularity)));
    let mut c = fungible(&r, 1, 1000);
    assert!(matches!(c.take(Decimal(-1)), Err(BucketError::NegativeAmount)));
}

#[test]
fn take_then_put_restores_bucket() {
    let r = addr(AddressKind::ResourceDef, 1);
    let mut b = fungible(&r, 1, 1000);
    let t = b.take(Decimal(400)).unwrap();
    b.put(t).unwrap();
    assert_eq!(b.amount(), Decimal(1000));
    let mut all = fungible(&r, 1, 1000);
    let t = all.take(Decimal(1000)).unwrap();
    assert_eq!(all.amount(), Decimal(0));
    assert_eq!(t.amount(), Decimal(1000));
}

#[test]
fn take_more_than_amount_fails() {
    let r = addr(AddressKind::ResourceDef, 1);
    let mut b = fungible(&r, 1, 1000);
    assert!(matches!(b.take(Decimal(1001)), Err(BucketError::InsufficientBalance)));
    assert_eq!(b.amount(), Decimal(1000));
}

#[test]
fn put_of_other_resource_fails() {
    let r = addr(AddressKind::ResourceDef, 1);
    let s = addr(AddressKind::ResourceDef, 2);
    let mut b = fungible(&r, 1, 1000);
    assert!(matches!(b.put(fungible(&s, 1, 5)), Err(BucketError::MismatchingResourceDef)));
    assert_eq!(b.amount(), Decimal(1000));
}

#[test]
fn nft_take_and_put() {
    let n = addr(AddressKind::ResourceDef, 3);
    let mut b = nfts(&n, &[1, 2, 3]);
    assert_eq!(b.amount(), units(3));
    let t = b.take(units(2)).unwrap();
    assert_eq!(b.amount(), units(1));
    let ids: Vec<u128> = t.entries().unwrap().iter().map(|e| e.0).collect();
    assert_eq!(ids, vec![2, 3]);
    assert!(matches!(b.take(Decimal(1)), Err(BucketError::GranularityCheckFailed)));
    b.put(t).unwrap();
    let ids: Vec<u128> = b.entries().unwrap().iter().map(|e| e.0).collect();
    assert_eq!(ids, vec![1, 2, 3]);
}

#[test]
fn nft_put_rejects_duplicate_id() {
    let n = addr(AddressKind::ResourceDef, 3);
    let mut b = nfts(&n, &[1, 2]);
    assert!(matches!(b.put(nfts(&n, &[2])), Err(BucketError::NftAlreadyExists)));
    assert_eq!(b.amount(), units(2));
    assert!(matches!(b.put(fungible(&n, 19, 0)), Err(BucketError::UnsupportedOperation)));
}

#[test]
fn entries_of_fungible_unsupported() {
    let r = addr(AddressKind::ResourceDef, 1);
    let b = fungible(&r, 1, 1);
    assert!(matches!(b.entries(), Err(BucketError::UnsupportedOperation)));
}

#[test]
fn nft_uniqueness() {
    let n = addr(AddressKind::ResourceDef, 3);
    let minter = addr(AddressKind::ResourceDef, 9);
    let auth = Some(minter.duplicate());
    let mut def = ResourceDef::new(n.duplicate(), ResourceType::NonFungible, Some(minter));
    let first = def.mint_nft(7, Nft::new(vec![1], vec![2]), &auth).unwrap();
    assert_eq!(first.amount(), units(1));
    assert_eq!(def.total_supply(), units(1));
    let second = def.mint_nft(7, Nft::new(vec![1], vec![2]), &auth);
    assert!(matches!(second, Err(RuntimeError::NftAlreadyExists(_, 7))));
    assert_eq!(def.total_supply(), units(1));
}

#[test]
fn mint_needs_badge_and_burn_reduces_supply() {
    let r = addr(AddressKind::ResourceDef, 1);
    let minter = addr(AddressKind::ResourceDef, 9);
    let wrong = addr(AddressKind::ResourceDef, 8);
    let mut def = ResourceDef::new(r.duplicate(), ResourceType::Fungible { granularity: 1 }, Some(minter.duplicate()));
    assert!(matches!(
        def.mint(units(5), &Some(wrong)),
        Err(RuntimeError::ResourceDefError(ResourceDefError::UnauthorizedAccess))
    ));
    assert!(matches!(
        def.mint(units(5), &None),
        Err(RuntimeError::ResourceDefError(ResourceDefError::UnauthorizedAccess))
    ));
    let b = def.mint(units(5), &Some(minter.duplicate())).unwrap();
    assert_eq!(def.total_supply(), units(5));
    def.burn(b, &Some(minter.duplicate())).unwrap();
    assert_eq!(def.total_supply(), Decimal(0));
    let mut fixed = ResourceDef::new(r, ResourceType::Fungible { granularity: 1 }, None);
    assert!(fixed.mint(units(1), &Some(minter)).is_err());
}

#[test]
fn leak_check_fails_on_leftover_bucket() {
    let r = addr(AddressKind::ResourceDef, 1);
    let minter = addr(AddressKind::ResourceDef, 9);
    let mut def = ResourceDef::new(r, ResourceType::Fungible { granularity: 1 }, Some(minter.duplicate()));
    let _bucket = def.mint(units(10), &Some(minter)).unwrap();
    let worktop = vec![Bid(0)];
    assert!(matches!(check_resource_leak(&worktop, &vec![]), Err(RuntimeError::ResourceCheckFailure)));
    assert!(matches!(check_resource_leak(&vec![], &vec![Rid(1)]), Err(RuntimeError::ResourceCheckFailure)));
    assert!(check_resource_leak(&vec![], &vec![]).is_ok());
}

fn module(imports: &[&str]) -> ModuleInfo {
    ModuleInfo {
        has_start: false,
        uses_float: false,
        exports_memory: vec![false, true],
        imports: imports
            .iter()
            .map(|s| ImportEntry { field: s.to_string(), is_function: true })
            .collect(),
    }
}

#[test]
fn module_rejection() {
    let m = module(&["radix_engine", "open_socket"]);
    assert!(matches!(validate_module(&m), Err(RuntimeError::HostFunctionNotFound(1))));
    assert!(validate_module(&module(&["radix_engine"])).is_ok());
    assert!(validate_module(&module(&[])).is_ok());
}

#[test]
fn module_validation_rules() {
    let mut m = module(&["radix_engine"]);
    m.has_start = true;
    m.uses_float = true;
    assert!(matches!(validate_module(&m), Err(RuntimeError::StartFunctionNotAllowed)));
    m.has_start = false;
    assert!(matches!(validate_module(&m), Err(RuntimeError::FloatingPointNotAllowed)));
    m.uses_float = false;
    m.exports_memory = vec![false];
    assert!(matches!(validate_module(&m), Err(RuntimeError::NoValidMemoryExport)));
    m.exports_memory = vec![true, false, true];
    assert!(matches!(validate_module(&m), Err(RuntimeError::NoValidMemoryExport)));
    m.exports_memory = vec![true];
    m.imports.push(ImportEntry { field: "table".to_string(), is_function: false });
    assert!(validate_module(&m).is_ok());
}

#[test]
fn nft_data_and_component_state() {
    let mut nft = Nft::new(vec![1, 2], vec![3]);
    nft.set_mutable_data(vec![9, 9]).unwrap();
    assert_eq!(nft.immutable_data(), vec![1, 2]);
    assert_eq!(nft.mutable_data(), vec![9, 9]);
    let bp = addr(AddressKind::Package, 4);
    let mut c = radix_engine::component::Component::new(bp.duplicate(), "Account".to_string(), vec![1]);
    c.set_state(vec![5, 6]);
    assert_eq!(c.state(), &[5, 6]);
    assert_eq!(c.name(), "Account");
    assert!(c.blueprint() == bp);
}

#[test]
fn locked_bucket_keeps_contents() {
    let r = addr(AddressKind::ResourceDef, 1);
    let locked = LockedBucket::new(Bid(3), fungible(&r, 1, 42));
    assert_eq!(locked.bucket_id(), Bid(3));
    assert_eq!(locked.bucket().amount(), Decimal(42));
    assert!(locked.bucket().resource_def() == r);
    let back: Bucket = locked.into();
    assert_eq!(back.amount(), Decimal(42));
    let again = LockedBucket::new(Bid(4), back).into_bucket();
    assert_eq!(again.amount(), Decimal(42));
}

#[test]
fn take_single_nft() {
    let n = addr(AddressKind::ResourceDef, 3);
    let mut b = nfts(&n, &[4, 7, 9]);
    let t = b.take_nft(7).unwrap();
    let taken: Vec<u128> = t.entries().unwrap().iter().map(|e| e.0).collect();
    assert_eq!(taken, vec![7]);
    let left: Vec<u128> = b.entries().unwrap().iter().map(|e| e.0).collect();
    assert_eq!(left, vec![4, 9]);
    assert!(matches!(b.take_nft(7), Err(BucketError::NftNotFound)));
    assert_eq!(b.amount(), units(2));
    let mut f = fungible(&n, 1, 5);
    assert!(matches!(f.take_nft(1), Err(BucketError::UnsupportedOperation)));
}

#[test]
fn put_of_other_resource_never_adds() {
    let r = addr(AddressKind::ResourceDef, 1);
    let s = addr(AddressKind::ResourceDef, 2);
    let mut b = fungible(&r, 1, i128::MAX);
    assert!(matches!(b.put(fungible(&s, 1, i128::MAX)), Err(BucketError::MismatchingResourceDef)));
    assert_eq!(b.amount(), Decimal(i128::MAX));
}
