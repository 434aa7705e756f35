use radix_engine::error::RuntimeError;
use radix_engine::frame::CallFrame;
use radix_engine::resource::{Bucket, ResourceSupply, ResourceType};
use radix_engine::types::{Address, AddressKind, Bid, Decimal, Rid};

fn bucket(raw: i128) -> Bucket {
    Bucket::new(
        Address::new(AddressKind::ResourceDef, vec![1; 26]),
        ResourceType::Fungible { granularity: 1 },
        ResourceSupply::Fungible { amount: Decimal(raw) },
    )
}

#[test]
fn frame_isolation_and_handoff() {
    let mut caller = CallFrame::new(0);
    let a = caller.create_bucket(bucket(5)).unwrap();
    let b = caller.create_bucket(bucket(7)).unwrap();
    assert_eq!(a, Bid(0));
    assert_eq!(b, Bid(1));

    let mut callee = CallFrame::new(100);
    assert!(matches!(callee.take_bucket(a), Err(RuntimeError::BucketNotFound(Bid(0)))));
    let passed = caller.take_bucket(a).unwrap();
    assert_eq!(passed.amount(), Decimal(5));
    assert!(callee.receive_bucket(a, passed).is_ok());
    assert!(callee.receive_bucket(a, bucket(1)).is_err());
    assert!(matches!(caller.take_bucket(a), Err(RuntimeError::BucketNotFound(Bid(0)))));
    assert_eq!(callee.create_bucket(bucket(2)).unwrap(), Bid(100));

    assert!(matches!(caller.check_leak(), Err(RuntimeError::ResourceCheckFailure)));
    let rest = caller.take_bucket(b).unwrap();
    assert_eq!(rest.amount(), Decimal(7));
    assert!(caller.is_empty());
    assert!(caller.check_leak().is_ok());
}

#[test]
fn frame_ids_run_out() {
    let mut frame = CallFrame::new(u32::MAX);
    assert!(matches!(frame.create_bucket(bucket(1)), Err(RuntimeError::BucketNotReserved)));
    assert!(frame.is_empty());
}

#[test]
fn created_ids_skip_received_ones() {
    let mut frame = CallFrame::new(10);
    assert!(frame.receive_bucket(Bid(10), bucket(1)).is_ok());
    assert!(frame.receive_bucket(Bid(11), bucket(1)).is_ok());
    assert_eq!(frame.create_bucket(bucket(2)).unwrap(), Bid(12));
    assert_eq!(frame.create_bucket(bucket(3)).unwrap(), Bid(13));
}

#[test]
fn frame_refs_count_for_leaks() {
    let mut frame = CallFrame::new(0);
    assert!(frame.receive_ref(Rid(4)));
    assert!(!frame.receive_ref(Rid(4)));
    assert!(matches!(frame.check_leak(), Err(RuntimeError::ResourceCheckFailure)));
    assert!(matches!(frame.take_ref(Rid(5)), Err(RuntimeError::BucketRefNotFound(Rid(5)))));
    assert!(frame.take_ref(Rid(4)).is_ok());
    assert!(frame.is_empty());
    assert!(frame.check_leak().is_ok());
}
