use foundry_tempo::primitives::{Address, Word};
use foundry_tempo::storage_provider::{
    code_account, resolve_account_info, AnvilStorageProvider, ProviderError,
};

fn addr(lo: u64) -> Address {
    Address { hi: 0, mid: 0, lo }
}

#[test]
fn new_provider_state() {
    let p = AnvilStorageProvider::new(4217, Word::from_u64(1_700_000_000), 7u8);
    assert_eq!(p.chain_id(), 4217);
    assert_eq!(p.timestamp(), Word::from_u64(1_700_000_000));
    assert_eq!(p.gas_used(), 0);
    assert_eq!(p.gas_refunded(), 0);
    assert_eq!(p.spec(), 7u8);
    assert_eq!(p.beneficiary(), Address::zero());
    assert!(!p.is_static());
}

#[test]
fn transient_read_after_write() {
    let mut p = AnvilStorageProvider::new(1, Word::zero(), ());
    let k = Word::from_u64(5);
    assert_eq!(p.tload(addr(1), k).unwrap(), Word::zero());
    assert!(p.tstore(addr(1), k, Word::from_u64(42)).is_ok());
    assert_eq!(p.tload(addr(1), k).unwrap(), Word::from_u64(42));
    assert_eq!(p.tload(addr(2), k).unwrap(), Word::zero());
    assert_eq!(p.tload(addr(1), Word::from_u64(6)).unwrap(), Word::zero());
    p.tstore(addr(1), k, Word::from_u64(43)).unwrap();
    p.tstore(addr(2), k, Word::from_u64(1)).unwrap();
    assert_eq!(p.tload(addr(1), k).unwrap(), Word::from_u64(43));
    assert_eq!(p.tload(addr(2), k).unwrap(), Word::from_u64(1));
}

#[test]
fn deduct_gas_saturates() {
    let mut p = AnvilStorageProvider::new(1, Word::zero(), ());
    assert!(p.deduct_gas(100).is_ok());
    p.deduct_gas(50).unwrap();
    assert_eq!(p.gas_used(), 150);
    p.deduct_gas(u64::MAX).unwrap();
    assert_eq!(p.gas_used(), u64::MAX);
}

#[test]
fn refund_gas_saturates_both_ways() {
    let mut p = AnvilStorageProvider::new(1, Word::zero(), ());
    p.refund_gas(10);
    p.refund_gas(-3);
    assert_eq!(p.gas_refunded(), 7);
    p.refund_gas(i64::MAX);
    assert_eq!(p.gas_refunded(), i64::MAX);
    p.refund_gas(i64::MIN);
    assert_eq!(p.gas_refunded(), -1);
    p.refund_gas(i64::MIN);
    assert_eq!(p.gas_refunded(), i64::MIN);
}

#[test]
fn account_info_found() {
    let r = resolve_account_info(addr(1), Ok(Some(17u32)));
    assert_eq!(r.unwrap(), 17);
}

#[test]
fn account_info_missing_names_address() {
    let admin = Address { hi: 0x5615deb7, mid: 0x98bb3e4dfa0139df, lo: 0xa1b3d433cc23b72f };
    match resolve_account_info::<u32>(admin, Ok(None)) {
        Err(ProviderError::Fatal(m)) => {
            assert_eq!(m, "account '0x5615dEB798BB3E4dFa0139dFa1b3D433Cc23b72f' not found")
        }
        Ok(_) => panic!("expected an error"),
    }
}

#[test]
fn account_info_lookup_error_passes_message() {
    match resolve_account_info::<u32>(addr(1), Err("db closed".to_string())) {
        Err(ProviderError::Fatal(m)) => assert_eq!(m, "db closed"),
        Ok(_) => panic!("expected an error"),
    }
}

fn hex(bytes: &[u8]) -> String {
    bytes.iter().map(|b| format!("{:02x}", b)).collect()
}

#[test]
fn code_account_fields_and_hash() {
    let a = code_account(Vec::new());
    assert_eq!(a.nonce, 1);
    assert_eq!(a.balance, Word::zero());
    assert_eq!(a.code, Some(Vec::new()));
    assert_eq!(
        hex(&a.code_hash),
        "c5d2460186f7233c927e7db2dcc703c0e500b653ca82273b7bfad8045d85a470"
    );
    let b = code_account(vec![0x00]);
    assert_eq!(
        hex(&b.code_hash),
        "bc36789e7a1e281436464229828f817d6612f7b477d66591ff96a9e064bcc98a"
    );
    assert_eq!(b.code, Some(vec![0x00]));
}
