use foundry_tempo::tx_env::FoundryTempoTxEnv;

#[test]
fn new_has_no_enveloped_bytes() {
    let env = FoundryTempoTxEnv::new(5u32);
    assert_eq!(env.inner, 5);
    assert_eq!(env.enveloped_tx, None);
    assert_eq!(env.into_inner(), 5);
}

#[test]
fn with_enveloped_tx_keeps_bytes() {
    let env = FoundryTempoTxEnv::with_enveloped_tx("tx", Some(vec![0xc0, 0x01]));
    assert_eq!(env.enveloped_tx, Some(vec![0xc0, 0x01]));
    assert_eq!(env.into_inner(), "tx");
}

#[test]
fn default_is_empty() {
    let env: FoundryTempoTxEnv<u8> = FoundryTempoTxEnv::default();
    assert_eq!(env.inner, 0);
    assert!(env.enveloped_tx.is_none());
}

#[test]
fn from_and_deref_reach_inner() {
    let env: FoundryTempoTxEnv<u32> = 9u32.into();
    assert_eq!(*env, 9);
    assert!(env.enveloped_tx.is_none());
}
