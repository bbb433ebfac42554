use foundry_tempo::genesis::{admin, fee_token_address, sender, GenesisMintPlan, MintStep};
use foundry_tempo::primitives::{Address, Word};

#[test]
fn genesis_addresses() {
    assert_eq!(sender(), Address { hi: 0x1804c8ab, mid: 0x1f12e6bbf3894d40, lo: 0x83f33e07309d1f38 });
    assert_eq!(admin(), Address { hi: 0x5615deb7, mid: 0x98bb3e4dfa0139df, lo: 0xa1b3d433cc23b72f });
    for i in 0..4usize {
        assert_eq!(fee_token_address(i), Address { hi: 0x20c00000, mid: 0, lo: i as u64 });
    }
}

#[test]
fn plan_for_two_accounts() {
    let a = Address { hi: 1, mid: 0, lo: 0 };
    let b = Address { hi: 2, mid: 0, lo: 0 };
    let mut plan = GenesisMintPlan::new(vec![a, b]);
    let max = Word::from_u64(u64::MAX);
    for t in 0..4usize {
        assert_eq!(plan.next_step(), MintStep::OpenToken(fee_token_address(t)));
        assert_eq!(plan.next_step(), MintStep::Mint { to: a, amount: max });
        assert_eq!(plan.next_step(), MintStep::Mint { to: b, amount: max });
    }
    assert_eq!(plan.next_step(), MintStep::Done);
    assert_eq!(plan.next_step(), MintStep::Done);
}

#[test]
fn plan_without_accounts_opens_each_token() {
    let mut plan = GenesisMintPlan::new(Vec::new());
    for t in 0..4usize {
        assert_eq!(plan.next_step(), MintStep::OpenToken(fee_token_address(t)));
    }
    assert_eq!(plan.next_step(), MintStep::Done);
}
