//! The fee-token funding that follows genesis initialization in Tempo mode:
//! each of the four fee tokens mints `u64::MAX` to every test account.
//!
//! The minting itself runs inside the precompile storage context; this
//! module decides which step comes next.

use vstd::prelude::*;

use crate::primitives::{Address, Word};

verus! {

/// The address that sends the genesis initialization.
pub fn sender() -> (a: Address)
    ensures
        a == (Address { hi: 0x1804c8ab, mid: 0x1f12e6bbf3894d40, lo: 0x83f33e07309d1f38 }),
{
    Address { hi: 0x1804c8ab, mid: 0x1f12e6bbf3894d40, lo: 0x83f33e07309d1f38 }
}

/// The admin of the fee tokens, which mints to the test accounts.
pub fn admin() -> (a: Address)
    ensures
        a == (Address { hi: 0x5615deb7, mid: 0x98bb3e4dfa0139df, lo: 0xa1b3d433cc23b72f }),
{
    Address { hi: 0x5615deb7, mid: 0x98bb3e4dfa0139df, lo: 0xa1b3d433cc23b72f }
}

/// Number of fee tokens.
pub const FEE_TOKEN_COUNT: usize = 4;

/// The fee token with index `i`: PathUSD, AlphaUSD, BetaUSD, ThetaUSD at
/// `0x20C0…0000` through `0x20C0…0003`.
pub open spec fn fee_token(i: int) -> Address {
    Address { hi: 0x20c00000, mid: 0, lo: i as u64 }
}

/// The fee token with index `i`.
pub fn fee_token_address(i: usize) -> (a: Address)
    requires
        i < FEE_TOKEN_COUNT,
    ensures
        a == fee_token(i as int),
{
    Address { hi: 0x20c00000, mid: 0, lo: i as u64 }
}

/// The amount minted to each test account: `u64::MAX`.
pub open spec fn mint_amount() -> Word {
    Word { w0: u64::MAX, w1: 0, w2: 0, w3: 0 }
}

/// One step of the fee-token funding.
#[derive(Clone, Copy, Debug, PartialEq, Eq, Structural)]
pub enum MintStep {
    /// Open the fee token at this address for minting.
    OpenToken(Address),
    /// Mint `amount` of the token opened last to `to`, with the admin as
    /// the caller.
    Mint { to: Address, amount: Word },
    /// Funding is complete.
    Done,
}

/// The steps for one token: open it, then mint to each account in order.
pub open spec fn token_steps(token: Address, accounts: Seq<Address>) -> Seq<MintStep> {
    seq![MintStep::OpenToken(token)] + accounts.map_values(
        |a: Address| MintStep::Mint { to: a, amount: mint_amount() },
    )
}

/// All funding steps, token by token in index order.
pub open spec fn genesis_mint_steps(accounts: Seq<Address>) -> Seq<MintStep> {
    token_steps(fee_token(0), accounts) + token_steps(fee_token(1), accounts) + token_steps(
        fee_token(2),
        accounts,
    ) + token_steps(fee_token(3), accounts)
}

/// Step `r` of token `t`'s block sits at `t * (n + 1) + r` of all steps.
pub proof fn lemma_step_position(accounts: Seq<Address>, t: int, r: int)
    requires
        0 <= t < 4,
        0 <= r <= accounts.len(),
    ensures
        genesis_mint_steps(accounts).len() == 4 * (accounts.len() + 1),
        t * (accounts.len() + 1) + r < genesis_mint_steps(accounts).len(),
        genesis_mint_steps(accounts)[t * (accounts.len() + 1) + r] == token_steps(
            fee_token(t),
            accounts,
        )[r],
{
    let n = accounts.len() as int;
    let b0 = token_steps(fee_token(0), accounts);
    let b1 = token_steps(fee_token(1), accounts);
    let b2 = token_steps(fee_token(2), accounts);
    let b3 = token_steps(fee_token(3), accounts);
    assert(b0.len() == n + 1);
    assert(b1.len() == n + 1);
    assert(b2.len() == n + 1);
    assert(b3.len() == n + 1);
    let s01 = b0 + b1;
    let s012 = s01 + b2;
    if t == 0 {
        assert(t * (n + 1) + r == r);
    } else if t == 1 {
        assert(t * (n + 1) + r == n + 1 + r);
    } else if t == 2 {
        assert(t * (n + 1) + r == 2 * (n + 1) + r);
    } else {
        assert(t * (n + 1) + r == 3 * (n + 1) + r);
    }
}

/// Which funding step comes next for a list of test accounts.
pub struct GenesisMintPlan {
    accounts: Vec<Address>,
    token: usize,
    offset: usize,
}

impl GenesisMintPlan {
    #[verifier::type_invariant]
    spec fn inv(self) -> bool {
        &&& self.token <= FEE_TOKEN_COUNT
        &&& self.offset <= self.accounts@.len()
        &&& self.token == FEE_TOKEN_COUNT ==> self.offset == 0
    }

    /// The test accounts being funded.
    pub closed spec fn accounts(&self) -> Seq<Address> {
        self.accounts@
    }

    /// How many steps have been handed out.
    pub closed spec fn position(&self) -> int {
        self.token as int * (self.accounts@.len() + 1) + self.offset as int
    }

    /// A plan for funding `accounts`, at its first step.
    pub fn new(accounts: Vec<Address>) -> (p: GenesisMintPlan)
        ensures
            p.accounts() == accounts@,
            p.position() == 0,
    {
        GenesisMintPlan { accounts, token: 0, offset: 0 }
    }

    /// Hands out the next step: step `position` of `genesis_mint_steps`,
    /// or `Done` once every step has been handed out.
    pub fn next_step(&mut self) -> (s: MintStep)
        ensures
            final(self).accounts() == old(self).accounts(),
            0 <= old(self).position() <= genesis_mint_steps(old(self).accounts()).len(),
            old(self).position() < genesis_mint_steps(old(self).accounts()).len() ==> {
                &&& s == genesis_mint_steps(old(self).accounts())[old(self).position()]
                &&& final(self).position() == old(self).position() + 1
            },
            old(self).position() == genesis_mint_steps(old(self).accounts()).len() ==> {
                &&& s == MintStep::Done
                &&& final(self).position() == old(self).position()
            },
    {
        proof {
            use_type_invariant(&*self);
        }
        let ghost acc = self.accounts@;
        let ghost n = acc.len() as int;
        let ghost t = self.token as int;
        let ghost r = self.offset as int;
        if self.token == FEE_TOKEN_COUNT {
            proof {
                lemma_step_position(acc, 0, 0);
            }
            return MintStep::Done;
        }
        proof {
            lemma_step_position(acc, t, r);
            lemma_step_position(acc, 3, n);
            assert(t * (n + 1) + r >= 0) by (nonlinear_arith)
                requires
                    t >= 0,
                    n >= 0,
                    r >= 0,
            ;
        }
        let step = if self.offset == 0 {
            MintStep::OpenToken(fee_token_address(self.token))
        } else {
            MintStep::Mint { to: self.accounts[self.offset - 1], amount: Word::from_u64(u64::MAX) }
        };
        assert(step == token_steps(fee_token(t), acc)[r]);
        if self.offset == self.accounts.len() {
            self.offset = 0;
            self.token = self.token + 1;
            assert((t + 1) * (n + 1) == t * (n + 1) + n + 1) by (nonlinear_arith);
        } else {
            self.offset = self.offset + 1;
        }
        step
    }
}

/// Funding opens each fee token once (token `t` at address
/// `0x20C0…000t`) and then mints `u64::MAX` of it to every test account, in
/// account order, before the next token is opened; in all, `4 * (n + 1)`
/// steps for `n` accounts.
pub proof fn law_every_account_funded_by_every_token(accounts: Seq<Address>, t: int, j: int)
    requires
        0 <= t < 4,
        0 <= j < accounts.len(),
    ensures
        genesis_mint_steps(accounts).len() == 4 * (accounts.len() + 1),
        fee_token(t)@ == 0x20c0_0000_0000_0000_0000_0000_0000_0000_0000_0000nat + t,
        mint_amount()@ == u64::MAX,
        genesis_mint_steps(accounts)[t * (accounts.len() + 1)] == MintStep::OpenToken(fee_token(t)),
        genesis_mint_steps(accounts)[t * (accounts.len() + 1) + 1 + j] == (MintStep::Mint {
            to: accounts[j],
            amount: mint_amount(),
        }),
        forall|q: int|
            t * (accounts.len() + 1) < q <= t * (accounts.len() + 1) + 1 + j ==> !(
            #[trigger] genesis_mint_steps(accounts)[q] is OpenToken),
{
    let n = accounts.len() as int;
    lemma_step_position(accounts, t, 0);
    lemma_step_position(accounts, t, 1 + j);
    assert forall|q: int|
        t * (n + 1) < q <= t * (n + 1) + 1 + j implies !(
        #[trigger] genesis_mint_steps(accounts)[q] is OpenToken) by {
        let r = q - t * (n + 1);
        lemma_step_position(accounts, t, r);
    }
}

} // verus!
