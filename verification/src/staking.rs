//! Staking share ledger: a single-asset yield-bearing wrapper token.
//!
//! No local balance state exists — both totals are queried live — so the
//! entry path must net the just-arrived deposit out of the queried total
//! before computing the share ratio; omitting that netting would
//! systematically under-mint.

use crate::error::ContractError;
use crate::pair::Instruction;
use crate::asset::AssetInfo;
use vstd::prelude::*;

verus! {

/// The two token contracts the ledger is wired to.
#[derive(Clone, Copy, PartialEq, Eq, Structural, Debug)]
pub struct Config {
    /// The deposit token.
    pub astro_token_addr: u64,
    /// The share token this ledger mints and burns.
    pub xastro_token_addr: u64,
}

/// A hook carried by a token transfer into the ledger.
#[derive(Clone, Copy, PartialEq, Eq, Structural, Debug)]
pub enum Cw20HookMsg {
    /// Stake the sent deposit tokens for shares.
    Enter,
    /// Redeem the sent shares for deposit tokens.
    Leave,
}

/// How many shares a deposit mints: one for one while the pool or share
/// supply is empty, else pro rata against the pre-deposit total.
pub open spec fn enter_mint_amount(amount: int, net_deposit: int, total_shares: int) -> int {
    if total_shares == 0 || net_deposit == 0 {
        amount
    } else {
        (amount * total_shares) / net_deposit
    }
}

/// What redeeming shares pays out: the pro-rata slice of the deposit
/// pool, rounded down.
pub open spec fn leave_payout_amount(amount: int, total_deposit: int, total_shares: int) -> int {
    (amount * total_deposit) / total_shares
}

/// Handles a token-transfer hook against the ledger.
///
/// `total_deposit` and `total_shares` are the live queried totals; on
/// entry the queried deposit total already includes the just-arrived
/// amount, which is netted out before the ratio.  Either path is open
/// only to the matching token contract.  The share arithmetic runs at the
/// native width, as an overflow error when it does not fit.
pub fn receive_cw20(
    config: &Config,
    info_sender: u64,
    recipient: u64,
    amount: u128,
    total_deposit: u128,
    total_shares: u128,
    msg: Cw20HookMsg,
) -> (r: Result<Vec<Instruction>, ContractError>)
    ensures
        match msg {
            Cw20HookMsg::Enter => {
                &&& info_sender != config.astro_token_addr ==> r == Err::<
                    Vec<Instruction>,
                    ContractError,
                >(ContractError::Unauthorized)
                &&& info_sender == config.astro_token_addr && amount > total_deposit ==> r
                    == Err::<Vec<Instruction>, ContractError>(ContractError::ArithmeticOverflow)
                &&& info_sender == config.astro_token_addr && amount <= total_deposit ==> ({
                    let net = total_deposit - amount;
                    let mint = enter_mint_amount(amount as int, net, total_shares as int);
                    &&& !(total_shares == 0 || net == 0) && amount * total_shares > u128::MAX
                        ==> r == Err::<Vec<Instruction>, ContractError>(
                        ContractError::ArithmeticOverflow,
                    )
                    &&& ((total_shares == 0 || net == 0) || amount * total_shares <= u128::MAX)
                        ==> (r matches Ok(v) && v@ =~= seq![
                        Instruction::Mint {
                            token: config.xastro_token_addr,
                            recipient,
                            amount: mint as u128,
                        },
                    ])
                })
            },
            Cw20HookMsg::Leave => {
                &&& info_sender != config.xastro_token_addr ==> r == Err::<
                    Vec<Instruction>,
                    ContractError,
                >(ContractError::Unauthorized)
                &&& info_sender == config.xastro_token_addr && amount * total_deposit > u128::MAX
                    ==> r == Err::<Vec<Instruction>, ContractError>(
                    ContractError::ArithmeticOverflow,
                )
                &&& info_sender == config.xastro_token_addr && amount * total_deposit <= u128::MAX
                    && total_shares == 0 ==> r == Err::<Vec<Instruction>, ContractError>(
                    ContractError::DivisionByZero,
                )
                &&& info_sender == config.xastro_token_addr && amount * total_deposit <= u128::MAX
                    && total_shares > 0 ==> (r matches Ok(v) && v@ =~= seq![
                    Instruction::Burn { token: config.xastro_token_addr, amount },
                    Instruction::Transfer {
                        info: AssetInfo::Token { id: config.astro_token_addr },
                        recipient,
                        amount: leave_payout_amount(
                            amount as int,
                            total_deposit as int,
                            total_shares as int,
                        ) as u128,
                    },
                ])
            },
        },
{
    match msg {
        Cw20HookMsg::Enter => {
            if info_sender != config.astro_token_addr {
                return Err(ContractError::Unauthorized);
            }
            if amount > total_deposit {
                return Err(ContractError::ArithmeticOverflow);
            }
            let net = total_deposit - amount;
            let mint_amount: u128;
            if total_shares == 0 || net == 0 {
                mint_amount = amount;
            } else {
                let product = crate::wide::mul_u128(amount, total_shares);
                if !product.fits_u128() {
                    return Err(ContractError::ArithmeticOverflow);
                }
                mint_amount = product.to_u128() / net;
            }
            let mut v: Vec<Instruction> = Vec::new();
            v.push(
                Instruction::Mint {
                    token: config.xastro_token_addr,
                    recipient,
                    amount: mint_amount,
                },
            );
            Ok(v)
        },
        Cw20HookMsg::Leave => {
            if info_sender != config.xastro_token_addr {
                return Err(ContractError::Unauthorized);
            }
            let product = crate::wide::mul_u128(amount, total_deposit);
            if !product.fits_u128() {
                return Err(ContractError::ArithmeticOverflow);
            }
            if total_shares == 0 {
                return Err(ContractError::DivisionByZero);
            }
            let payout = product.to_u128() / total_shares;
            let mut v: Vec<Instruction> = Vec::new();
            v.push(Instruction::Burn { token: config.xastro_token_addr, amount });
            v.push(
                Instruction::Transfer {
                    info: AssetInfo::Token { id: config.astro_token_addr },
                    recipient,
                    amount: payout,
                },
            );
            Ok(v)
        },
    }
}

} // verus!
