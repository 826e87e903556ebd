//! Asset identities and amounts.
//!
//! An asset is either a native currency or an external token contract; the
//! host maps denominations and contract addresses to numeric identifiers,
//! and all rules in this crate work over those.

use vstd::prelude::*;

verus! {

/// Identity of an asset: a native currency denomination or an external
/// token contract, each referred to by an identifier the host assigns.
#[derive(Clone, Copy, PartialEq, Eq, Structural, Debug)]
pub enum AssetInfo {
    NativeToken { id: u64 },
    Token { id: u64 },
}

impl AssetInfo {
    /// Whether the asset is a native currency, whose balance is credited
    /// to a pool as soon as it is sent.
    pub fn is_native_token(&self) -> (r: bool)
        ensures
            r <==> self is NativeToken,
    {
        match self {
            AssetInfo::NativeToken { .. } => true,
            AssetInfo::Token { .. } => false,
        }
    }

    /// Whether two asset identities are the same.
    pub fn equal(&self, other: &AssetInfo) -> (r: bool)
        ensures
            r <==> self == other,
    {
        *self == *other
    }
}

/// An asset identity paired with an amount.
#[derive(Clone, Copy, PartialEq, Eq, Structural, Debug)]
pub struct Asset {
    pub info: AssetInfo,
    pub amount: u128,
}

/// A native coin: a denomination and an amount.
#[derive(Clone, Debug)]
pub struct Coin {
    pub denom: String,
    pub amount: u128,
}

/// The amount of the first coin in `coins` whose denomination is `denom`,
/// or zero when none matches.
pub open spec fn amount_of_spec(coins: Seq<Coin>, denom: Seq<char>) -> int
    decreases coins.len(),
{
    if coins.len() == 0 {
        0
    } else if coins[0].denom@ == denom {
        coins[0].amount as int
    } else {
        amount_of_spec(coins.skip(1), denom)
    }
}

proof fn lemma_amount_of_spec_step(coins: Seq<Coin>, denom: Seq<char>, i: int)
    requires
        0 <= i < coins.len(),
        coins[i].denom@ != denom,
    ensures
        amount_of_spec(coins.skip(i), denom) == amount_of_spec(coins.skip(i + 1), denom),
{
    assert(coins.skip(i)[0] == coins[i]);
    assert(coins.skip(i).skip(1) =~= coins.skip(i + 1));
}

/// The amount held in `coins` under the denomination `denom`, or zero when
/// the denomination is absent.
pub fn amount_of(coins: &Vec<Coin>, denom: String) -> (r: u128)
    ensures
        r == amount_of_spec(coins@, denom@),
{
    let n = coins.len();
    let mut i: usize = 0;
    proof {
        assert(coins@.skip(0) =~= coins@);
    }
    while i < n
        invariant
            0 <= i <= n,
            n == coins@.len(),
            amount_of_spec(coins@, denom@) == amount_of_spec(coins@.skip(i as int), denom@),
        decreases n - i,
    {
        if coins[i].denom == denom {
            proof {
                assert(coins@.skip(i as int)[0] == coins@[i as int]);
            }
            return coins[i].amount;
        }
        proof {
            lemma_amount_of_spec_step(coins@, denom@, i as int);
        }
        i += 1;
    }
    proof {
        assert(coins@.skip(n as int) =~= Seq::<Coin>::empty());
    }
    0
}

} // verus!
