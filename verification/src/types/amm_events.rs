//! The events that the AMM program writes to its logs.
use vstd::prelude::*;

use crate::types::pubkey_borsh::Pubkey;

verus! {

/// A buy from an AMM pool.
#[derive(Debug, PartialEq, Eq)]
pub struct BuyEvent {
    pub timestamp: i64,
    pub base_amount_out: u64,
    pub max_quote_amount_in: u64,
    pub user_base_token_reserves: u64,
    pub user_quote_token_reserves: u64,
    pub pool_base_token_reserves: u64,
    pub pool_quote_token_reserves: u64,
    pub quote_amount_in: u64,
    pub lp_fee_basis_points: u64,
    pub lp_fee: u64,
    pub protocol_fee_basis_points: u64,
    pub protocol_fee: u64,
    pub quote_amount_in_with_lp_fee: u64,
    pub user_quote_amount_in: u64,
    pub pool: Pubkey,
    pub user: Pubkey,
    pub user_base_token_account: Pubkey,
    pub user_quote_token_account: Pubkey,
    pub protocol_fee_recipient: Pubkey,
    pub protocol_fee_recipient_token_account: Pubkey,
    pub coin_creator: Pubkey,
    pub coin_creator_fee_basis_points: u64,
    pub coin_creator_fee: u64,
    pub track_volume: bool,
    pub total_unclaimed_tokens: u64,
    pub total_claimed_tokens: u64,
    pub current_sol_volume: u64,
    pub last_update_timestamp: i64,
    pub min_base_amount_out: u64,
    pub ix_name: String,
}

/// The value of a [`BuyEvent`], with keys as their bytes and text as characters.
pub struct SpecBuyEvent {
    pub timestamp: i64,
    pub base_amount_out: u64,
    pub max_quote_amount_in: u64,
    pub user_base_token_reserves: u64,
    pub user_quote_token_reserves: u64,
    pub pool_base_token_reserves: u64,
    pub pool_quote_token_reserves: u64,
    pub quote_amount_in: u64,
    pub lp_fee_basis_points: u64,
    pub lp_fee: u64,
    pub protocol_fee_basis_points: u64,
    pub protocol_fee: u64,
    pub quote_amount_in_with_lp_fee: u64,
    pub user_quote_amount_in: u64,
    pub pool: Seq<u8>,
    pub user: Seq<u8>,
    pub user_base_token_account: Seq<u8>,
    pub user_quote_token_account: Seq<u8>,
    pub protocol_fee_recipient: Seq<u8>,
    pub protocol_fee_recipient_token_account: Seq<u8>,
    pub coin_creator: Seq<u8>,
    pub coin_creator_fee_basis_points: u64,
    pub coin_creator_fee: u64,
    pub track_volume: bool,
    pub total_unclaimed_tokens: u64,
    pub total_claimed_tokens: u64,
    pub current_sol_volume: u64,
    pub last_update_timestamp: i64,
    pub min_base_amount_out: u64,
    pub ix_name: Seq<char>,
}

impl View for BuyEvent {
    type V = SpecBuyEvent;

    open spec fn view(&self) -> SpecBuyEvent {
        SpecBuyEvent {
            timestamp: self.timestamp,
            base_amount_out: self.base_amount_out,
            max_quote_amount_in: self.max_quote_amount_in,
            user_base_token_reserves: self.user_base_token_reserves,
            user_quote_token_reserves: self.user_quote_token_reserves,
            pool_base_token_reserves: self.pool_base_token_reserves,
            pool_quote_token_reserves: self.pool_quote_token_reserves,
            quote_amount_in: self.quote_amount_in,
            lp_fee_basis_points: self.lp_fee_basis_points,
            lp_fee: self.lp_fee,
            protocol_fee_basis_points: self.protocol_fee_basis_points,
            protocol_fee: self.protocol_fee,
            quote_amount_in_with_lp_fee: self.quote_amount_in_with_lp_fee,
            user_quote_amount_in: self.user_quote_amount_in,
            pool: self.pool@,
            user: self.user@,
            user_base_token_account: self.user_base_token_account@,
            user_quote_token_account: self.user_quote_token_account@,
            protocol_fee_recipient: self.protocol_fee_recipient@,
            protocol_fee_recipient_token_account: self.protocol_fee_recipient_token_account@,
            coin_creator: self.coin_creator@,
            coin_creator_fee_basis_points: self.coin_creator_fee_basis_points,
            coin_creator_fee: self.coin_creator_fee,
            track_volume: self.track_volume,
            total_unclaimed_tokens: self.total_unclaimed_tokens,
            total_claimed_tokens: self.total_claimed_tokens,
            current_sol_volume: self.current_sol_volume,
            last_update_timestamp: self.last_update_timestamp,
            min_base_amount_out: self.min_base_amount_out,
            ix_name: self.ix_name@,
        }
    }
}

impl Clone for BuyEvent {
    fn clone(&self) -> (r: Self)
        ensures
            r == *self,
    {
        BuyEvent {
            timestamp: self.timestamp,
            base_amount_out: self.base_amount_out,
            max_quote_amount_in: self.max_quote_amount_in,
            user_base_token_reserves: self.user_base_token_reserves,
            user_quote_token_reserves: self.user_quote_token_reserves,
            pool_base_token_reserves: self.pool_base_token_reserves,
            pool_quote_token_reserves: self.pool_quote_token_reserves,
            quote_amount_in: self.quote_amount_in,
            lp_fee_basis_points: self.lp_fee_basis_points,
            lp_fee: self.lp_fee,
            protocol_fee_basis_points: self.protocol_fee_basis_points,
            protocol_fee: self.protocol_fee,
            quote_amount_in_with_lp_fee: self.quote_amount_in_with_lp_fee,
            user_quote_amount_in: self.user_quote_amount_in,
            pool: self.pool,
            user: self.user,
            user_base_token_account: self.user_base_token_account,
            user_quote_token_account: self.user_quote_token_account,
            protocol_fee_recipient: self.protocol_fee_recipient,
            protocol_fee_recipient_token_account: self.protocol_fee_recipient_token_account,
            coin_creator: self.coin_creator,
            coin_creator_fee_basis_points: self.coin_creator_fee_basis_points,
            coin_creator_fee: self.coin_creator_fee,
            track_volume: self.track_volume,
            total_unclaimed_tokens: self.total_unclaimed_tokens,
            total_claimed_tokens: self.total_claimed_tokens,
            current_sol_volume: self.current_sol_volume,
            last_update_timestamp: self.last_update_timestamp,
            min_base_amount_out: self.min_base_amount_out,
            ix_name: self.ix_name.clone(),
        }
    }
}

/// A sell into an AMM pool.
#[derive(Debug, Clone, Copy, PartialEq, Eq)]
pub struct SellEvent {
    pub timestamp: i64,
    pub base_amount_in: u64,
    pub min_quote_amount_out: u64,
    pub user_base_token_reserves: u64,
    pub user_quote_token_reserves: u64,
    pub pool_base_token_reserves: u64,
    pub pool_quote_token_reserves: u64,
    pub quote_amount_out: u64,
    pub lp_fee_basis_points: u64,
    pub lp_fee: u64,
    pub protocol_fee_basis_points: u64,
    pub protocol_fee: u64,
    pub quote_amount_out_without_lp_fee: u64,
    pub user_quote_amount_out: u64,
    pub pool: Pubkey,
    pub user: Pubkey,
    pub user_base_token_account: Pubkey,
    pub user_quote_token_account: Pubkey,
    pub protocol_fee_recipient: Pubkey,
    pub protocol_fee_recipient_token_account: Pubkey,
    pub coin_creator: Pubkey,
    pub coin_creator_fee_basis_points: u64,
    pub coin_creator_fee: u64,
}

/// The value of a [`SellEvent`], with keys as their bytes and text as characters.
pub struct SpecSellEvent {
    pub timestamp: i64,
    pub base_amount_in: u64,
    pub min_quote_amount_out: u64,
    pub user_base_token_reserves: u64,
    pub user_quote_token_reserves: u64,
    pub pool_base_token_reserves: u64,
    pub pool_quote_token_reserves: u64,
    pub quote_amount_out: u64,
    pub lp_fee_basis_points: u64,
    pub lp_fee: u64,
    pub protocol_fee_basis_points: u64,
    pub protocol_fee: u64,
    pub quote_amount_out_without_lp_fee: u64,
    pub user_quote_amount_out: u64,
    pub pool: Seq<u8>,
    pub user: Seq<u8>,
    pub user_base_token_account: Seq<u8>,
    pub user_quote_token_account: Seq<u8>,
    pub protocol_fee_recipient: Seq<u8>,
    pub protocol_fee_recipient_token_account: Seq<u8>,
    pub coin_creator: Seq<u8>,
    pub coin_creator_fee_basis_points: u64,
    pub coin_creator_fee: u64,
}

impl View for SellEvent {
    type V = SpecSellEvent;

    open spec fn view(&self) -> SpecSellEvent {
        SpecSellEvent {
            timestamp: self.timestamp,
            base_amount_in: self.base_amount_in,
            min_quote_amount_out: self.min_quote_amount_out,
            user_base_token_reserves: self.user_base_token_reserves,
            user_quote_token_reserves: self.user_quote_token_reserves,
            pool_base_token_reserves: self.pool_base_token_reserves,
            pool_quote_token_reserves: self.pool_quote_token_reserves,
            quote_amount_out: self.quote_amount_out,
            lp_fee_basis_points: self.lp_fee_basis_points,
            lp_fee: self.lp_fee,
            protocol_fee_basis_points: self.protocol_fee_basis_points,
            protocol_fee: self.protocol_fee,
            quote_amount_out_without_lp_fee: self.quote_amount_out_without_lp_fee,
            user_quote_amount_out: self.user_quote_amount_out,
            pool: self.pool@,
            user: self.user@,
            user_base_token_account: self.user_base_token_account@,
            user_quote_token_account: self.user_quote_token_account@,
            protocol_fee_recipient: self.protocol_fee_recipient@,
            protocol_fee_recipient_token_account: self.protocol_fee_recipient_token_account@,
            coin_creator: self.coin_creator@,
            coin_creator_fee_basis_points: self.coin_creator_fee_basis_points,
            coin_creator_fee: self.coin_creator_fee,
        }
    }
}

/// An event of the AMM program.
#[derive(Debug, PartialEq, Eq)]
pub enum AmmEvent {
    Buy(BuyEvent),
    Sell(SellEvent),
}

/// The value of a [`AmmEvent`].
pub enum SpecAmmEvent {
    Buy(SpecBuyEvent),
    Sell(SpecSellEvent),
}

impl View for AmmEvent {
    type V = SpecAmmEvent;

    open spec fn view(&self) -> SpecAmmEvent {
        match self {
            AmmEvent::Buy(ev) => SpecAmmEvent::Buy(ev@),
            AmmEvent::Sell(ev) => SpecAmmEvent::Sell(ev@),
        }
    }
}

impl Clone for AmmEvent {
    fn clone(&self) -> (r: Self)
        ensures
            r == *self,
    {
        match self {
            AmmEvent::Buy(ev) => AmmEvent::Buy(ev.clone()),
            AmmEvent::Sell(ev) => AmmEvent::Sell(*ev),
        }
    }
}


} // verus!
