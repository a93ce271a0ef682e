//! The events that the bonding-curve program writes to its logs.
use vstd::prelude::*;

use crate::types::pubkey_borsh::Pubkey;

verus! {

/// A trade on a bonding curve.
#[derive(Debug, PartialEq, Eq)]
pub struct TradeEvent {
    pub mint: Pubkey,
    pub sol_amount: u64,
    pub token_amount: u64,
    pub is_buy: bool,
    pub user: Pubkey,
    pub timestamp: i64,
    pub virtual_sol_reserves: u64,
    pub virtual_token_reserves: u64,
    pub real_sol_reserves: u64,
    pub real_token_reserves: u64,
    pub fee_recipient: Pubkey,
    pub fee_basis_points: u64,
    pub fee: u64,
    pub creator: Pubkey,
    pub creator_fee_basis_points: u64,
    pub creator_fee: u64,
    pub track_volume: bool,
    pub total_unclaimed_tokens: u64,
    pub total_claimed_tokens: u64,
    pub current_sol_volume: u64,
    pub last_update_timestamp: i64,
    pub ix_name: String,
}

/// The value of a [`TradeEvent`], with keys as their bytes and text as characters.
pub struct SpecTradeEvent {
    pub mint: Seq<u8>,
    pub sol_amount: u64,
    pub token_amount: u64,
    pub is_buy: bool,
    pub user: Seq<u8>,
    pub timestamp: i64,
    pub virtual_sol_reserves: u64,
    pub virtual_token_reserves: u64,
    pub real_sol_reserves: u64,
    pub real_token_reserves: u64,
    pub fee_recipient: Seq<u8>,
    pub fee_basis_points: u64,
    pub fee: u64,
    pub creator: Seq<u8>,
    pub creator_fee_basis_points: u64,
    pub creator_fee: u64,
    pub track_volume: bool,
    pub total_unclaimed_tokens: u64,
    pub total_claimed_tokens: u64,
    pub current_sol_volume: u64,
    pub last_update_timestamp: i64,
    pub ix_name: Seq<char>,
}

impl View for TradeEvent {
    type V = SpecTradeEvent;

    open spec fn view(&self) -> SpecTradeEvent {
        SpecTradeEvent {
            mint: self.mint@,
            sol_amount: self.sol_amount,
            token_amount: self.token_amount,
            is_buy: self.is_buy,
            user: self.user@,
            timestamp: self.timestamp,
            virtual_sol_reserves: self.virtual_sol_reserves,
            virtual_token_reserves: self.virtual_token_reserves,
            real_sol_reserves: self.real_sol_reserves,
            real_token_reserves: self.real_token_reserves,
            fee_recipient: self.fee_recipient@,
            fee_basis_points: self.fee_basis_points,
            fee: self.fee,
            creator: self.creator@,
            creator_fee_basis_points: self.creator_fee_basis_points,
            creator_fee: self.creator_fee,
            track_volume: self.track_volume,
            total_unclaimed_tokens: self.total_unclaimed_tokens,
            total_claimed_tokens: self.total_claimed_tokens,
            current_sol_volume: self.current_sol_volume,
            last_update_timestamp: self.last_update_timestamp,
            ix_name: self.ix_name@,
        }
    }
}

impl Clone for TradeEvent {
    fn clone(&self) -> (r: Self)
        ensures
            r == *self,
    {
        TradeEvent {
            mint: self.mint,
            sol_amount: self.sol_amount,
            token_amount: self.token_amount,
            is_buy: self.is_buy,
            user: self.user,
            timestamp: self.timestamp,
            virtual_sol_reserves: self.virtual_sol_reserves,
            virtual_token_reserves: self.virtual_token_reserves,
            real_sol_reserves: self.real_sol_reserves,
            real_token_reserves: self.real_token_reserves,
            fee_recipient: self.fee_recipient,
            fee_basis_points: self.fee_basis_points,
            fee: self.fee,
            creator: self.creator,
            creator_fee_basis_points: self.creator_fee_basis_points,
            creator_fee: self.creator_fee,
            track_volume: self.track_volume,
            total_unclaimed_tokens: self.total_unclaimed_tokens,
            total_claimed_tokens: self.total_claimed_tokens,
            current_sol_volume: self.current_sol_volume,
            last_update_timestamp: self.last_update_timestamp,
            ix_name: self.ix_name.clone(),
        }
    }
}

/// A new token and its bonding curve.
#[derive(Debug, PartialEq, Eq)]
pub struct CreateEvent {
    pub name: String,
    pub symbol: String,
    pub uri: String,
    pub mint: Pubkey,
    pub bonding_curve: Pubkey,
    pub user: Pubkey,
    pub creator: Pubkey,
    pub timestamp: i64,
    pub virtual_token_reserves: u64,
    pub virtual_sol_reserves: u64,
    pub real_token_reserves: u64,
    pub token_total_supply: u64,
}

/// The value of a [`CreateEvent`], with keys as their bytes and text as characters.
pub struct SpecCreateEvent {
    pub name: Seq<char>,
    pub symbol: Seq<char>,
    pub uri: Seq<char>,
    pub mint: Seq<u8>,
    pub bonding_curve: Seq<u8>,
    pub user: Seq<u8>,
    pub creator: Seq<u8>,
    pub timestamp: i64,
    pub virtual_token_reserves: u64,
    pub virtual_sol_reserves: u64,
    pub real_token_reserves: u64,
    pub token_total_supply: u64,
}

impl View for CreateEvent {
    type V = SpecCreateEvent;

    open spec fn view(&self) -> SpecCreateEvent {
        SpecCreateEvent {
            name: self.name@,
            symbol: self.symbol@,
            uri: self.uri@,
            mint: self.mint@,
            bonding_curve: self.bonding_curve@,
            user: self.user@,
            creator: self.creator@,
            timestamp: self.timestamp,
            virtual_token_reserves: self.virtual_token_reserves,
            virtual_sol_reserves: self.virtual_sol_reserves,
            real_token_reserves: self.real_token_reserves,
            token_total_supply: self.token_total_supply,
        }
    }
}

impl Clone for CreateEvent {
    fn clone(&self) -> (r: Self)
        ensures
            r == *self,
    {
        CreateEvent {
            name: self.name.clone(),
            symbol: self.symbol.clone(),
            uri: self.uri.clone(),
            mint: self.mint,
            bonding_curve: self.bonding_curve,
            user: self.user,
            creator: self.creator,
            timestamp: self.timestamp,
            virtual_token_reserves: self.virtual_token_reserves,
            virtual_sol_reserves: self.virtual_sol_reserves,
            real_token_reserves: self.real_token_reserves,
            token_total_supply: self.token_total_supply,
        }
    }
}

/// The Metaplex creator of a token was set.
#[derive(Debug, Clone, Copy, PartialEq, Eq)]
pub struct SetMetaplexCreatorEvent {
    pub mint: Pubkey,
    pub bonding_curve: Pubkey,
    pub metadata: Pubkey,
    pub creator: Pubkey,
    pub timestamp: i64,
}

/// The value of a [`SetMetaplexCreatorEvent`], with keys as their bytes and text as characters.
pub struct SpecSetMetaplexCreatorEvent {
    pub mint: Seq<u8>,
    pub bonding_curve: Seq<u8>,
    pub metadata: Seq<u8>,
    pub creator: Seq<u8>,
    pub timestamp: i64,
}

impl View for SetMetaplexCreatorEvent {
    type V = SpecSetMetaplexCreatorEvent;

    open spec fn view(&self) -> SpecSetMetaplexCreatorEvent {
        SpecSetMetaplexCreatorEvent {
            mint: self.mint@,
            bonding_curve: self.bonding_curve@,
            metadata: self.metadata@,
            creator: self.creator@,
            timestamp: self.timestamp,
        }
    }
}

/// A completed bonding curve was migrated to the AMM.
#[derive(Debug, Clone, Copy, PartialEq, Eq)]
pub struct CompletePumpAmmMigrationEvent {
    pub user: Pubkey,
    pub mint: Pubkey,
    pub mint_amount: u64,
    pub sol_amount: u64,
    pub pool_migration_fee: u64,
    pub bonding_curve: Pubkey,
    pub timestamp: i64,
    pub pool: Pubkey,
}

/// The value of a [`CompletePumpAmmMigrationEvent`], with keys as their bytes and text as characters.
pub struct SpecCompletePumpAmmMigrationEvent {
    pub user: Seq<u8>,
    pub mint: Seq<u8>,
    pub mint_amount: u64,
    pub sol_amount: u64,
    pub pool_migration_fee: u64,
    pub bonding_curve: Seq<u8>,
    pub timestamp: i64,
    pub pool: Seq<u8>,
}

impl View for CompletePumpAmmMigrationEvent {
    type V = SpecCompletePumpAmmMigrationEvent;

    open spec fn view(&self) -> SpecCompletePumpAmmMigrationEvent {
        SpecCompletePumpAmmMigrationEvent {
            user: self.user@,
            mint: self.mint@,
            mint_amount: self.mint_amount,
            sol_amount: self.sol_amount,
            pool_migration_fee: self.pool_migration_fee,
            bonding_curve: self.bonding_curve@,
            timestamp: self.timestamp,
            pool: self.pool@,
        }
    }
}

/// A bonding curve was completed.
#[derive(Debug, Clone, Copy, PartialEq, Eq)]
pub struct CompleteEvent {
    pub user: Pubkey,
    pub mint: Pubkey,
    pub bonding_curve: Pubkey,
    pub timestamp: i64,
}

/// The value of a [`CompleteEvent`], with keys as their bytes and text as characters.
pub struct SpecCompleteEvent {
    pub user: Seq<u8>,
    pub mint: Seq<u8>,
    pub bonding_curve: Seq<u8>,
    pub timestamp: i64,
}

impl View for CompleteEvent {
    type V = SpecCompleteEvent;

    open spec fn view(&self) -> SpecCompleteEvent {
        SpecCompleteEvent {
            user: self.user@,
            mint: self.mint@,
            bonding_curve: self.bonding_curve@,
            timestamp: self.timestamp,
        }
    }
}

/// A creator collected their fees.
#[derive(Debug, Clone, Copy, PartialEq, Eq)]
pub struct CollectCreatorFeeEvent {
    pub timestamp: i64,
    pub creator: Pubkey,
    pub creator_fee: u64,
}

/// The value of a [`CollectCreatorFeeEvent`], with keys as their bytes and text as characters.
pub struct SpecCollectCreatorFeeEvent {
    pub timestamp: i64,
    pub creator: Seq<u8>,
    pub creator_fee: u64,
}

impl View for CollectCreatorFeeEvent {
    type V = SpecCollectCreatorFeeEvent;

    open spec fn view(&self) -> SpecCollectCreatorFeeEvent {
        SpecCollectCreatorFeeEvent {
            timestamp: self.timestamp,
            creator: self.creator@,
            creator_fee: self.creator_fee,
        }
    }
}

/// An event of the bonding-curve program.
#[derive(Debug, PartialEq, Eq)]
pub enum PumpEvent {
    Trade(TradeEvent),
    Create(CreateEvent),
    SetMetaplexCreator(SetMetaplexCreatorEvent),
    CompletePumpAmmMigration(CompletePumpAmmMigrationEvent),
    Complete(CompleteEvent),
    CollectCreatorFee(CollectCreatorFeeEvent),
}

/// The value of a [`PumpEvent`].
pub enum SpecPumpEvent {
    Trade(SpecTradeEvent),
    Create(SpecCreateEvent),
    SetMetaplexCreator(SpecSetMetaplexCreatorEvent),
    CompletePumpAmmMigration(SpecCompletePumpAmmMigrationEvent),
    Complete(SpecCompleteEvent),
    CollectCreatorFee(SpecCollectCreatorFeeEvent),
}

impl View for PumpEvent {
    type V = SpecPumpEvent;

    open spec fn view(&self) -> SpecPumpEvent {
        match self {
            PumpEvent::Trade(ev) => SpecPumpEvent::Trade(ev@),
            PumpEvent::Create(ev) => SpecPumpEvent::Create(ev@),
            PumpEvent::SetMetaplexCreator(ev) => SpecPumpEvent::SetMetaplexCreator(ev@),
            PumpEvent::CompletePumpAmmMigration(ev) => SpecPumpEvent::CompletePumpAmmMigration(ev@),
            PumpEvent::Complete(ev) => SpecPumpEvent::Complete(ev@),
            PumpEvent::CollectCreatorFee(ev) => SpecPumpEvent::CollectCreatorFee(ev@),
        }
    }
}

impl Clone for PumpEvent {
    fn clone(&self) -> (r: Self)
        ensures
            r == *self,
    {
        match self {
            PumpEvent::Trade(ev) => PumpEvent::Trade(ev.clone()),
            PumpEvent::Create(ev) => PumpEvent::Create(ev.clone()),
            PumpEvent::SetMetaplexCreator(ev) => PumpEvent::SetMetaplexCreator(*ev),
            PumpEvent::CompletePumpAmmMigration(ev) => PumpEvent::CompletePumpAmmMigration(*ev),
            PumpEvent::Complete(ev) => PumpEvent::Complete(*ev),
            PumpEvent::CollectCreatorFee(ev) => PumpEvent::CollectCreatorFee(*ev),
        }
    }
}

/// Which kind of bonding-curve event a discriminator announced.
#[derive(Debug, Clone, Copy, PartialEq, Eq)]
pub enum PumpEventKind {
    Trade,
    Create,
    SetMetaplexCreator,
    CompletePumpAmmMigration,
    Complete,
    CollectCreatorFee,
}

/// The name of the event type of kind `kind`.
pub open spec fn kind_name(kind: PumpEventKind) -> Seq<char> {
    match kind {
        PumpEventKind::Trade => "TradeEvent"@,
        PumpEventKind::Create => "CreateEvent"@,
        PumpEventKind::SetMetaplexCreator => "SetMetaplexCreatorEvent"@,
        PumpEventKind::CompletePumpAmmMigration => "CompletePumpAmmMigrationEvent"@,
        PumpEventKind::Complete => "CompleteEvent"@,
        PumpEventKind::CollectCreatorFee => "CollectCreatorFeeEvent"@,
    }
}

/// The kind of a decoded event.
pub open spec fn event_kind(ev: SpecPumpEvent) -> PumpEventKind {
    match ev {
        SpecPumpEvent::Trade(_) => PumpEventKind::Trade,
        SpecPumpEvent::Create(_) => PumpEventKind::Create,
        SpecPumpEvent::SetMetaplexCreator(_) => PumpEventKind::SetMetaplexCreator,
        SpecPumpEvent::CompletePumpAmmMigration(_) => PumpEventKind::CompletePumpAmmMigration,
        SpecPumpEvent::Complete(_) => PumpEventKind::Complete,
        SpecPumpEvent::CollectCreatorFee(_) => PumpEventKind::CollectCreatorFee,
    }
}

impl PumpEventKind {
    /// The event type's name.
    pub fn name(&self) -> (r: &'static str)
        ensures
            r@ == kind_name(*self),
    {
        match self {
            PumpEventKind::Trade => "TradeEvent",
            PumpEventKind::Create => "CreateEvent",
            PumpEventKind::SetMetaplexCreator => "SetMetaplexCreatorEvent",
            PumpEventKind::CompletePumpAmmMigration => "CompletePumpAmmMigrationEvent",
            PumpEventKind::Complete => "CompleteEvent",
            PumpEventKind::CollectCreatorFee => "CollectCreatorFeeEvent",
        }
    }
}

} // verus!
