//! Decoding the events of the bonding-curve program from its log lines.
use vstd::prelude::*;
use vstd::utf8::{
    decode_utf8, encode_utf8, encode_utf8_decode_utf8, encode_utf8_valid_utf8, is_ascii_chars,
    is_ascii_chars_encode_utf8, is_char_boundary, is_char_boundary_iff_not_is_continuation_byte,
    is_char_boundary_start_end_of_seq,
};

use crate::decode::borsh::{
    bool_at, bool_bytes, encodable_string, has_discriminator, i64_at, i64_bytes, is_bool_byte,
    key_at, le_value, lemma_bool_bytes_read, lemma_event_data, lemma_field_bytes_len,
    lemma_i64_bytes_read, lemma_string_bytes_after, lemma_string_bytes_cut,
    lemma_string_bytes_read, lemma_string_read_extend, lemma_u64_bytes_read, lemma_values_extend,
    lemma_values_shift, string_bytes, string_read, u64_at, u64_bytes, BorshFailure, BorshReader,
    SpecBorshFailure,
};
use crate::decode::program_data::{program_data_bytes, program_data_of, program_data_text};
use crate::error::ParseError;
use crate::types::pubkey_borsh::Pubkey;
use crate::types::pump_events::{
    event_kind, CollectCreatorFeeEvent, CompleteEvent, CompletePumpAmmMigrationEvent, CreateEvent,
    PumpEvent, PumpEventKind, SetMetaplexCreatorEvent, SpecCollectCreatorFeeEvent, SpecCompleteEvent,
    SpecCompletePumpAmmMigrationEvent, SpecCreateEvent, SpecPumpEvent, SpecSetMetaplexCreatorEvent,
    SpecTradeEvent, TradeEvent,
};

verus! {

pub const TRADE_EVENT_DISCRIMINATOR: [u8; 8] = [189, 219, 127, 211, 78, 230, 97, 238];

pub const CREATE_EVENT_DISCRIMINATOR: [u8; 8] = [27, 114, 169, 77, 222, 235, 99, 118];

pub const SETMETAPLEX_CREATOR_EVENT_DISCRIMINATOR: [u8; 8] = [142, 203, 6, 32, 127, 105, 191, 162];

pub const COMPLETE_PUMPAMM_MIGRATION_EVENT_DISCRIMINATOR: [u8; 8] = [189, 233, 93, 185, 92, 148, 234, 148];

pub const COMPLETE_EVENT_DISCRIMINATOR: [u8; 8] = [95, 114, 97, 156, 212, 46, 152, 8];

pub const COLLECT_CREATORFEE_EVENT_DISCRIMINATOR: [u8; 8] = [122, 2, 127, 1, 14, 191, 12, 175];

/// What a `TradeEvent` body decodes to and where it ends, or the first failure
/// met when reading it field by field.
pub open spec fn spec_trade_event_decoded(s: Seq<u8>) -> Result<(SpecTradeEvent, int), SpecBorshFailure> {
    if s.len() < 49 {
        Err(SpecBorshFailure::UnexpectedLength)
    } else if !is_bool_byte(s[48]) {
        Err(SpecBorshFailure::InvalidBool(s[48]))
    } else if s.len() < 218 {
        Err(SpecBorshFailure::UnexpectedLength)
    } else if !is_bool_byte(s[217]) {
        Err(SpecBorshFailure::InvalidBool(s[217]))
    } else if s.len() < 250 {
        Err(SpecBorshFailure::UnexpectedLength)
    } else {
        match string_read(s, 250) {
            Err(e) => Err(e),
            Ok((ix_name, p1)) => {
                Ok((
                    SpecTradeEvent {
                        mint: key_at(s, 0),
                        sol_amount: u64_at(s, 32),
                        token_amount: u64_at(s, 40),
                        is_buy: bool_at(s, 48),
                        user: key_at(s, 49),
                        timestamp: i64_at(s, 81),
                        virtual_sol_reserves: u64_at(s, 89),
                        virtual_token_reserves: u64_at(s, 97),
                        real_sol_reserves: u64_at(s, 105),
                        real_token_reserves: u64_at(s, 113),
                        fee_recipient: key_at(s, 121),
                        fee_basis_points: u64_at(s, 153),
                        fee: u64_at(s, 161),
                        creator: key_at(s, 169),
                        creator_fee_basis_points: u64_at(s, 201),
                        creator_fee: u64_at(s, 209),
                        track_volume: bool_at(s, 217),
                        total_unclaimed_tokens: u64_at(s, 218),
                        total_claimed_tokens: u64_at(s, 226),
                        current_sol_volume: u64_at(s, 234),
                        last_update_timestamp: i64_at(s, 242),
                        ix_name,
                    },
                    p1,
                ))
            },
        }
    }
}

/// The [`SpecTradeEvent`] that a Borsh-encoded `TradeEvent` body decodes to.
pub open spec fn spec_trade_event(s: Seq<u8>) -> Option<SpecTradeEvent> {
    match spec_trade_event_decoded(s) {
        Ok((e, _)) => Some(e),
        Err(_) => None,
    }
}

/// Decodes the Borsh body of a `TradeEvent` and the number of bytes it takes;
/// bytes after it are left alone.
pub fn decode_trade_event(payload: &[u8]) -> (r: Result<(TradeEvent, usize), BorshFailure>)
    ensures
        match spec_trade_event_decoded(payload@) {
            Ok((e, end)) => r matches Ok((ev, n)) && ev@ == e && n == end,
            Err(f) => r matches Err(g) && g@ == f,
        },
{
    let mut rd = BorshReader::new(payload);
    let mint = Pubkey(rd.read_key()?);
    let sol_amount = rd.read_u64()?;
    let token_amount = rd.read_u64()?;
    let is_buy = rd.read_bool()?;
    let user = Pubkey(rd.read_key()?);
    let timestamp = rd.read_i64()?;
    let virtual_sol_reserves = rd.read_u64()?;
    let virtual_token_reserves = rd.read_u64()?;
    let real_sol_reserves = rd.read_u64()?;
    let real_token_reserves = rd.read_u64()?;
    let fee_recipient = Pubkey(rd.read_key()?);
    let fee_basis_points = rd.read_u64()?;
    let fee = rd.read_u64()?;
    let creator = Pubkey(rd.read_key()?);
    let creator_fee_basis_points = rd.read_u64()?;
    let creator_fee = rd.read_u64()?;
    let track_volume = rd.read_bool()?;
    let total_unclaimed_tokens = rd.read_u64()?;
    let total_claimed_tokens = rd.read_u64()?;
    let current_sol_volume = rd.read_u64()?;
    let last_update_timestamp = rd.read_i64()?;
    let ix_name = rd.read_string()?;
    Ok((TradeEvent {
        mint,
        sol_amount,
        token_amount,
        is_buy,
        user,
        timestamp,
        virtual_sol_reserves,
        virtual_token_reserves,
        real_sol_reserves,
        real_token_reserves,
        fee_recipient,
        fee_basis_points,
        fee,
        creator,
        creator_fee_basis_points,
        creator_fee,
        track_volume,
        total_unclaimed_tokens,
        total_claimed_tokens,
        current_sol_volume,
        last_update_timestamp,
        ix_name,
    }, rd.pos))
}

/// What a `CreateEvent` body decodes to and where it ends, or the first failure
/// met when reading it field by field.
pub open spec fn spec_create_event_decoded(s: Seq<u8>) -> Result<(SpecCreateEvent, int), SpecBorshFailure> {
    match string_read(s, 0) {
        Err(e) => Err(e),
        Ok((name, p1)) => {
            match string_read(s, p1) {
                Err(e) => Err(e),
                Ok((symbol, p2)) => {
                    match string_read(s, p2) {
                        Err(e) => Err(e),
                        Ok((uri, p3)) => {
                            if s.len() < p3 + 168 {
                                Err(SpecBorshFailure::UnexpectedLength)
                            } else {
                                Ok((
                                    SpecCreateEvent {
                                        name,
                                        symbol,
                                        uri,
                                        mint: key_at(s, p3),
                                        bonding_curve: key_at(s, p3 + 32),
                                        user: key_at(s, p3 + 64),
                                        creator: key_at(s, p3 + 96),
                                        timestamp: i64_at(s, p3 + 128),
                                        virtual_token_reserves: u64_at(s, p3 + 136),
                                        virtual_sol_reserves: u64_at(s, p3 + 144),
                                        real_token_reserves: u64_at(s, p3 + 152),
                                        token_total_supply: u64_at(s, p3 + 160),
                                    },
                                    p3 + 168,
                                ))
                            }
                        },
                    }
                },
            }
        },
    }
}

/// The [`SpecCreateEvent`] that a Borsh-encoded `CreateEvent` body decodes to.
pub open spec fn spec_create_event(s: Seq<u8>) -> Option<SpecCreateEvent> {
    match spec_create_event_decoded(s) {
        Ok((e, _)) => Some(e),
        Err(_) => None,
    }
}

/// Decodes the Borsh body of a `CreateEvent` and the number of bytes it takes;
/// bytes after it are left alone.
pub fn decode_create_event(payload: &[u8]) -> (r: Result<(CreateEvent, usize), BorshFailure>)
    ensures
        match spec_create_event_decoded(payload@) {
            Ok((e, end)) => r matches Ok((ev, n)) && ev@ == e && n == end,
            Err(f) => r matches Err(g) && g@ == f,
        },
{
    let mut rd = BorshReader::new(payload);
    let name = rd.read_string()?;
    let symbol = rd.read_string()?;
    let uri = rd.read_string()?;
    let mint = Pubkey(rd.read_key()?);
    let bonding_curve = Pubkey(rd.read_key()?);
    let user = Pubkey(rd.read_key()?);
    let creator = Pubkey(rd.read_key()?);
    let timestamp = rd.read_i64()?;
    let virtual_token_reserves = rd.read_u64()?;
    let virtual_sol_reserves = rd.read_u64()?;
    let real_token_reserves = rd.read_u64()?;
    let token_total_supply = rd.read_u64()?;
    Ok((CreateEvent {
        name,
        symbol,
        uri,
        mint,
        bonding_curve,
        user,
        creator,
        timestamp,
        virtual_token_reserves,
        virtual_sol_reserves,
        real_token_reserves,
        token_total_supply,
    }, rd.pos))
}

/// What a `SetMetaplexCreatorEvent` body decodes to and where it ends, or the first failure
/// met when reading it field by field.
pub open spec fn spec_set_metaplex_creator_event_decoded(s: Seq<u8>) -> Result<(SpecSetMetaplexCreatorEvent, int), SpecBorshFailure> {
    if s.len() < 136 {
        Err(SpecBorshFailure::UnexpectedLength)
    } else {
        Ok((
            SpecSetMetaplexCreatorEvent {
                mint: key_at(s, 0),
                bonding_curve: key_at(s, 32),
                metadata: key_at(s, 64),
                creator: key_at(s, 96),
                timestamp: i64_at(s, 128),
            },
            136,
        ))
    }
}

/// The [`SpecSetMetaplexCreatorEvent`] that a Borsh-encoded `SetMetaplexCreatorEvent` body decodes to.
pub open spec fn spec_set_metaplex_creator_event(s: Seq<u8>) -> Option<SpecSetMetaplexCreatorEvent> {
    match spec_set_metaplex_creator_event_decoded(s) {
        Ok((e, _)) => Some(e),
        Err(_) => None,
    }
}

/// Decodes the Borsh body of a `SetMetaplexCreatorEvent` and the number of bytes it takes;
/// bytes after it are left alone.
pub fn decode_set_metaplex_creator_event(payload: &[u8]) -> (r: Result<(SetMetaplexCreatorEvent, usize), BorshFailure>)
    ensures
        match spec_set_metaplex_creator_event_decoded(payload@) {
            Ok((e, end)) => r matches Ok((ev, n)) && ev@ == e && n == end,
            Err(f) => r matches Err(g) && g@ == f,
        },
{
    let mut rd = BorshReader::new(payload);
    let mint = Pubkey(rd.read_key()?);
    let bonding_curve = Pubkey(rd.read_key()?);
    let metadata = Pubkey(rd.read_key()?);
    let creator = Pubkey(rd.read_key()?);
    let timestamp = rd.read_i64()?;
    Ok((SetMetaplexCreatorEvent {
        mint,
        bonding_curve,
        metadata,
        creator,
        timestamp,
    }, rd.pos))
}

/// What a `CompletePumpAmmMigrationEvent` body decodes to and where it ends, or the first failure
/// met when reading it field by field.
pub open spec fn spec_complete_pump_amm_migration_event_decoded(s: Seq<u8>) -> Result<(SpecCompletePumpAmmMigrationEvent, int), SpecBorshFailure> {
    if s.len() < 160 {
        Err(SpecBorshFailure::UnexpectedLength)
    } else {
        Ok((
            SpecCompletePumpAmmMigrationEvent {
                user: key_at(s, 0),
                mint: key_at(s, 32),
                mint_amount: u64_at(s, 64),
                sol_amount: u64_at(s, 72),
                pool_migration_fee: u64_at(s, 80),
                bonding_curve: key_at(s, 88),
                timestamp: i64_at(s, 120),
                pool: key_at(s, 128),
            },
            160,
        ))
    }
}

/// The [`SpecCompletePumpAmmMigrationEvent`] that a Borsh-encoded `CompletePumpAmmMigrationEvent` body decodes to.
pub open spec fn spec_complete_pump_amm_migration_event(s: Seq<u8>) -> Option<SpecCompletePumpAmmMigrationEvent> {
    match spec_complete_pump_amm_migration_event_decoded(s) {
        Ok((e, _)) => Some(e),
        Err(_) => None,
    }
}

/// Decodes the Borsh body of a `CompletePumpAmmMigrationEvent` and the number of bytes it takes;
/// bytes after it are left alone.
pub fn decode_complete_pump_amm_migration_event(payload: &[u8]) -> (r: Result<(CompletePumpAmmMigrationEvent, usize), BorshFailure>)
    ensures
        match spec_complete_pump_amm_migration_event_decoded(payload@) {
            Ok((e, end)) => r matches Ok((ev, n)) && ev@ == e && n == end,
            Err(f) => r matches Err(g) && g@ == f,
        },
{
    let mut rd = BorshReader::new(payload);
    let user = Pubkey(rd.read_key()?);
    let mint = Pubkey(rd.read_key()?);
    let mint_amount = rd.read_u64()?;
    let sol_amount = rd.read_u64()?;
    let pool_migration_fee = rd.read_u64()?;
    let bonding_curve = Pubkey(rd.read_key()?);
    let timestamp = rd.read_i64()?;
    let pool = Pubkey(rd.read_key()?);
    Ok((CompletePumpAmmMigrationEvent {
        user,
        mint,
        mint_amount,
        sol_amount,
        pool_migration_fee,
        bonding_curve,
        timestamp,
        pool,
    }, rd.pos))
}

/// What a `CompleteEvent` body decodes to and where it ends, or the first failure
/// met when reading it field by field.
pub open spec fn spec_complete_event_decoded(s: Seq<u8>) -> Result<(SpecCompleteEvent, int), SpecBorshFailure> {
    if s.len() < 104 {
        Err(SpecBorshFailure::UnexpectedLength)
    } else {
        Ok((
            SpecCompleteEvent {
                user: key_at(s, 0),
                mint: key_at(s, 32),
                bonding_curve: key_at(s, 64),
                timestamp: i64_at(s, 96),
            },
            104,
        ))
    }
}

/// The [`SpecCompleteEvent`] that a Borsh-encoded `CompleteEvent` body decodes to.
pub open spec fn spec_complete_event(s: Seq<u8>) -> Option<SpecCompleteEvent> {
    match spec_complete_event_decoded(s) {
        Ok((e, _)) => Some(e),
        Err(_) => None,
    }
}

/// Decodes the Borsh body of a `CompleteEvent` and the number of bytes it takes;
/// bytes after it are left alone.
pub fn decode_complete_event(payload: &[u8]) -> (r: Result<(CompleteEvent, usize), BorshFailure>)
    ensures
        match spec_complete_event_decoded(payload@) {
            Ok((e, end)) => r matches Ok((ev, n)) && ev@ == e && n == end,
            Err(f) => r matches Err(g) && g@ == f,
        },
{
    let mut rd = BorshReader::new(payload);
    let user = Pubkey(rd.read_key()?);
    let mint = Pubkey(rd.read_key()?);
    let bonding_curve = Pubkey(rd.read_key()?);
    let timestamp = rd.read_i64()?;
    Ok((CompleteEvent {
        user,
        mint,
        bonding_curve,
        timestamp,
    }, rd.pos))
}

/// What a `CollectCreatorFeeEvent` body decodes to and where it ends, or the first failure
/// met when reading it field by field.
pub open spec fn spec_collect_creator_fee_event_decoded(s: Seq<u8>) -> Result<(SpecCollectCreatorFeeEvent, int), SpecBorshFailure> {
    if s.len() < 48 {
        Err(SpecBorshFailure::UnexpectedLength)
    } else {
        Ok((
            SpecCollectCreatorFeeEvent {
                timestamp: i64_at(s, 0),
                creator: key_at(s, 8),
                creator_fee: u64_at(s, 40),
            },
            48,
        ))
    }
}

/// The [`SpecCollectCreatorFeeEvent`] that a Borsh-encoded `CollectCreatorFeeEvent` body decodes to.
pub open spec fn spec_collect_creator_fee_event(s: Seq<u8>) -> Option<SpecCollectCreatorFeeEvent> {
    match spec_collect_creator_fee_event_decoded(s) {
        Ok((e, _)) => Some(e),
        Err(_) => None,
    }
}

/// Decodes the Borsh body of a `CollectCreatorFeeEvent` and the number of bytes it takes;
/// bytes after it are left alone.
pub fn decode_collect_creator_fee_event(payload: &[u8]) -> (r: Result<(CollectCreatorFeeEvent, usize), BorshFailure>)
    ensures
        match spec_collect_creator_fee_event_decoded(payload@) {
            Ok((e, end)) => r matches Ok((ev, n)) && ev@ == e && n == end,
            Err(f) => r matches Err(g) && g@ == f,
        },
{
    let mut rd = BorshReader::new(payload);
    let timestamp = rd.read_i64()?;
    let creator = Pubkey(rd.read_key()?);
    let creator_fee = rd.read_u64()?;
    Ok((CollectCreatorFeeEvent {
        timestamp,
        creator,
        creator_fee,
    }, rd.pos))
}

/// The body `body` of an event of kind `kind`, decoded; `Err((kind, f))`
/// where reading it meets the failure `f`.
pub open spec fn spec_pump_event_body(kind: PumpEventKind, body: Seq<u8>) -> Result<
    Option<SpecPumpEvent>,
    (PumpEventKind, SpecBorshFailure),
> {
    match kind {
        PumpEventKind::Trade => match spec_trade_event_decoded(body) {
            Ok((e, _)) => Ok(Some(SpecPumpEvent::Trade(e))),
            Err(f) => Err((kind, f)),
        },
        PumpEventKind::Create => match spec_create_event_decoded(body) {
            Ok((e, _)) => Ok(Some(SpecPumpEvent::Create(e))),
            Err(f) => Err((kind, f)),
        },
        PumpEventKind::SetMetaplexCreator => match spec_set_metaplex_creator_event_decoded(body) {
            Ok((e, _)) => Ok(Some(SpecPumpEvent::SetMetaplexCreator(e))),
            Err(f) => Err((kind, f)),
        },
        PumpEventKind::CompletePumpAmmMigration => match spec_complete_pump_amm_migration_event_decoded(
            body,
        ) {
            Ok((e, _)) => Ok(Some(SpecPumpEvent::CompletePumpAmmMigration(e))),
            Err(f) => Err((kind, f)),
        },
        PumpEventKind::Complete => match spec_complete_event_decoded(body) {
            Ok((e, _)) => Ok(Some(SpecPumpEvent::Complete(e))),
            Err(f) => Err((kind, f)),
        },
        PumpEventKind::CollectCreatorFee => match spec_collect_creator_fee_event_decoded(body) {
            Ok((e, _)) => Ok(Some(SpecPumpEvent::CollectCreatorFee(e))),
            Err(f) => Err((kind, f)),
        },
    }
}

/// The kind of event that the eight-byte discriminator `disc` announces.
pub open spec fn pump_event_kind(disc: Seq<u8>) -> Option<PumpEventKind> {
    if disc == TRADE_EVENT_DISCRIMINATOR@ {
        Some(PumpEventKind::Trade)
    } else if disc == CREATE_EVENT_DISCRIMINATOR@ {
        Some(PumpEventKind::Create)
    } else if disc == SETMETAPLEX_CREATOR_EVENT_DISCRIMINATOR@ {
        Some(PumpEventKind::SetMetaplexCreator)
    } else if disc == COMPLETE_PUMPAMM_MIGRATION_EVENT_DISCRIMINATOR@ {
        Some(PumpEventKind::CompletePumpAmmMigration)
    } else if disc == COMPLETE_EVENT_DISCRIMINATOR@ {
        Some(PumpEventKind::Complete)
    } else if disc == COLLECT_CREATORFEE_EVENT_DISCRIMINATOR@ {
        Some(PumpEventKind::CollectCreatorFee)
    } else {
        None
    }
}

/// The event that decoded event data `bytes` hold: `Ok(None)` for data too
/// short for a discriminator or with an unknown one, `Err((kind, f))` where the
/// discriminator names `kind` but reading the body meets the failure `f`.
pub open spec fn spec_pump_event(bytes: Seq<u8>) -> Result<
    Option<SpecPumpEvent>,
    (PumpEventKind, SpecBorshFailure),
> {
    if bytes.len() < 8 {
        Ok(None)
    } else {
        match pump_event_kind(bytes.take(8)) {
            Some(kind) => spec_pump_event_body(kind, bytes.skip(8)),
            None => Ok(None),
        }
    }
}

/// The Borsh encoding of a `TradeEvent`: its fields in declaration order.
pub open spec fn trade_event_bytes(e: SpecTradeEvent) -> Seq<u8> {
    e.mint + u64_bytes(e.sol_amount) + u64_bytes(e.token_amount) + bool_bytes(e.is_buy) + e.user + i64_bytes(e.timestamp) + u64_bytes(e.virtual_sol_reserves) + u64_bytes(e.virtual_token_reserves) + u64_bytes(e.real_sol_reserves) + u64_bytes(e.real_token_reserves) + e.fee_recipient + u64_bytes(e.fee_basis_points) + u64_bytes(e.fee) + e.creator + u64_bytes(e.creator_fee_basis_points) + u64_bytes(e.creator_fee) + bool_bytes(e.track_volume) + u64_bytes(e.total_unclaimed_tokens) + u64_bytes(e.total_claimed_tokens) + u64_bytes(e.current_sol_volume) + i64_bytes(e.last_update_timestamp) + string_bytes(e.ix_name)
}

/// Decoding the data of a `TradeEvent` (its discriminator, then its Borsh
/// encoding) gives that event back.
#[verifier::rlimit(100)]
#[verifier::spinoff_prover]
pub proof fn lemma_trade_event_round_trip(e: SpecTradeEvent)
    requires
        e.mint.len() == 32,
        e.user.len() == 32,
        e.fee_recipient.len() == 32,
        e.creator.len() == 32,
        encodable_string(e.ix_name),
    ensures
        spec_trade_event_decoded(trade_event_bytes(e)) == Ok::<(SpecTradeEvent, int), SpecBorshFailure>(
            (e, trade_event_bytes(e).len() as int),
        ),
        spec_pump_event(TRADE_EVENT_DISCRIMINATOR@ + trade_event_bytes(e)) == Ok::<
            Option<SpecPumpEvent>,
            (PumpEventKind, SpecBorshFailure),
        >(Some(SpecPumpEvent::Trade(e))),
{
    let b = trade_event_bytes(e);
    lemma_field_bytes_len();
    assert(b.subrange(0, 32) =~= e.mint);
    assert(b.subrange(32, 40) =~= u64_bytes(e.sol_amount));
    lemma_u64_bytes_read(b, 32, e.sol_amount);
    assert(b.subrange(40, 48) =~= u64_bytes(e.token_amount));
    lemma_u64_bytes_read(b, 40, e.token_amount);
    assert(b.subrange(48, 49) =~= bool_bytes(e.is_buy));
    lemma_bool_bytes_read(b, 48, e.is_buy);
    assert(b.subrange(49, 81) =~= e.user);
    assert(b.subrange(81, 89) =~= i64_bytes(e.timestamp));
    lemma_i64_bytes_read(b, 81, e.timestamp);
    assert(b.subrange(89, 97) =~= u64_bytes(e.virtual_sol_reserves));
    lemma_u64_bytes_read(b, 89, e.virtual_sol_reserves);
    assert(b.subrange(97, 105) =~= u64_bytes(e.virtual_token_reserves));
    lemma_u64_bytes_read(b, 97, e.virtual_token_reserves);
    assert(b.subrange(105, 113) =~= u64_bytes(e.real_sol_reserves));
    lemma_u64_bytes_read(b, 105, e.real_sol_reserves);
    assert(b.subrange(113, 121) =~= u64_bytes(e.real_token_reserves));
    lemma_u64_bytes_read(b, 113, e.real_token_reserves);
    assert(b.subrange(121, 153) =~= e.fee_recipient);
    assert(b.subrange(153, 161) =~= u64_bytes(e.fee_basis_points));
    lemma_u64_bytes_read(b, 153, e.fee_basis_points);
    assert(b.subrange(161, 169) =~= u64_bytes(e.fee));
    lemma_u64_bytes_read(b, 161, e.fee);
    assert(b.subrange(169, 201) =~= e.creator);
    assert(b.subrange(201, 209) =~= u64_bytes(e.creator_fee_basis_points));
    lemma_u64_bytes_read(b, 201, e.creator_fee_basis_points);
    assert(b.subrange(209, 217) =~= u64_bytes(e.creator_fee));
    lemma_u64_bytes_read(b, 209, e.creator_fee);
    assert(b.subrange(217, 218) =~= bool_bytes(e.track_volume));
    lemma_bool_bytes_read(b, 217, e.track_volume);
    assert(b.subrange(218, 226) =~= u64_bytes(e.total_unclaimed_tokens));
    lemma_u64_bytes_read(b, 218, e.total_unclaimed_tokens);
    assert(b.subrange(226, 234) =~= u64_bytes(e.total_claimed_tokens));
    lemma_u64_bytes_read(b, 226, e.total_claimed_tokens);
    assert(b.subrange(234, 242) =~= u64_bytes(e.current_sol_volume));
    lemma_u64_bytes_read(b, 234, e.current_sol_volume);
    assert(b.subrange(242, 250) =~= i64_bytes(e.last_update_timestamp));
    lemma_i64_bytes_read(b, 242, e.last_update_timestamp);
    let p1: int = 250 + string_bytes(e.ix_name).len() as int;
    assert(b.subrange(250, p1) =~= string_bytes(e.ix_name));
    lemma_string_bytes_read(b, 250, e.ix_name);
    lemma_event_data(TRADE_EVENT_DISCRIMINATOR@, b);
}

/// The Borsh encoding of the fixed-size fields of a `CreateEvent`, which
/// follow its three strings, in declaration order.
pub open spec fn create_event_fixed_bytes(e: SpecCreateEvent) -> Seq<u8> {
    e.mint + e.bonding_curve + e.user + e.creator + i64_bytes(e.timestamp) + u64_bytes(
        e.virtual_token_reserves,
    ) + u64_bytes(e.virtual_sol_reserves) + u64_bytes(e.real_token_reserves) + u64_bytes(
        e.token_total_supply,
    )
}

/// The Borsh encoding of a `CreateEvent`: its fields in declaration order.
pub open spec fn create_event_bytes(e: SpecCreateEvent) -> Seq<u8> {
    string_bytes(e.name) + string_bytes(e.symbol) + string_bytes(e.uri)
        + create_event_fixed_bytes(e)
}

/// Reading the fixed-size part of a `CreateEvent` gives its fields back.
proof fn lemma_create_event_fixed_read(e: SpecCreateEvent)
    requires
        e.mint.len() == 32,
        e.bonding_curve.len() == 32,
        e.user.len() == 32,
        e.creator.len() == 32,
    ensures
        ({
            let f = create_event_fixed_bytes(e);
            &&& f.len() == 168
            &&& key_at(f, 0) == e.mint
            &&& key_at(f, 32) == e.bonding_curve
            &&& key_at(f, 64) == e.user
            &&& key_at(f, 96) == e.creator
            &&& i64_at(f, 128) == e.timestamp
            &&& u64_at(f, 136) == e.virtual_token_reserves
            &&& u64_at(f, 144) == e.virtual_sol_reserves
            &&& u64_at(f, 152) == e.real_token_reserves
            &&& u64_at(f, 160) == e.token_total_supply
        }),
{
    let f = create_event_fixed_bytes(e);
    lemma_field_bytes_len();
    assert(key_at(f, 0) =~= e.mint);
    assert(key_at(f, 32) =~= e.bonding_curve);
    assert(key_at(f, 64) =~= e.user);
    assert(key_at(f, 96) =~= e.creator);
    assert(f.subrange(128, 136) =~= i64_bytes(e.timestamp));
    lemma_i64_bytes_read(f, 128, e.timestamp);
    assert(f.subrange(136, 144) =~= u64_bytes(e.virtual_token_reserves));
    lemma_u64_bytes_read(f, 136, e.virtual_token_reserves);
    assert(f.subrange(144, 152) =~= u64_bytes(e.virtual_sol_reserves));
    lemma_u64_bytes_read(f, 144, e.virtual_sol_reserves);
    assert(f.subrange(152, 160) =~= u64_bytes(e.real_token_reserves));
    lemma_u64_bytes_read(f, 152, e.real_token_reserves);
    assert(f.subrange(160, 168) =~= u64_bytes(e.token_total_supply));
    lemma_u64_bytes_read(f, 160, e.token_total_supply);
}

/// The three strings of an encoded `CreateEvent` read back, and where each
/// ends.
proof fn lemma_create_event_strings_read(e: SpecCreateEvent)
    requires
        encodable_string(e.name),
        encodable_string(e.symbol),
        encodable_string(e.uri),
    ensures
        ({
            let b = create_event_bytes(e);
            let p1 = string_bytes(e.name).len() as int;
            let p2 = p1 + string_bytes(e.symbol).len() as int;
            let p3 = p2 + string_bytes(e.uri).len() as int;
            &&& string_read(b, 0) == Ok::<(Seq<char>, int), SpecBorshFailure>((e.name, p1))
            &&& string_read(b, p1) == Ok::<(Seq<char>, int), SpecBorshFailure>((e.symbol, p2))
            &&& string_read(b, p2) == Ok::<(Seq<char>, int), SpecBorshFailure>((e.uri, p3))
            &&& b == (string_bytes(e.name) + string_bytes(e.symbol) + string_bytes(e.uri))
                + create_event_fixed_bytes(e)
            &&& p3 == (string_bytes(e.name) + string_bytes(e.symbol) + string_bytes(e.uri)).len()
        }),
{
    let sn = string_bytes(e.name);
    let ss = string_bytes(e.symbol);
    let su = string_bytes(e.uri);
    let strings = sn + ss + su;
    let f = create_event_fixed_bytes(e);
    let p1: int = sn.len() as int;
    let p2: int = p1 + ss.len() as int;
    lemma_string_bytes_after(seq![], e.name);
    assert(seq![] + sn == sn);
    lemma_string_read_extend(sn, ss, 0);
    lemma_string_read_extend(sn + ss, su, 0);
    lemma_string_read_extend(strings, f, 0);
    lemma_string_bytes_after(sn, e.symbol);
    lemma_string_read_extend(sn + ss, su, p1);
    lemma_string_read_extend(strings, f, p1);
    lemma_string_bytes_after(sn + ss, e.uri);
    lemma_string_read_extend(strings, f, p2);
}

/// Decoding the data of a `CreateEvent` (its discriminator, then its Borsh
/// encoding) gives that event back.
#[verifier::spinoff_prover]
pub proof fn lemma_create_event_round_trip(e: SpecCreateEvent)
    requires
        encodable_string(e.name),
        encodable_string(e.symbol),
        encodable_string(e.uri),
        e.mint.len() == 32,
        e.bonding_curve.len() == 32,
        e.user.len() == 32,
        e.creator.len() == 32,
    ensures
        spec_create_event_decoded(create_event_bytes(e)) == Ok::<(SpecCreateEvent, int), SpecBorshFailure>(
            (e, create_event_bytes(e).len() as int),
        ),
        spec_pump_event(CREATE_EVENT_DISCRIMINATOR@ + create_event_bytes(e)) == Ok::<
            Option<SpecPumpEvent>,
            (PumpEventKind, SpecBorshFailure),
        >(Some(SpecPumpEvent::Create(e))),
{
    let strings = string_bytes(e.name) + string_bytes(e.symbol) + string_bytes(e.uri);
    let f = create_event_fixed_bytes(e);
    let b = create_event_bytes(e);
    let p3: int = strings.len() as int;
    lemma_create_event_strings_read(e);
    lemma_create_event_fixed_read(e);
    lemma_values_shift(strings, f);
    assert(key_at(b, p3) == key_at(f, 0));
    assert(key_at(b, p3 + 32) == key_at(f, 32));
    assert(key_at(b, p3 + 64) == key_at(f, 64));
    assert(key_at(b, p3 + 96) == key_at(f, 96));
    assert(le_value(b, p3 + 128, 8) == le_value(f, 128, 8));
    assert(le_value(b, p3 + 136, 8) == le_value(f, 136, 8));
    assert(le_value(b, p3 + 144, 8) == le_value(f, 144, 8));
    assert(le_value(b, p3 + 152, 8) == le_value(f, 152, 8));
    assert(le_value(b, p3 + 160, 8) == le_value(f, 160, 8));
    assert(spec_create_event_decoded(b) == Ok::<(SpecCreateEvent, int), SpecBorshFailure>(
        (e, p3 + 168),
    ));
    lemma_event_data(CREATE_EVENT_DISCRIMINATOR@, b);
}

/// The Borsh encoding of a `SetMetaplexCreatorEvent`: its fields in declaration order.
pub open spec fn set_metaplex_creator_event_bytes(e: SpecSetMetaplexCreatorEvent) -> Seq<u8> {
    e.mint + e.bonding_curve + e.metadata + e.creator + i64_bytes(e.timestamp)
}

/// Decoding the data of a `SetMetaplexCreatorEvent` (its discriminator, then its Borsh
/// encoding) gives that event back.
pub proof fn lemma_set_metaplex_creator_event_round_trip(e: SpecSetMetaplexCreatorEvent)
    requires
        e.mint.len() == 32,
        e.bonding_curve.len() == 32,
        e.metadata.len() == 32,
        e.creator.len() == 32,
    ensures
        spec_set_metaplex_creator_event_decoded(set_metaplex_creator_event_bytes(e)) == Ok::<(SpecSetMetaplexCreatorEvent, int), SpecBorshFailure>(
            (e, set_metaplex_creator_event_bytes(e).len() as int),
        ),
        spec_pump_event(SETMETAPLEX_CREATOR_EVENT_DISCRIMINATOR@ + set_metaplex_creator_event_bytes(e)) == Ok::<
            Option<SpecPumpEvent>,
            (PumpEventKind, SpecBorshFailure),
        >(Some(SpecPumpEvent::SetMetaplexCreator(e))),
{
    let b = set_metaplex_creator_event_bytes(e);
    lemma_field_bytes_len();
    assert(b.subrange(0, 32) =~= e.mint);
    assert(b.subrange(32, 64) =~= e.bonding_curve);
    assert(b.subrange(64, 96) =~= e.metadata);
    assert(b.subrange(96, 128) =~= e.creator);
    assert(b.subrange(128, 136) =~= i64_bytes(e.timestamp));
    lemma_i64_bytes_read(b, 128, e.timestamp);
    lemma_event_data(SETMETAPLEX_CREATOR_EVENT_DISCRIMINATOR@, b);
}

/// The Borsh encoding of a `CompletePumpAmmMigrationEvent`: its fields in declaration order.
pub open spec fn complete_pump_amm_migration_event_bytes(e: SpecCompletePumpAmmMigrationEvent) -> Seq<u8> {
    e.user + e.mint + u64_bytes(e.mint_amount) + u64_bytes(e.sol_amount) + u64_bytes(e.pool_migration_fee) + e.bonding_curve + i64_bytes(e.timestamp) + e.pool
}

/// Decoding the data of a `CompletePumpAmmMigrationEvent` (its discriminator, then its Borsh
/// encoding) gives that event back.
pub proof fn lemma_complete_pump_amm_migration_event_round_trip(e: SpecCompletePumpAmmMigrationEvent)
    requires
        e.user.len() == 32,
        e.mint.len() == 32,
        e.bonding_curve.len() == 32,
        e.pool.len() == 32,
    ensures
        spec_complete_pump_amm_migration_event_decoded(complete_pump_amm_migration_event_bytes(e)) == Ok::<(SpecCompletePumpAmmMigrationEvent, int), SpecBorshFailure>(
            (e, complete_pump_amm_migration_event_bytes(e).len() as int),
        ),
        spec_pump_event(COMPLETE_PUMPAMM_MIGRATION_EVENT_DISCRIMINATOR@ + complete_pump_amm_migration_event_bytes(e)) == Ok::<
            Option<SpecPumpEvent>,
            (PumpEventKind, SpecBorshFailure),
        >(Some(SpecPumpEvent::CompletePumpAmmMigration(e))),
{
    let b = complete_pump_amm_migration_event_bytes(e);
    lemma_field_bytes_len();
    assert(b.subrange(0, 32) =~= e.user);
    assert(b.subrange(32, 64) =~= e.mint);
    assert(b.subrange(64, 72) =~= u64_bytes(e.mint_amount));
    lemma_u64_bytes_read(b, 64, e.mint_amount);
    assert(b.subrange(72, 80) =~= u64_bytes(e.sol_amount));
    lemma_u64_bytes_read(b, 72, e.sol_amount);
    assert(b.subrange(80, 88) =~= u64_bytes(e.pool_migration_fee));
    lemma_u64_bytes_read(b, 80, e.pool_migration_fee);
    assert(b.subrange(88, 120) =~= e.bonding_curve);
    assert(b.subrange(120, 128) =~= i64_bytes(e.timestamp));
    lemma_i64_bytes_read(b, 120, e.timestamp);
    assert(b.subrange(128, 160) =~= e.pool);
    lemma_event_data(COMPLETE_PUMPAMM_MIGRATION_EVENT_DISCRIMINATOR@, b);
}

/// The Borsh encoding of a `CompleteEvent`: its fields in declaration order.
pub open spec fn complete_event_bytes(e: SpecCompleteEvent) -> Seq<u8> {
    e.user + e.mint + e.bonding_curve + i64_bytes(e.timestamp)
}

/// Decoding the data of a `CompleteEvent` (its discriminator, then its Borsh
/// encoding) gives that event back.
pub proof fn lemma_complete_event_round_trip(e: SpecCompleteEvent)
    requires
        e.user.len() == 32,
        e.mint.len() == 32,
        e.bonding_curve.len() == 32,
    ensures
        spec_complete_event_decoded(complete_event_bytes(e)) == Ok::<(SpecCompleteEvent, int), SpecBorshFailure>(
            (e, complete_event_bytes(e).len() as int),
        ),
        spec_pump_event(COMPLETE_EVENT_DISCRIMINATOR@ + complete_event_bytes(e)) == Ok::<
            Option<SpecPumpEvent>,
            (PumpEventKind, SpecBorshFailure),
        >(Some(SpecPumpEvent::Complete(e))),
{
    let b = complete_event_bytes(e);
    lemma_field_bytes_len();
    assert(b.subrange(0, 32) =~= e.user);
    assert(b.subrange(32, 64) =~= e.mint);
    assert(b.subrange(64, 96) =~= e.bonding_curve);
    assert(b.subrange(96, 104) =~= i64_bytes(e.timestamp));
    lemma_i64_bytes_read(b, 96, e.timestamp);
    lemma_event_data(COMPLETE_EVENT_DISCRIMINATOR@, b);
}

/// The Borsh encoding of a `CollectCreatorFeeEvent`: its fields in declaration order.
pub open spec fn collect_creator_fee_event_bytes(e: SpecCollectCreatorFeeEvent) -> Seq<u8> {
    i64_bytes(e.timestamp) + e.creator + u64_bytes(e.creator_fee)
}

/// Decoding the data of a `CollectCreatorFeeEvent` (its discriminator, then its Borsh
/// encoding) gives that event back.
pub proof fn lemma_collect_creator_fee_event_round_trip(e: SpecCollectCreatorFeeEvent)
    requires
        e.creator.len() == 32,
    ensures
        spec_collect_creator_fee_event_decoded(collect_creator_fee_event_bytes(e)) == Ok::<(SpecCollectCreatorFeeEvent, int), SpecBorshFailure>(
            (e, collect_creator_fee_event_bytes(e).len() as int),
        ),
        spec_pump_event(COLLECT_CREATORFEE_EVENT_DISCRIMINATOR@ + collect_creator_fee_event_bytes(e)) == Ok::<
            Option<SpecPumpEvent>,
            (PumpEventKind, SpecBorshFailure),
        >(Some(SpecPumpEvent::CollectCreatorFee(e))),
{
    let b = collect_creator_fee_event_bytes(e);
    lemma_field_bytes_len();
    assert(b.subrange(0, 8) =~= i64_bytes(e.timestamp));
    lemma_i64_bytes_read(b, 0, e.timestamp);
    assert(b.subrange(8, 40) =~= e.creator);
    assert(b.subrange(40, 48) =~= u64_bytes(e.creator_fee));
    lemma_u64_bytes_read(b, 40, e.creator_fee);
    lemma_event_data(COLLECT_CREATORFEE_EVENT_DISCRIMINATOR@, b);
}

/// Bytes after a decoded event do not change what the event data decode to.
pub proof fn lemma_pump_event_ignores_trailing_bytes(bytes: Seq<u8>, extra: Seq<u8>)
    requires
        spec_pump_event(bytes) matches Ok(Some(_)),
    ensures
        spec_pump_event(bytes + extra) == spec_pump_event(bytes),
{
    let body = bytes.skip(8);
    assert((bytes + extra).take(8) =~= bytes.take(8));
    assert((bytes + extra).skip(8) =~= body + extra);
    lemma_values_extend(body, extra);
}

/// An event that decodes is of the kind its discriminator announces.
pub proof fn lemma_pump_event_has_announced_kind(bytes: Seq<u8>)
    ensures
        spec_pump_event(bytes) matches Ok(Some(e)) ==> pump_event_kind(bytes.take(8)) == Some(
            event_kind(e),
        ),
        spec_pump_event(bytes) matches Err((kind, _)) ==> pump_event_kind(bytes.take(8)) == Some(
            kind,
        ),
{
}

/// The number of bytes of the Base64 text that a decode error quotes: its
/// first 80, or all of it where it is shorter.
pub open spec fn quoted_byte_len(text: Seq<char>) -> int {
    if encode_utf8(text).len() < 80 {
        encode_utf8(text).len() as int
    } else {
        80
    }
}

/// The quoted bytes end on a character boundary, so that they can be cut
/// from the text.
pub open spec fn can_quote(text: Seq<char>) -> bool {
    is_char_boundary(encode_utf8(text), quoted_byte_len(text))
}

/// The text a decode error quotes: the characters of the first
/// [`quoted_byte_len`] bytes of `text`.
pub open spec fn quoted_prefix(text: Seq<char>) -> Seq<char> {
    decode_utf8(encode_utf8(text).take(quoted_byte_len(text)))
}

/// An ASCII text can be cut after any of its characters, and what a decode
/// error quotes of it is its first 80 characters.
pub proof fn lemma_ascii_quote(text: Seq<char>)
    requires
        is_ascii_chars(text),
    ensures
        can_quote(text),
        quoted_prefix(text) == text.take(quoted_byte_len(text)),
        quoted_byte_len(text) == if text.len() < 80 { text.len() as int } else { 80 },
{
    let bytes = encode_utf8(text);
    is_ascii_chars_encode_utf8(text);
    encode_utf8_valid_utf8(text);
    let k = quoted_byte_len(text);
    if k == bytes.len() {
        is_char_boundary_start_end_of_seq(bytes);
    } else {
        is_char_boundary_iff_not_is_continuation_byte(bytes, k);
        assert(text[k] as u8 == bytes[k]);
    }
    let head = text.take(k);
    assert(is_ascii_chars(head));
    is_ascii_chars_encode_utf8(head);
    assert(encode_utf8(head) =~= bytes.take(k)) by {
        assert forall|i: int| 0 <= i < k implies encode_utf8(head)[i] == bytes.take(k)[i] by {
            assert(head[i] == text[i]);
            assert(head[i] as u8 == encode_utf8(head)[i]);
            assert(text[i] as u8 == bytes[i]);
        }
    }
    encode_utf8_decode_utf8(head);
}

/// `r` is what decoding gives when the data's meaning is `expected`; `len` is
/// the data's length and `text` its Base64 text.
pub open spec fn pump_result_is(
    r: Result<Option<PumpEvent>, ParseError>,
    expected: Result<Option<SpecPumpEvent>, (PumpEventKind, SpecBorshFailure)>,
    len: int,
    text: Seq<char>,
) -> bool {
    match expected {
        Ok(None) => r matches Ok(None),
        Ok(Some(e)) => r matches Ok(Some(ev)) && ev@ == e,
        Err((kind, f)) => r matches Err(
            ParseError::EventDecode { event, payload_len, base64_prefix, reason },
        ) && event == kind && payload_len == len - 8 && base64_prefix@ == quoted_prefix(text)
            && reason@ == f,
    }
}

/// The error for a body of kind `kind` that did not decode for `reason`; it
/// quotes the first 80 bytes of the Base64 text.
fn event_decode_error(
    kind: PumpEventKind,
    payload_len: usize,
    base64_text: &str,
    reason: BorshFailure,
) -> (e: ParseError)
    requires
        can_quote(base64_text@),
    ensures
        e matches ParseError::EventDecode { event, payload_len: n, base64_prefix, reason: r }
            && event == kind && n == payload_len && base64_prefix@ == quoted_prefix(
            base64_text@,
        ) && r == reason,
{
    let n = base64_text.as_bytes().len();
    let k = if n < 80 {
        n
    } else {
        80
    };
    let (head, _) = base64_text.split_at(k);
    proof {
        encode_utf8_decode_utf8(head@);
        assert(encode_utf8(head@) == encode_utf8(base64_text@).take(k as int));
    }
    let quoted = head.to_owned();
    ParseError::EventDecode { event: kind, payload_len, base64_prefix: quoted, reason }
}

/// Decodes the body of an event of kind `kind`.
fn decode_pump_event_body(kind: PumpEventKind, body: &[u8]) -> (r: Result<PumpEvent, BorshFailure>)
    ensures
        match spec_pump_event_body(kind, body@) {
            Ok(Some(e)) => r matches Ok(ev) && ev@ == e,
            Ok(None) => false,
            Err((_, f)) => r matches Err(g) && g@ == f,
        },
{
    match kind {
        PumpEventKind::Trade => match decode_trade_event(body) {
            Ok((e, _)) => Ok(PumpEvent::Trade(e)),
            Err(f) => Err(f),
        },
        PumpEventKind::Create => match decode_create_event(body) {
            Ok((e, _)) => Ok(PumpEvent::Create(e)),
            Err(f) => Err(f),
        },
        PumpEventKind::SetMetaplexCreator => match decode_set_metaplex_creator_event(body) {
            Ok((e, _)) => Ok(PumpEvent::SetMetaplexCreator(e)),
            Err(f) => Err(f),
        },
        PumpEventKind::CompletePumpAmmMigration => match decode_complete_pump_amm_migration_event(
            body,
        ) {
            Ok((e, _)) => Ok(PumpEvent::CompletePumpAmmMigration(e)),
            Err(f) => Err(f),
        },
        PumpEventKind::Complete => match decode_complete_event(body) {
            Ok((e, _)) => Ok(PumpEvent::Complete(e)),
            Err(f) => Err(f),
        },
        PumpEventKind::CollectCreatorFee => match decode_collect_creator_fee_event(body) {
            Ok((e, _)) => Ok(PumpEvent::CollectCreatorFee(e)),
            Err(f) => Err(f),
        },
    }
}

/// The kind of event that `bytes` (at least eight long) announce.
fn pump_event_kind_of(bytes: &[u8]) -> (k: Option<PumpEventKind>)
    requires
        bytes@.len() >= 8,
    ensures
        k == pump_event_kind(bytes@.take(8)),
{
    if has_discriminator(bytes, &TRADE_EVENT_DISCRIMINATOR) {
        Some(PumpEventKind::Trade)
    } else if has_discriminator(bytes, &CREATE_EVENT_DISCRIMINATOR) {
        Some(PumpEventKind::Create)
    } else if has_discriminator(bytes, &SETMETAPLEX_CREATOR_EVENT_DISCRIMINATOR) {
        Some(PumpEventKind::SetMetaplexCreator)
    } else if has_discriminator(bytes, &COMPLETE_PUMPAMM_MIGRATION_EVENT_DISCRIMINATOR) {
        Some(PumpEventKind::CompletePumpAmmMigration)
    } else if has_discriminator(bytes, &COMPLETE_EVENT_DISCRIMINATOR) {
        Some(PumpEventKind::Complete)
    } else if has_discriminator(bytes, &COLLECT_CREATORFEE_EVENT_DISCRIMINATOR) {
        Some(PumpEventKind::CollectCreatorFee)
    } else {
        None
    }
}

/// Decodes event data (the bytes a `Program data:` line carries), whose Base64
/// text was `base64_text`. Where the body does not decode, the error quotes
/// the first 80 bytes of that text, which must then end on a character
/// boundary (as they do in any ASCII text).
pub fn decode_pump_event(bytes: &[u8], base64_text: &str) -> (r: Result<Option<PumpEvent>, ParseError>)
    requires
        spec_pump_event(bytes@) is Err ==> can_quote(base64_text@),
    ensures
        pump_result_is(r, spec_pump_event(bytes@), bytes@.len() as int, base64_text@),
{
    if bytes.len() < 8 {
        return Ok(None);
    }
    let kind = match pump_event_kind_of(bytes) {
        Some(k) => k,
        None => return Ok(None),
    };
    let body = vstd::slice::slice_subrange(bytes, 8, bytes.len());
    assert(body@ == bytes@.skip(8));
    match decode_pump_event_body(kind, body) {
        Ok(ev) => Ok(Some(ev)),
        Err(f) => Err(event_decode_error(kind, body.len(), base64_text, f)),
    }
}

/// Decodes the bonding-curve event that a log line carries. Lines that are
/// not event data, whose Base64 does not decode, that are too short or whose
/// discriminator is unknown give `Ok(None)`; a known discriminator whose body
/// does not decode gives `Err(ParseError::EventDecode { .. })`.
pub fn decode_pump_event_from_log(line: &str) -> (r: Result<Option<PumpEvent>, ParseError>)
    ensures
        match program_data_bytes(line@) {
            None => r matches Ok(None),
            Some(bytes) => pump_result_is(
                r,
                spec_pump_event(bytes),
                bytes.len() as int,
                program_data_text(line@)->0,
            ),
        },
{
    let (text, bytes) = match program_data_of(line) {
        Some(p) => p,
        None => return Ok(None),
    };
    proof {
        lemma_ascii_quote(text@);
    }
    decode_pump_event(bytes.as_slice(), text)
}


/// A `SetMetaplexCreatorEvent` cut off before its last byte does not decode: reading it
/// fails for want of bytes.
pub proof fn lemma_set_metaplex_creator_event_truncated(e: SpecSetMetaplexCreatorEvent, n: int)
    requires
        e.mint.len() == 32,
        e.bonding_curve.len() == 32,
        e.metadata.len() == 32,
        e.creator.len() == 32,
        0 <= n < set_metaplex_creator_event_bytes(e).len(),
    ensures
        spec_set_metaplex_creator_event_decoded(set_metaplex_creator_event_bytes(e).take(n)) == Err::<(SpecSetMetaplexCreatorEvent, int), SpecBorshFailure>(
            SpecBorshFailure::UnexpectedLength,
        ),
        spec_pump_event(SETMETAPLEX_CREATOR_EVENT_DISCRIMINATOR@ + set_metaplex_creator_event_bytes(e).take(n)) == Err::<
            Option<SpecPumpEvent>,
            (PumpEventKind, SpecBorshFailure),
        >((PumpEventKind::SetMetaplexCreator, SpecBorshFailure::UnexpectedLength)),
{
    lemma_set_metaplex_creator_event_round_trip(e);
    lemma_event_data(SETMETAPLEX_CREATOR_EVENT_DISCRIMINATOR@, set_metaplex_creator_event_bytes(e).take(n));
}

/// A `CompletePumpAmmMigrationEvent` cut off before its last byte does not decode: reading it
/// fails for want of bytes.
pub proof fn lemma_complete_pump_amm_migration_event_truncated(e: SpecCompletePumpAmmMigrationEvent, n: int)
    requires
        e.user.len() == 32,
        e.mint.len() == 32,
        e.bonding_curve.len() == 32,
        e.pool.len() == 32,
        0 <= n < complete_pump_amm_migration_event_bytes(e).len(),
    ensures
        spec_complete_pump_amm_migration_event_decoded(complete_pump_amm_migration_event_bytes(e).take(n)) == Err::<(SpecCompletePumpAmmMigrationEvent, int), SpecBorshFailure>(
            SpecBorshFailure::UnexpectedLength,
        ),
        spec_pump_event(COMPLETE_PUMPAMM_MIGRATION_EVENT_DISCRIMINATOR@ + complete_pump_amm_migration_event_bytes(e).take(n)) == Err::<
            Option<SpecPumpEvent>,
            (PumpEventKind, SpecBorshFailure),
        >((PumpEventKind::CompletePumpAmmMigration, SpecBorshFailure::UnexpectedLength)),
{
    lemma_complete_pump_amm_migration_event_round_trip(e);
    lemma_event_data(COMPLETE_PUMPAMM_MIGRATION_EVENT_DISCRIMINATOR@, complete_pump_amm_migration_event_bytes(e).take(n));
}

/// A `CompleteEvent` cut off before its last byte does not decode: reading it
/// fails for want of bytes.
pub proof fn lemma_complete_event_truncated(e: SpecCompleteEvent, n: int)
    requires
        e.user.len() == 32,
        e.mint.len() == 32,
        e.bonding_curve.len() == 32,
        0 <= n < complete_event_bytes(e).len(),
    ensures
        spec_complete_event_decoded(complete_event_bytes(e).take(n)) == Err::<(SpecCompleteEvent, int), SpecBorshFailure>(
            SpecBorshFailure::UnexpectedLength,
        ),
        spec_pump_event(COMPLETE_EVENT_DISCRIMINATOR@ + complete_event_bytes(e).take(n)) == Err::<
            Option<SpecPumpEvent>,
            (PumpEventKind, SpecBorshFailure),
        >((PumpEventKind::Complete, SpecBorshFailure::UnexpectedLength)),
{
    lemma_complete_event_round_trip(e);
    lemma_event_data(COMPLETE_EVENT_DISCRIMINATOR@, complete_event_bytes(e).take(n));
}

/// A `CollectCreatorFeeEvent` cut off before its last byte does not decode: reading it
/// fails for want of bytes.
pub proof fn lemma_collect_creator_fee_event_truncated(e: SpecCollectCreatorFeeEvent, n: int)
    requires
        e.creator.len() == 32,
        0 <= n < collect_creator_fee_event_bytes(e).len(),
    ensures
        spec_collect_creator_fee_event_decoded(collect_creator_fee_event_bytes(e).take(n)) == Err::<(SpecCollectCreatorFeeEvent, int), SpecBorshFailure>(
            SpecBorshFailure::UnexpectedLength,
        ),
        spec_pump_event(COLLECT_CREATORFEE_EVENT_DISCRIMINATOR@ + collect_creator_fee_event_bytes(e).take(n)) == Err::<
            Option<SpecPumpEvent>,
            (PumpEventKind, SpecBorshFailure),
        >((PumpEventKind::CollectCreatorFee, SpecBorshFailure::UnexpectedLength)),
{
    lemma_collect_creator_fee_event_round_trip(e);
    lemma_event_data(COLLECT_CREATORFEE_EVENT_DISCRIMINATOR@, collect_creator_fee_event_bytes(e).take(n));
}

/// A `TradeEvent` cut off before its last byte does not decode: reading it
/// fails for want of bytes.
pub proof fn lemma_trade_event_truncated(e: SpecTradeEvent, n: int)
    requires
        e.mint.len() == 32,
        e.user.len() == 32,
        e.fee_recipient.len() == 32,
        e.creator.len() == 32,
        encodable_string(e.ix_name),
        0 <= n < trade_event_bytes(e).len(),
    ensures
        spec_trade_event_decoded(trade_event_bytes(e).take(n)) == Err::<
            (SpecTradeEvent, int),
            SpecBorshFailure,
        >(SpecBorshFailure::UnexpectedLength),
        spec_pump_event(TRADE_EVENT_DISCRIMINATOR@ + trade_event_bytes(e).take(n)) == Err::<
            Option<SpecPumpEvent>,
            (PumpEventKind, SpecBorshFailure),
        >((PumpEventKind::Trade, SpecBorshFailure::UnexpectedLength)),
{
    let b = trade_event_bytes(e);
    lemma_trade_event_round_trip(e);
    lemma_field_bytes_len();
    if n >= 250 {
        assert(b.subrange(250, b.len() as int) =~= string_bytes(e.ix_name));
        lemma_string_bytes_cut(b, 250, e.ix_name, n);
    }
    lemma_event_data(TRADE_EVENT_DISCRIMINATOR@, b.take(n));
}

/// A `TradeEvent` whose `is_buy` or `track_volume` byte is neither 0 nor 1
/// does not decode: reading it fails on that byte.
pub proof fn lemma_trade_event_bad_bool(e: SpecTradeEvent, x: u8)
    requires
        e.mint.len() == 32,
        e.user.len() == 32,
        e.fee_recipient.len() == 32,
        e.creator.len() == 32,
        encodable_string(e.ix_name),
        x > 1,
    ensures
        spec_trade_event_decoded(trade_event_bytes(e).update(48, x)) == Err::<
            (SpecTradeEvent, int),
            SpecBorshFailure,
        >(SpecBorshFailure::InvalidBool(x)),
        spec_trade_event_decoded(trade_event_bytes(e).update(217, x)) == Err::<
            (SpecTradeEvent, int),
            SpecBorshFailure,
        >(SpecBorshFailure::InvalidBool(x)),
        spec_pump_event(TRADE_EVENT_DISCRIMINATOR@ + trade_event_bytes(e).update(48, x)) == Err::<
            Option<SpecPumpEvent>,
            (PumpEventKind, SpecBorshFailure),
        >((PumpEventKind::Trade, SpecBorshFailure::InvalidBool(x))),
{
    lemma_trade_event_round_trip(e);
    lemma_event_data(TRADE_EVENT_DISCRIMINATOR@, trade_event_bytes(e).update(48, x));
}

/// The parts of an encoded `CreateEvent`: its three strings, then its
/// fixed-size fields.
proof fn lemma_create_event_parts(e: SpecCreateEvent)
    ensures
        ({
            let b = create_event_bytes(e);
            let p1 = string_bytes(e.name).len() as int;
            let p2 = p1 + string_bytes(e.symbol).len() as int;
            let p3 = p2 + string_bytes(e.uri).len() as int;
            &&& b.len() == p3 + create_event_fixed_bytes(e).len()
            &&& b.subrange(0, p1) == string_bytes(e.name)
            &&& b.subrange(p1, p2) == string_bytes(e.symbol)
            &&& b.subrange(p2, p3) == string_bytes(e.uri)
        }),
{
    let sn = string_bytes(e.name);
    let ss = string_bytes(e.symbol);
    let su = string_bytes(e.uri);
    let f = create_event_fixed_bytes(e);
    let b = create_event_bytes(e);
    let p1 = sn.len() as int;
    let p2 = p1 + ss.len() as int;
    let p3 = p2 + su.len() as int;
    assert(b.subrange(0, p1) =~= sn);
    assert(b.subrange(p1, p2) =~= ss);
    assert(b.subrange(p2, p3) =~= su);
}

/// A `CreateEvent` cut off before its last byte does not decode: reading it
/// fails for want of bytes.
#[verifier::spinoff_prover]
pub proof fn lemma_create_event_truncated(e: SpecCreateEvent, n: int)
    requires
        encodable_string(e.name),
        encodable_string(e.symbol),
        encodable_string(e.uri),
        e.mint.len() == 32,
        e.bonding_curve.len() == 32,
        e.user.len() == 32,
        e.creator.len() == 32,
        0 <= n < create_event_bytes(e).len(),
    ensures
        spec_create_event_decoded(create_event_bytes(e).take(n)) == Err::<
            (SpecCreateEvent, int),
            SpecBorshFailure,
        >(SpecBorshFailure::UnexpectedLength),
        spec_pump_event(CREATE_EVENT_DISCRIMINATOR@ + create_event_bytes(e).take(n)) == Err::<
            Option<SpecPumpEvent>,
            (PumpEventKind, SpecBorshFailure),
        >((PumpEventKind::Create, SpecBorshFailure::UnexpectedLength)),
{
    let b = create_event_bytes(e);
    let c = b.take(n);
    let p1 = string_bytes(e.name).len() as int;
    let p2 = p1 + string_bytes(e.symbol).len() as int;
    let p3 = p2 + string_bytes(e.uri).len() as int;
    lemma_field_bytes_len();
    lemma_create_event_parts(e);
    if n < p1 {
        lemma_string_bytes_cut(b, 0, e.name, n);
    } else {
        assert(c.subrange(0, p1) =~= b.subrange(0, p1));
        lemma_string_bytes_read(c, 0, e.name);
        if n < p2 {
            lemma_string_bytes_cut(b, p1, e.symbol, n);
        } else {
            assert(c.subrange(p1, p2) =~= b.subrange(p1, p2));
            lemma_string_bytes_read(c, p1, e.symbol);
            if n < p3 {
                lemma_string_bytes_cut(b, p2, e.uri, n);
            } else {
                assert(c.subrange(p2, p3) =~= b.subrange(p2, p3));
                lemma_string_bytes_read(c, p2, e.uri);
            }
        }
    }
    lemma_event_data(CREATE_EVENT_DISCRIMINATOR@, c);
}

} // verus!
