//! Decoding the events of the AMM program from its log lines.
use vstd::prelude::*;
use vstd::utf8::valid_utf8;

use crate::decode::borsh::{
    bool_at, bool_bytes, encodable_string, has_discriminator, i64_at, i64_bytes, is_bool_byte,
    key_at, lemma_bool_bytes_read, lemma_event_data, lemma_field_bytes_len, lemma_i64_bytes_read,
    lemma_string_bytes_cut, lemma_string_bytes_read, lemma_u64_bytes_read, lemma_values_extend,
    string_bytes, string_read, u64_at, u64_bytes, utf8_to_string, BorshFailure, BorshReader, SpecBorshFailure,
};
use crate::decode::program_data::{program_data_bytes, program_data_of};
use crate::error::ParseError;
use crate::types::amm_events::{AmmEvent, BuyEvent, SellEvent, SpecAmmEvent, SpecBuyEvent, SpecSellEvent};
use crate::types::pubkey_borsh::Pubkey;

verus! {

pub const BUY_EVENT_DISCRIMINATOR: [u8; 8] = [103, 244, 82, 31, 44, 245, 119, 119];

pub const SELL_EVENT_DISCRIMINATOR: [u8; 8] = [62, 47, 55, 10, 165, 3, 220, 42];

/// The character shown for byte `b` in a preview: itself when printable ASCII,
/// `.` otherwise.
pub open spec fn preview_char(b: u8) -> char {
    if 32 <= b <= 126 {
        b as char
    } else {
        '.'
    }
}

/// At most the first `max` bytes of `bytes`, printable ASCII shown as itself
/// and every other byte as `.`.
pub fn ascii_preview(bytes: &[u8], max: usize) -> (text: String)
    ensures
        text@ == bytes@.take(if bytes@.len() > max { max as int } else { bytes@.len() as int }).map_values(
            |b: u8| preview_char(b),
        ),
{
    let n = if bytes.len() > max {
        max
    } else {
        bytes.len()
    };
    let mut out: Vec<u8> = Vec::new();
    let mut i: usize = 0;
    while i < n
        invariant
            0 <= i <= n <= bytes@.len(),
            out@.len() == i,
            forall|j: int| 0 <= j < i ==> out@[j] as char == preview_char(bytes@[j]),
            forall|j: int| 0 <= j < i ==> out@[j] < 128,
        decreases n - i,
    {
        let c = bytes[i];
        if 32 <= c && c <= 126 {
            out.push(c);
        } else {
            out.push(46u8);
        }
        i = i + 1;
    }
    let ghost chars = out@.map_values(|b: u8| b as char);
    proof {
        assert(vstd::utf8::is_ascii_chars(chars));
        vstd::utf8::is_ascii_chars_encode_utf8(chars);
        assert(vstd::utf8::encode_utf8(chars) =~= out@);
        vstd::utf8::encode_utf8_valid_utf8(chars);
        vstd::utf8::encode_utf8_decode_utf8(chars);
    }
    let ghost bytes_seen = out@;
    match utf8_to_string(out) {
        Ok(t) => {
            assert(t@ =~= bytes@.take(n as int).map_values(|b: u8| preview_char(b)));
            t
        },
        Err(_) => {
            proof {
                assert(valid_utf8(bytes_seen));
            }
            String::new()
        },
    }
}

/// Whether the bytes left after an event are exactly sixteen zero bytes, the
/// padding that the AMM program appends.
pub fn is_zero_padding_16(leftover: &[u8]) -> (r: bool)
    ensures
        r == (leftover@.len() == 16 && forall|i: int| 0 <= i < 16 ==> leftover@[i] == 0),
{
    if leftover.len() != 16 {
        return false;
    }
    let mut i: usize = 0;
    while i < 16
        invariant
            0 <= i <= 16,
            leftover@.len() == 16,
            forall|j: int| 0 <= j < i ==> leftover@[j] == 0,
        decreases 16 - i,
    {
        if leftover[i] != 0 {
            return false;
        }
        i = i + 1;
    }
    true
}

/// What a `BuyEvent` body decodes to and where it ends, or the first failure
/// met when reading it field by field.
pub open spec fn spec_buy_event_decoded(s: Seq<u8>) -> Result<(SpecBuyEvent, int), SpecBorshFailure> {
    if s.len() < 353 {
        Err(SpecBorshFailure::UnexpectedLength)
    } else if !is_bool_byte(s[352]) {
        Err(SpecBorshFailure::InvalidBool(s[352]))
    } else if s.len() < 393 {
        Err(SpecBorshFailure::UnexpectedLength)
    } else {
        match string_read(s, 393) {
            Err(e) => Err(e),
            Ok((ix_name, p1)) => {
                Ok((
                    SpecBuyEvent {
                        timestamp: i64_at(s, 0),
                        base_amount_out: u64_at(s, 8),
                        max_quote_amount_in: u64_at(s, 16),
                        user_base_token_reserves: u64_at(s, 24),
                        user_quote_token_reserves: u64_at(s, 32),
                        pool_base_token_reserves: u64_at(s, 40),
                        pool_quote_token_reserves: u64_at(s, 48),
                        quote_amount_in: u64_at(s, 56),
                        lp_fee_basis_points: u64_at(s, 64),
                        lp_fee: u64_at(s, 72),
                        protocol_fee_basis_points: u64_at(s, 80),
                        protocol_fee: u64_at(s, 88),
                        quote_amount_in_with_lp_fee: u64_at(s, 96),
                        user_quote_amount_in: u64_at(s, 104),
                        pool: key_at(s, 112),
                        user: key_at(s, 144),
                        user_base_token_account: key_at(s, 176),
                        user_quote_token_account: key_at(s, 208),
                        protocol_fee_recipient: key_at(s, 240),
                        protocol_fee_recipient_token_account: key_at(s, 272),
                        coin_creator: key_at(s, 304),
                        coin_creator_fee_basis_points: u64_at(s, 336),
                        coin_creator_fee: u64_at(s, 344),
                        track_volume: bool_at(s, 352),
                        total_unclaimed_tokens: u64_at(s, 353),
                        total_claimed_tokens: u64_at(s, 361),
                        current_sol_volume: u64_at(s, 369),
                        last_update_timestamp: i64_at(s, 377),
                        min_base_amount_out: u64_at(s, 385),
                        ix_name,
                    },
                    p1,
                ))
            },
        }
    }
}

/// The [`SpecBuyEvent`] that a Borsh-encoded `BuyEvent` body decodes to.
pub open spec fn spec_buy_event(s: Seq<u8>) -> Option<SpecBuyEvent> {
    match spec_buy_event_decoded(s) {
        Ok((e, _)) => Some(e),
        Err(_) => None,
    }
}

/// Decodes the Borsh body of a `BuyEvent` and the number of bytes it takes;
/// bytes after it are left alone.
pub fn decode_buy_event(payload: &[u8]) -> (r: Result<(BuyEvent, usize), BorshFailure>)
    ensures
        match spec_buy_event_decoded(payload@) {
            Ok((e, end)) => r matches Ok((ev, n)) && ev@ == e && n == end,
            Err(f) => r matches Err(g) && g@ == f,
        },
{
    let mut rd = BorshReader::new(payload);
    let timestamp = rd.read_i64()?;
    let base_amount_out = rd.read_u64()?;
    let max_quote_amount_in = rd.read_u64()?;
    let user_base_token_reserves = rd.read_u64()?;
    let user_quote_token_reserves = rd.read_u64()?;
    let pool_base_token_reserves = rd.read_u64()?;
    let pool_quote_token_reserves = rd.read_u64()?;
    let quote_amount_in = rd.read_u64()?;
    let lp_fee_basis_points = rd.read_u64()?;
    let lp_fee = rd.read_u64()?;
    let protocol_fee_basis_points = rd.read_u64()?;
    let protocol_fee = rd.read_u64()?;
    let quote_amount_in_with_lp_fee = rd.read_u64()?;
    let user_quote_amount_in = rd.read_u64()?;
    let pool = Pubkey(rd.read_key()?);
    let user = Pubkey(rd.read_key()?);
    let user_base_token_account = Pubkey(rd.read_key()?);
    let user_quote_token_account = Pubkey(rd.read_key()?);
    let protocol_fee_recipient = Pubkey(rd.read_key()?);
    let protocol_fee_recipient_token_account = Pubkey(rd.read_key()?);
    let coin_creator = Pubkey(rd.read_key()?);
    let coin_creator_fee_basis_points = rd.read_u64()?;
    let coin_creator_fee = rd.read_u64()?;
    let track_volume = rd.read_bool()?;
    let total_unclaimed_tokens = rd.read_u64()?;
    let total_claimed_tokens = rd.read_u64()?;
    let current_sol_volume = rd.read_u64()?;
    let last_update_timestamp = rd.read_i64()?;
    let min_base_amount_out = rd.read_u64()?;
    let ix_name = rd.read_string()?;
    Ok((BuyEvent {
        timestamp,
        base_amount_out,
        max_quote_amount_in,
        user_base_token_reserves,
        user_quote_token_reserves,
        pool_base_token_reserves,
        pool_quote_token_reserves,
        quote_amount_in,
        lp_fee_basis_points,
        lp_fee,
        protocol_fee_basis_points,
        protocol_fee,
        quote_amount_in_with_lp_fee,
        user_quote_amount_in,
        pool,
        user,
        user_base_token_account,
        user_quote_token_account,
        protocol_fee_recipient,
        protocol_fee_recipient_token_account,
        coin_creator,
        coin_creator_fee_basis_points,
        coin_creator_fee,
        track_volume,
        total_unclaimed_tokens,
        total_claimed_tokens,
        current_sol_volume,
        last_update_timestamp,
        min_base_amount_out,
        ix_name,
    }, rd.pos))
}

/// What a `SellEvent` body decodes to and where it ends, or the first failure
/// met when reading it field by field.
pub open spec fn spec_sell_event_decoded(s: Seq<u8>) -> Result<(SpecSellEvent, int), SpecBorshFailure> {
    if s.len() < 352 {
        Err(SpecBorshFailure::UnexpectedLength)
    } else {
        Ok((
            SpecSellEvent {
                timestamp: i64_at(s, 0),
                base_amount_in: u64_at(s, 8),
                min_quote_amount_out: u64_at(s, 16),
                user_base_token_reserves: u64_at(s, 24),
                user_quote_token_reserves: u64_at(s, 32),
                pool_base_token_reserves: u64_at(s, 40),
                pool_quote_token_reserves: u64_at(s, 48),
                quote_amount_out: u64_at(s, 56),
                lp_fee_basis_points: u64_at(s, 64),
                lp_fee: u64_at(s, 72),
                protocol_fee_basis_points: u64_at(s, 80),
                protocol_fee: u64_at(s, 88),
                quote_amount_out_without_lp_fee: u64_at(s, 96),
                user_quote_amount_out: u64_at(s, 104),
                pool: key_at(s, 112),
                user: key_at(s, 144),
                user_base_token_account: key_at(s, 176),
                user_quote_token_account: key_at(s, 208),
                protocol_fee_recipient: key_at(s, 240),
                protocol_fee_recipient_token_account: key_at(s, 272),
                coin_creator: key_at(s, 304),
                coin_creator_fee_basis_points: u64_at(s, 336),
                coin_creator_fee: u64_at(s, 344),
            },
            352,
        ))
    }
}

/// The [`SpecSellEvent`] that a Borsh-encoded `SellEvent` body decodes to.
pub open spec fn spec_sell_event(s: Seq<u8>) -> Option<SpecSellEvent> {
    match spec_sell_event_decoded(s) {
        Ok((e, _)) => Some(e),
        Err(_) => None,
    }
}

/// Decodes the Borsh body of a `SellEvent` and the number of bytes it takes;
/// bytes after it are left alone.
pub fn decode_sell_event(payload: &[u8]) -> (r: Result<(SellEvent, usize), BorshFailure>)
    ensures
        match spec_sell_event_decoded(payload@) {
            Ok((e, end)) => r matches Ok((ev, n)) && ev@ == e && n == end,
            Err(f) => r matches Err(g) && g@ == f,
        },
{
    let mut rd = BorshReader::new(payload);
    let timestamp = rd.read_i64()?;
    let base_amount_in = rd.read_u64()?;
    let min_quote_amount_out = rd.read_u64()?;
    let user_base_token_reserves = rd.read_u64()?;
    let user_quote_token_reserves = rd.read_u64()?;
    let pool_base_token_reserves = rd.read_u64()?;
    let pool_quote_token_reserves = rd.read_u64()?;
    let quote_amount_out = rd.read_u64()?;
    let lp_fee_basis_points = rd.read_u64()?;
    let lp_fee = rd.read_u64()?;
    let protocol_fee_basis_points = rd.read_u64()?;
    let protocol_fee = rd.read_u64()?;
    let quote_amount_out_without_lp_fee = rd.read_u64()?;
    let user_quote_amount_out = rd.read_u64()?;
    let pool = Pubkey(rd.read_key()?);
    let user = Pubkey(rd.read_key()?);
    let user_base_token_account = Pubkey(rd.read_key()?);
    let user_quote_token_account = Pubkey(rd.read_key()?);
    let protocol_fee_recipient = Pubkey(rd.read_key()?);
    let protocol_fee_recipient_token_account = Pubkey(rd.read_key()?);
    let coin_creator = Pubkey(rd.read_key()?);
    let coin_creator_fee_basis_points = rd.read_u64()?;
    let coin_creator_fee = rd.read_u64()?;
    Ok((SellEvent {
        timestamp,
        base_amount_in,
        min_quote_amount_out,
        user_base_token_reserves,
        user_quote_token_reserves,
        pool_base_token_reserves,
        pool_quote_token_reserves,
        quote_amount_out,
        lp_fee_basis_points,
        lp_fee,
        protocol_fee_basis_points,
        protocol_fee,
        quote_amount_out_without_lp_fee,
        user_quote_amount_out,
        pool,
        user,
        user_base_token_account,
        user_quote_token_account,
        protocol_fee_recipient,
        protocol_fee_recipient_token_account,
        coin_creator,
        coin_creator_fee_basis_points,
        coin_creator_fee,
    }, rd.pos))
}

/// The AMM event that decoded event data `bytes` hold, with the number of
/// body bytes (after the discriminator) that it takes: `None` for data too
/// short for a discriminator, with an unknown discriminator, or whose body
/// does not decode.
pub open spec fn spec_amm_event_parts(bytes: Seq<u8>) -> Option<(SpecAmmEvent, int)> {
    if bytes.len() < 8 {
        None
    } else if bytes.take(8) == BUY_EVENT_DISCRIMINATOR@ {
        match spec_buy_event_decoded(bytes.skip(8)) {
            Ok((e, end)) => Some((SpecAmmEvent::Buy(e), end)),
            Err(_) => None,
        }
    } else if bytes.take(8) == SELL_EVENT_DISCRIMINATOR@ {
        match spec_sell_event_decoded(bytes.skip(8)) {
            Ok((e, end)) => Some((SpecAmmEvent::Sell(e), end)),
            Err(_) => None,
        }
    } else {
        None
    }
}

/// The AMM event that decoded event data `bytes` hold.
pub open spec fn spec_amm_event(bytes: Seq<u8>) -> Option<SpecAmmEvent> {
    match spec_amm_event_parts(bytes) {
        Some((e, _)) => Some(e),
        None => None,
    }
}

/// The Borsh encoding of a `BuyEvent`: its fields in declaration order.
pub open spec fn buy_event_bytes(e: SpecBuyEvent) -> Seq<u8> {
    i64_bytes(e.timestamp) + u64_bytes(e.base_amount_out) + u64_bytes(e.max_quote_amount_in) + u64_bytes(e.user_base_token_reserves) + u64_bytes(e.user_quote_token_reserves) + u64_bytes(e.pool_base_token_reserves) + u64_bytes(e.pool_quote_token_reserves) + u64_bytes(e.quote_amount_in) + u64_bytes(e.lp_fee_basis_points) + u64_bytes(e.lp_fee) + u64_bytes(e.protocol_fee_basis_points) + u64_bytes(e.protocol_fee) + u64_bytes(e.quote_amount_in_with_lp_fee) + u64_bytes(e.user_quote_amount_in) + e.pool + e.user + e.user_base_token_account + e.user_quote_token_account + e.protocol_fee_recipient + e.protocol_fee_recipient_token_account + e.coin_creator + u64_bytes(e.coin_creator_fee_basis_points) + u64_bytes(e.coin_creator_fee) + bool_bytes(e.track_volume) + u64_bytes(e.total_unclaimed_tokens) + u64_bytes(e.total_claimed_tokens) + u64_bytes(e.current_sol_volume) + i64_bytes(e.last_update_timestamp) + u64_bytes(e.min_base_amount_out) + string_bytes(e.ix_name)
}

/// Decoding the data of a `BuyEvent` (its discriminator, then its Borsh
/// encoding) gives that event back.
pub proof fn lemma_buy_event_round_trip(e: SpecBuyEvent)
    requires
        e.pool.len() == 32,
        e.user.len() == 32,
        e.user_base_token_account.len() == 32,
        e.user_quote_token_account.len() == 32,
        e.protocol_fee_recipient.len() == 32,
        e.protocol_fee_recipient_token_account.len() == 32,
        e.coin_creator.len() == 32,
        encodable_string(e.ix_name),
    ensures
        spec_buy_event_decoded(buy_event_bytes(e)) == Ok::<(SpecBuyEvent, int), SpecBorshFailure>(
            (e, buy_event_bytes(e).len() as int),
        ),
        spec_amm_event_parts(BUY_EVENT_DISCRIMINATOR@ + buy_event_bytes(e)) == Some(
            (SpecAmmEvent::Buy(e), buy_event_bytes(e).len() as int),
        ),
        spec_amm_event(BUY_EVENT_DISCRIMINATOR@ + buy_event_bytes(e)) == Some(SpecAmmEvent::Buy(e)),
{
    let b = buy_event_bytes(e);
    lemma_field_bytes_len();
    assert(b.subrange(0, 8) =~= i64_bytes(e.timestamp));
    lemma_i64_bytes_read(b, 0, e.timestamp);
    assert(b.subrange(8, 16) =~= u64_bytes(e.base_amount_out));
    lemma_u64_bytes_read(b, 8, e.base_amount_out);
    assert(b.subrange(16, 24) =~= u64_bytes(e.max_quote_amount_in));
    lemma_u64_bytes_read(b, 16, e.max_quote_amount_in);
    assert(b.subrange(24, 32) =~= u64_bytes(e.user_base_token_reserves));
    lemma_u64_bytes_read(b, 24, e.user_base_token_reserves);
    assert(b.subrange(32, 40) =~= u64_bytes(e.user_quote_token_reserves));
    lemma_u64_bytes_read(b, 32, e.user_quote_token_reserves);
    assert(b.subrange(40, 48) =~= u64_bytes(e.pool_base_token_reserves));
    lemma_u64_bytes_read(b, 40, e.pool_base_token_reserves);
    assert(b.subrange(48, 56) =~= u64_bytes(e.pool_quote_token_reserves));
    lemma_u64_bytes_read(b, 48, e.pool_quote_token_reserves);
    assert(b.subrange(56, 64) =~= u64_bytes(e.quote_amount_in));
    lemma_u64_bytes_read(b, 56, e.quote_amount_in);
    assert(b.subrange(64, 72) =~= u64_bytes(e.lp_fee_basis_points));
    lemma_u64_bytes_read(b, 64, e.lp_fee_basis_points);
    assert(b.subrange(72, 80) =~= u64_bytes(e.lp_fee));
    lemma_u64_bytes_read(b, 72, e.lp_fee);
    assert(b.subrange(80, 88) =~= u64_bytes(e.protocol_fee_basis_points));
    lemma_u64_bytes_read(b, 80, e.protocol_fee_basis_points);
    assert(b.subrange(88, 96) =~= u64_bytes(e.protocol_fee));
    lemma_u64_bytes_read(b, 88, e.protocol_fee);
    assert(b.subrange(96, 104) =~= u64_bytes(e.quote_amount_in_with_lp_fee));
    lemma_u64_bytes_read(b, 96, e.quote_amount_in_with_lp_fee);
    assert(b.subrange(104, 112) =~= u64_bytes(e.user_quote_amount_in));
    lemma_u64_bytes_read(b, 104, e.user_quote_amount_in);
    assert(b.subrange(112, 144) =~= e.pool);
    assert(b.subrange(144, 176) =~= e.user);
    assert(b.subrange(176, 208) =~= e.user_base_token_account);
    assert(b.subrange(208, 240) =~= e.user_quote_token_account);
    assert(b.subrange(240, 272) =~= e.protocol_fee_recipient);
    assert(b.subrange(272, 304) =~= e.protocol_fee_recipient_token_account);
    assert(b.subrange(304, 336) =~= e.coin_creator);
    assert(b.subrange(336, 344) =~= u64_bytes(e.coin_creator_fee_basis_points));
    lemma_u64_bytes_read(b, 336, e.coin_creator_fee_basis_points);
    assert(b.subrange(344, 352) =~= u64_bytes(e.coin_creator_fee));
    lemma_u64_bytes_read(b, 344, e.coin_creator_fee);
    assert(b.subrange(352, 353) =~= bool_bytes(e.track_volume));
    lemma_bool_bytes_read(b, 352, e.track_volume);
    assert(b.subrange(353, 361) =~= u64_bytes(e.total_unclaimed_tokens));
    lemma_u64_bytes_read(b, 353, e.total_unclaimed_tokens);
    assert(b.subrange(361, 369) =~= u64_bytes(e.total_claimed_tokens));
    lemma_u64_bytes_read(b, 361, e.total_claimed_tokens);
    assert(b.subrange(369, 377) =~= u64_bytes(e.current_sol_volume));
    lemma_u64_bytes_read(b, 369, e.current_sol_volume);
    assert(b.subrange(377, 385) =~= i64_bytes(e.last_update_timestamp));
    lemma_i64_bytes_read(b, 377, e.last_update_timestamp);
    assert(b.subrange(385, 393) =~= u64_bytes(e.min_base_amount_out));
    lemma_u64_bytes_read(b, 385, e.min_base_amount_out);
    let p1: int = 393 + string_bytes(e.ix_name).len() as int;
    assert(b.subrange(393, p1) =~= string_bytes(e.ix_name));
    lemma_string_bytes_read(b, 393, e.ix_name);
    lemma_event_data(BUY_EVENT_DISCRIMINATOR@, b);
}

/// The Borsh encoding of a `SellEvent`: its fields in declaration order.
pub open spec fn sell_event_bytes(e: SpecSellEvent) -> Seq<u8> {
    i64_bytes(e.timestamp) + u64_bytes(e.base_amount_in) + u64_bytes(e.min_quote_amount_out) + u64_bytes(e.user_base_token_reserves) + u64_bytes(e.user_quote_token_reserves) + u64_bytes(e.pool_base_token_reserves) + u64_bytes(e.pool_quote_token_reserves) + u64_bytes(e.quote_amount_out) + u64_bytes(e.lp_fee_basis_points) + u64_bytes(e.lp_fee) + u64_bytes(e.protocol_fee_basis_points) + u64_bytes(e.protocol_fee) + u64_bytes(e.quote_amount_out_without_lp_fee) + u64_bytes(e.user_quote_amount_out) + e.pool + e.user + e.user_base_token_account + e.user_quote_token_account + e.protocol_fee_recipient + e.protocol_fee_recipient_token_account + e.coin_creator + u64_bytes(e.coin_creator_fee_basis_points) + u64_bytes(e.coin_creator_fee)
}

/// Decoding the data of a `SellEvent` (its discriminator, then its Borsh
/// encoding) gives that event back.
pub proof fn lemma_sell_event_round_trip(e: SpecSellEvent)
    requires
        e.pool.len() == 32,
        e.user.len() == 32,
        e.user_base_token_account.len() == 32,
        e.user_quote_token_account.len() == 32,
        e.protocol_fee_recipient.len() == 32,
        e.protocol_fee_recipient_token_account.len() == 32,
        e.coin_creator.len() == 32,
    ensures
        spec_sell_event_decoded(sell_event_bytes(e)) == Ok::<(SpecSellEvent, int), SpecBorshFailure>(
            (e, sell_event_bytes(e).len() as int),
        ),
        spec_amm_event_parts(SELL_EVENT_DISCRIMINATOR@ + sell_event_bytes(e)) == Some(
            (SpecAmmEvent::Sell(e), sell_event_bytes(e).len() as int),
        ),
        spec_amm_event(SELL_EVENT_DISCRIMINATOR@ + sell_event_bytes(e)) == Some(SpecAmmEvent::Sell(e)),
{
    let b = sell_event_bytes(e);
    lemma_field_bytes_len();
    assert(b.subrange(0, 8) =~= i64_bytes(e.timestamp));
    lemma_i64_bytes_read(b, 0, e.timestamp);
    assert(b.subrange(8, 16) =~= u64_bytes(e.base_amount_in));
    lemma_u64_bytes_read(b, 8, e.base_amount_in);
    assert(b.subrange(16, 24) =~= u64_bytes(e.min_quote_amount_out));
    lemma_u64_bytes_read(b, 16, e.min_quote_amount_out);
    assert(b.subrange(24, 32) =~= u64_bytes(e.user_base_token_reserves));
    lemma_u64_bytes_read(b, 24, e.user_base_token_reserves);
    assert(b.subrange(32, 40) =~= u64_bytes(e.user_quote_token_reserves));
    lemma_u64_bytes_read(b, 32, e.user_quote_token_reserves);
    assert(b.subrange(40, 48) =~= u64_bytes(e.pool_base_token_reserves));
    lemma_u64_bytes_read(b, 40, e.pool_base_token_reserves);
    assert(b.subrange(48, 56) =~= u64_bytes(e.pool_quote_token_reserves));
    lemma_u64_bytes_read(b, 48, e.pool_quote_token_reserves);
    assert(b.subrange(56, 64) =~= u64_bytes(e.quote_amount_out));
    lemma_u64_bytes_read(b, 56, e.quote_amount_out);
    assert(b.subrange(64, 72) =~= u64_bytes(e.lp_fee_basis_points));
    lemma_u64_bytes_read(b, 64, e.lp_fee_basis_points);
    assert(b.subrange(72, 80) =~= u64_bytes(e.lp_fee));
    lemma_u64_bytes_read(b, 72, e.lp_fee);
    assert(b.subrange(80, 88) =~= u64_bytes(e.protocol_fee_basis_points));
    lemma_u64_bytes_read(b, 80, e.protocol_fee_basis_points);
    assert(b.subrange(88, 96) =~= u64_bytes(e.protocol_fee));
    lemma_u64_bytes_read(b, 88, e.protocol_fee);
    assert(b.subrange(96, 104) =~= u64_bytes(e.quote_amount_out_without_lp_fee));
    lemma_u64_bytes_read(b, 96, e.quote_amount_out_without_lp_fee);
    assert(b.subrange(104, 112) =~= u64_bytes(e.user_quote_amount_out));
    lemma_u64_bytes_read(b, 104, e.user_quote_amount_out);
    assert(b.subrange(112, 144) =~= e.pool);
    assert(b.subrange(144, 176) =~= e.user);
    assert(b.subrange(176, 208) =~= e.user_base_token_account);
    assert(b.subrange(208, 240) =~= e.user_quote_token_account);
    assert(b.subrange(240, 272) =~= e.protocol_fee_recipient);
    assert(b.subrange(272, 304) =~= e.protocol_fee_recipient_token_account);
    assert(b.subrange(304, 336) =~= e.coin_creator);
    assert(b.subrange(336, 344) =~= u64_bytes(e.coin_creator_fee_basis_points));
    lemma_u64_bytes_read(b, 336, e.coin_creator_fee_basis_points);
    assert(b.subrange(344, 352) =~= u64_bytes(e.coin_creator_fee));
    lemma_u64_bytes_read(b, 344, e.coin_creator_fee);
    lemma_event_data(SELL_EVENT_DISCRIMINATOR@, b);
}

/// What follows an event's body in its data.
#[derive(Debug, Clone, Copy, PartialEq, Eq)]
pub enum TrailingBytes {
    /// The body takes all the data.
    NoneLeft,
    /// Sixteen zero bytes: the padding the AMM program appends.
    ZeroPadding,
    /// Anything else.
    Unexpected,
}

/// How the bytes `rest` after an event's body are classified.
pub open spec fn trailing_of(rest: Seq<u8>) -> TrailingBytes {
    if rest.len() == 0 {
        TrailingBytes::NoneLeft
    } else if rest.len() == 16 && forall|i: int| 0 <= i < 16 ==> rest[i] == 0 {
        TrailingBytes::ZeroPadding
    } else {
        TrailingBytes::Unexpected
    }
}

/// Classifies the bytes left after an event's body.
pub fn classify_trailing(rest: &[u8]) -> (t: TrailingBytes)
    ensures
        t == trailing_of(rest@),
{
    if rest.len() == 0 {
        TrailingBytes::NoneLeft
    } else if is_zero_padding_16(rest) {
        TrailingBytes::ZeroPadding
    } else {
        TrailingBytes::Unexpected
    }
}

/// A decoded event's body ends within the data.
pub proof fn lemma_amm_event_parts_fit(bytes: Seq<u8>)
    ensures
        spec_amm_event_parts(bytes) matches Some((_, used)) ==> 0 <= used && 8 + used
            <= bytes.len(),
{
}

/// Bytes after an AMM event, such as the sixteen zero bytes of padding that
/// the program appends, do not change what the event data decode to.
pub proof fn lemma_amm_event_ignores_trailing_bytes(bytes: Seq<u8>, extra: Seq<u8>)
    requires
        spec_amm_event(bytes) is Some,
    ensures
        spec_amm_event(bytes + extra) == spec_amm_event(bytes),
{
    let body = bytes.skip(8);
    assert((bytes + extra).take(8) =~= bytes.take(8));
    assert((bytes + extra).skip(8) =~= body + extra);
    lemma_values_extend(body, extra);
}

/// The AMM event that a log line carries.
pub open spec fn spec_amm_log_event(line: Seq<char>) -> Option<SpecAmmEvent> {
    match program_data_bytes(line) {
        Some(bytes) => spec_amm_event(bytes),
        None => None,
    }
}

/// Decodes event data (the bytes a `Program data:` line carries) as an AMM
/// event, with the number of body bytes it takes.
pub fn decode_amm_event_parts(bytes: &[u8]) -> (r: Option<(AmmEvent, usize)>)
    ensures
        match spec_amm_event_parts(bytes@) {
            Some((e, used)) => r matches Some((ev, n)) && ev@ == e && n == used,
            None => r is None,
        },
{
    if bytes.len() < 8 {
        return None;
    }
    let body = vstd::slice::slice_subrange(bytes, 8, bytes.len());
    assert(body@ == bytes@.skip(8));
    if has_discriminator(bytes, &BUY_EVENT_DISCRIMINATOR) {
        match decode_buy_event(body) {
            Ok((e, n)) => Some((AmmEvent::Buy(e), n)),
            Err(_) => None,
        }
    } else if has_discriminator(bytes, &SELL_EVENT_DISCRIMINATOR) {
        match decode_sell_event(body) {
            Ok((e, n)) => Some((AmmEvent::Sell(e), n)),
            Err(_) => None,
        }
    } else {
        None
    }
}

/// Decodes event data as an AMM event.
pub fn decode_amm_event(bytes: &[u8]) -> (r: Option<AmmEvent>)
    ensures
        r is Some <==> spec_amm_event(bytes@) is Some,
        r matches Some(ev) ==> spec_amm_event(bytes@) == Some(ev@),
{
    match decode_amm_event_parts(bytes) {
        Some((ev, _)) => Some(ev),
        None => None,
    }
}

/// Decodes event data as an AMM event and classifies the bytes after its body
/// (none, the sixteen zero bytes of padding, or unexpected ones), for the
/// caller to report.
pub fn decode_amm_event_with_trailing(bytes: &[u8]) -> (r: Option<(AmmEvent, TrailingBytes)>)
    ensures
        match spec_amm_event_parts(bytes@) {
            Some((e, used)) => r matches Some((ev, t)) && ev@ == e && t == trailing_of(
                bytes@.skip(8 + used),
            ),
            None => r is None,
        },
{
    match decode_amm_event_parts(bytes) {
        Some((ev, used)) => {
            let len = bytes.len();
            proof {
                lemma_amm_event_parts_fit(bytes@);
            }
            assert(8 + used <= len);
            let rest = vstd::slice::slice_subrange(bytes, 8 + used, len);
            assert(rest@ == bytes@.skip(8 + used));
            Some((ev, classify_trailing(rest)))
        },
        None => None,
    }
}

/// Decodes the AMM event that a log line carries. Every line that does not
/// hold a well-formed buy or sell event gives `Ok(None)`; this never fails.
pub fn decode_amm_event_from_log(line: &str) -> (r: Result<Option<AmmEvent>, ParseError>)
    ensures
        r is Ok,
        r matches Ok(ev) ==> (ev is Some <==> spec_amm_log_event(line@) is Some),
        r matches Ok(Some(ev)) ==> spec_amm_log_event(line@) == Some(ev@),
{
    let (_text, bytes) = match program_data_of(line) {
        Some(p) => p,
        None => return Ok(None),
    };
    Ok(decode_amm_event(bytes.as_slice()))
}


/// A `SellEvent` cut off before its last byte does not decode: reading it
/// fails for want of bytes.
pub proof fn lemma_sell_event_truncated(e: SpecSellEvent, n: int)
    requires
        e.pool.len() == 32,
        e.user.len() == 32,
        e.user_base_token_account.len() == 32,
        e.user_quote_token_account.len() == 32,
        e.protocol_fee_recipient.len() == 32,
        e.protocol_fee_recipient_token_account.len() == 32,
        e.coin_creator.len() == 32,
        0 <= n < sell_event_bytes(e).len(),
    ensures
        spec_sell_event_decoded(sell_event_bytes(e).take(n)) == Err::<(SpecSellEvent, int), SpecBorshFailure>(
            SpecBorshFailure::UnexpectedLength,
        ),
        spec_amm_event_parts(SELL_EVENT_DISCRIMINATOR@ + sell_event_bytes(e).take(n)) is None,
{
    lemma_sell_event_round_trip(e);
    lemma_event_data(SELL_EVENT_DISCRIMINATOR@, sell_event_bytes(e).take(n));
}

/// A `BuyEvent` cut off before its last byte does not decode: reading it
/// fails for want of bytes.
pub proof fn lemma_buy_event_truncated(e: SpecBuyEvent, n: int)
    requires
        e.pool.len() == 32,
        e.user.len() == 32,
        e.user_base_token_account.len() == 32,
        e.user_quote_token_account.len() == 32,
        e.protocol_fee_recipient.len() == 32,
        e.protocol_fee_recipient_token_account.len() == 32,
        e.coin_creator.len() == 32,
        encodable_string(e.ix_name),
        0 <= n < buy_event_bytes(e).len(),
    ensures
        spec_buy_event_decoded(buy_event_bytes(e).take(n)) == Err::<(SpecBuyEvent, int), SpecBorshFailure>(
            SpecBorshFailure::UnexpectedLength,
        ),
        spec_amm_event_parts(BUY_EVENT_DISCRIMINATOR@ + buy_event_bytes(e).take(n)) is None,
{
    let b = buy_event_bytes(e);
    lemma_buy_event_round_trip(e);
    lemma_field_bytes_len();
    if n >= 393 {
        assert(b.subrange(393, b.len() as int) =~= string_bytes(e.ix_name));
        lemma_string_bytes_cut(b, 393, e.ix_name, n);
    }
    lemma_event_data(BUY_EVENT_DISCRIMINATOR@, b.take(n));
}

/// A `BuyEvent` whose `track_volume` byte is neither 0 nor 1 does not decode:
/// reading it fails on that byte.
pub proof fn lemma_buy_event_bad_bool(e: SpecBuyEvent, x: u8)
    requires
        e.pool.len() == 32,
        e.user.len() == 32,
        e.user_base_token_account.len() == 32,
        e.user_quote_token_account.len() == 32,
        e.protocol_fee_recipient.len() == 32,
        e.protocol_fee_recipient_token_account.len() == 32,
        e.coin_creator.len() == 32,
        encodable_string(e.ix_name),
        x > 1,
    ensures
        spec_buy_event_decoded(buy_event_bytes(e).update(352, x)) == Err::<
            (SpecBuyEvent, int),
            SpecBorshFailure,
        >(SpecBorshFailure::InvalidBool(x)),
        spec_amm_event_parts(BUY_EVENT_DISCRIMINATOR@ + buy_event_bytes(e).update(352, x)) is None,
{
    lemma_buy_event_round_trip(e);
    lemma_event_data(BUY_EVENT_DISCRIMINATOR@, buy_event_bytes(e).update(352, x));
}

} // verus!
