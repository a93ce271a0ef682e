use base64::Engine;
use pump_decode::decode::amm::{
    ascii_preview, classify_trailing, decode_amm_event, decode_amm_event_from_log,
    decode_amm_event_with_trailing, is_zero_padding_16, TrailingBytes, BUY_EVENT_DISCRIMINATOR,
    SELL_EVENT_DISCRIMINATOR,
};
use pump_decode::decode::program_data::{program_data_of, program_data_text_of};
use pump_decode::decode::pump::{
    decode_pump_event, decode_pump_event_from_log, COLLECT_CREATORFEE_EVENT_DISCRIMINATOR,
    COMPLETE_EVENT_DISCRIMINATOR, COMPLETE_PUMPAMM_MIGRATION_EVENT_DISCRIMINATOR,
    CREATE_EVENT_DISCRIMINATOR, SETMETAPLEX_CREATOR_EVENT_DISCRIMINATOR, TRADE_EVENT_DISCRIMINATOR,
};
use pump_decode::decode::borsh::BorshFailure;
use pump_decode::error::ParseError;
use pump_decode::types::amm_events::AmmEvent;
use pump_decode::types::pubkey_borsh::Pubkey;
use pump_decode::types::pump_events::{PumpEvent, PumpEventKind};

fn key(b: u8) -> [u8; 32] {
    [b; 32]
}

struct Body(Vec<u8>);

impl Body {
    fn new(disc: [u8; 8]) -> Body {
        Body(disc.to_vec())
    }
    fn u64(mut self, v: u64) -> Body {
        self.0.extend(borsh::to_vec(&v).unwrap());
        self
    }
    fn i64(mut self, v: i64) -> Body {
        self.0.extend(borsh::to_vec(&v).unwrap());
        self
    }
    fn bool(mut self, v: bool) -> Body {
        self.0.extend(borsh::to_vec(&v).unwrap());
        self
    }
    fn key(mut self, k: [u8; 32]) -> Body {
        self.0.extend(borsh::to_vec(&k).unwrap());
        self
    }
    fn string(mut self, s: &str) -> Body {
        self.0.extend(borsh::to_vec(&s.to_string()).unwrap());
        self
    }
    fn raw(mut self, bytes: &[u8]) -> Body {
        self.0.extend_from_slice(bytes);
        self
    }
    fn line(&self) -> String {
        format!("Program data: {}", base64::engine::general_purpose::STANDARD.encode(&self.0))
    }
}

fn trade_body(ix_name: &str) -> Body {
    Body::new(TRADE_EVENT_DISCRIMINATOR)
        .key(key(1))
        .u64(1_000_000)
        .u64(2_000_000)
        .bool(true)
        .key(key(2))
        .i64(1_700_000_000)
        .u64(30)
        .u64(40)
        .u64(50)
        .u64(60)
        .key(key(3))
        .u64(95)
        .u64(9_500)
        .key(key(4))
        .u64(5)
        .u64(500)
        .bool(false)
        .u64(7)
        .u64(8)
        .u64(9)
        .i64(-1)
        .string(ix_name)
}

fn buy_body(ix_name: &str) -> Body {
    let mut b = Body::new(BUY_EVENT_DISCRIMINATOR).i64(1_700_000_001);
    for v in 1..=13u64 {
        b = b.u64(v * 100);
    }
    b = b.key(key(10)).key(key(11));
    for k in 12..=16u8 {
        b = b.key(key(k));
    }
    b.u64(30).u64(3_000).bool(true).u64(1).u64(2).u64(3).i64(4).u64(5).string(ix_name)
}

fn sell_body() -> Body {
    let mut b = Body::new(SELL_EVENT_DISCRIMINATOR).i64(42);
    for v in 1..=13u64 {
        b = b.u64(v);
    }
    b = b.key(key(20)).key(key(21));
    for k in 22..=26u8 {
        b = b.key(key(k));
    }
    b.u64(25).u64(250)
}

#[test]
fn trade_event_decodes_every_field() {
    let line = trade_body("buy").line();
    match decode_pump_event_from_log(&line) {
        Ok(Some(PumpEvent::Trade(ev))) => {
            assert_eq!(ev.mint, Pubkey(key(1)));
            assert_eq!(ev.sol_amount, 1_000_000);
            assert_eq!(ev.token_amount, 2_000_000);
            assert!(ev.is_buy);
            assert_eq!(ev.user, Pubkey(key(2)));
            assert_eq!(ev.timestamp, 1_700_000_000);
            assert_eq!(ev.virtual_sol_reserves, 30);
            assert_eq!(ev.virtual_token_reserves, 40);
            assert_eq!(ev.real_sol_reserves, 50);
            assert_eq!(ev.real_token_reserves, 60);
            assert_eq!(ev.fee_recipient, Pubkey(key(3)));
            assert_eq!(ev.fee_basis_points, 95);
            assert_eq!(ev.fee, 9_500);
            assert_eq!(ev.creator, Pubkey(key(4)));
            assert_eq!(ev.creator_fee_basis_points, 5);
            assert_eq!(ev.creator_fee, 500);
            assert!(!ev.track_volume);
            assert_eq!(ev.total_unclaimed_tokens, 7);
            assert_eq!(ev.total_claimed_tokens, 8);
            assert_eq!(ev.current_sol_volume, 9);
            assert_eq!(ev.last_update_timestamp, -1);
            assert_eq!(ev.ix_name, "buy");
        },
        other => panic!("unexpected {:?}", other),
    }
}

#[test]
fn create_event_decodes_strings_and_fields() {
    let line = Body::new(CREATE_EVENT_DISCRIMINATOR)
        .string("Token ✓")
        .string("TKN")
        .string("https://example.org/t.json")
        .key(key(5))
        .key(key(6))
        .key(key(7))
        .key(key(8))
        .i64(123)
        .u64(1)
        .u64(2)
        .u64(3)
        .u64(1_000_000_000)
        .line();
    match decode_pump_event_from_log(&line) {
        Ok(Some(PumpEvent::Create(ev))) => {
            assert_eq!(ev.name, "Token ✓");
            assert_eq!(ev.symbol, "TKN");
            assert_eq!(ev.uri, "https://example.org/t.json");
            assert_eq!(ev.mint, Pubkey(key(5)));
            assert_eq!(ev.bonding_curve, Pubkey(key(6)));
            assert_eq!(ev.user, Pubkey(key(7)));
            assert_eq!(ev.creator, Pubkey(key(8)));
            assert_eq!(ev.timestamp, 123);
            assert_eq!(ev.virtual_token_reserves, 1);
            assert_eq!(ev.virtual_sol_reserves, 2);
            assert_eq!(ev.real_token_reserves, 3);
            assert_eq!(ev.token_total_supply, 1_000_000_000);
        },
        other => panic!("unexpected {:?}", other),
    }
}

#[test]
fn small_pump_events_decode() {
    let set = Body::new(SETMETAPLEX_CREATOR_EVENT_DISCRIMINATOR)
        .key(key(1))
        .key(key(2))
        .key(key(3))
        .key(key(4))
        .i64(9)
        .line();
    match decode_pump_event_from_log(&set) {
        Ok(Some(PumpEvent::SetMetaplexCreator(ev))) => {
            assert_eq!(ev.metadata, Pubkey(key(3)));
            assert_eq!(ev.timestamp, 9);
        },
        other => panic!("unexpected {:?}", other),
    }
    let migration = Body::new(COMPLETE_PUMPAMM_MIGRATION_EVENT_DISCRIMINATOR)
        .key(key(1))
        .key(key(2))
        .u64(3)
        .u64(4)
        .u64(5)
        .key(key(6))
        .i64(7)
        .key(key(8))
        .line();
    match decode_pump_event_from_log(&migration) {
        Ok(Some(PumpEvent::CompletePumpAmmMigration(ev))) => {
            assert_eq!(ev.mint_amount, 3);
            assert_eq!(ev.pool_migration_fee, 5);
            assert_eq!(ev.pool, Pubkey(key(8)));
        },
        other => panic!("unexpected {:?}", other),
    }
    let complete =
        Body::new(COMPLETE_EVENT_DISCRIMINATOR).key(key(1)).key(key(2)).key(key(3)).i64(4).line();
    match decode_pump_event_from_log(&complete) {
        Ok(Some(PumpEvent::Complete(ev))) => {
            assert_eq!(ev.bonding_curve, Pubkey(key(3)));
            assert_eq!(ev.timestamp, 4);
        },
        other => panic!("unexpected {:?}", other),
    }
    let fee = Body::new(COLLECT_CREATORFEE_EVENT_DISCRIMINATOR).i64(11).key(key(9)).u64(77).line();
    match decode_pump_event_from_log(&fee) {
        Ok(Some(PumpEvent::CollectCreatorFee(ev))) => {
            assert_eq!(ev.timestamp, 11);
            assert_eq!(ev.creator, Pubkey(key(9)));
            assert_eq!(ev.creator_fee, 77);
        },
        other => panic!("unexpected {:?}", other),
    }
}

#[test]
fn pump_body_that_does_not_decode_is_an_error() {
    // A truncated collect-creator-fee body: 8 + 32 bytes instead of 48.
    let body = Body::new(COLLECT_CREATORFEE_EVENT_DISCRIMINATOR).i64(11).key(key(9));
    let text = base64::engine::general_purpose::STANDARD.encode(&body.0);
    match decode_pump_event_from_log(&body.line()) {
        Err(ParseError::EventDecode { event, payload_len, base64_prefix, reason }) => {
            assert_eq!(event, PumpEventKind::CollectCreatorFee);
            assert_eq!(event.name(), "CollectCreatorFeeEvent");
            assert_eq!(payload_len, 40);
            assert_eq!(base64_prefix, text);
            assert_eq!(reason, BorshFailure::UnexpectedLength);
        },
        other => panic!("unexpected {:?}", other),
    }
}

#[test]
fn invalid_bool_byte_is_an_error_and_the_prefix_is_cut_at_80() {
    let mut body = trade_body("sell");
    body.0[8 + 48] = 2;
    let text = base64::engine::general_purpose::STANDARD.encode(&body.0);
    match decode_pump_event_from_log(&body.line()) {
        Err(e) => {
            let message = e.message();
            match e {
                ParseError::EventDecode { event, payload_len, base64_prefix, reason } => {
                    assert_eq!(event, PumpEventKind::Trade);
                    assert_eq!(payload_len, body.0.len() - 8);
                    assert_eq!(base64_prefix, &text[..80]);
                    assert_eq!(reason, BorshFailure::InvalidBool(2));
                    assert_eq!(
                        message,
                        format!(
                            "borsh decode failed for TradeEvent: Invalid bool representation: 2; payload_len={}; base64_prefix={}",
                            body.0.len() - 8,
                            &text[..80]
                        )
                    );
                },
                other => panic!("unexpected {:?}", other),
            }
        },
        other => panic!("unexpected {:?}", other),
    }
}

#[test]
fn invalid_utf8_in_a_string_is_an_error() {
    let mut bytes = trade_body("").0;
    let n = bytes.len();
    bytes.truncate(n - 4);
    bytes.extend_from_slice(&[2, 0, 0, 0, 0xff, 0xfe]);
    match decode_pump_event(&bytes, "AAAA") {
        Err(ParseError::EventDecode { event, base64_prefix, reason, .. }) => {
            assert_eq!(event, PumpEventKind::Trade);
            assert_eq!(base64_prefix, "AAAA");
            let expected = String::from_utf8(vec![0xff, 0xfe]).unwrap_err().to_string();
            assert_eq!(reason, BorshFailure::InvalidUtf8(expected.clone()));
            assert_eq!(reason.text(), expected);
        },
        other => panic!("unexpected {:?}", other),
    }
}

#[test]
fn lines_without_events_give_nothing() {
    assert!(matches!(decode_pump_event_from_log("Program log: Instruction: Buy"), Ok(None)));
    assert!(matches!(decode_pump_event_from_log("Program data: Synopsis abc"), Ok(None)));
    assert!(matches!(decode_pump_event_from_log("Program data: !!!not base64!!!"), Ok(None)));
    // Shorter than a discriminator.
    assert!(matches!(decode_pump_event_from_log("Program data: AQID"), Ok(None)));
    // Unknown discriminator.
    let unknown = Body::new([1, 2, 3, 4, 5, 6, 7, 8]).u64(1).line();
    assert!(matches!(decode_pump_event_from_log(&unknown), Ok(None)));
    assert!(matches!(decode_amm_event_from_log(&unknown), Ok(None)));
    // A pump event is no AMM event, and the other way round.
    assert!(matches!(decode_amm_event_from_log(&trade_body("buy").line()), Ok(None)));
    assert!(matches!(decode_pump_event_from_log(&sell_body().line()), Ok(None)));
}

#[test]
fn surrounding_white_space_is_trimmed() {
    let line = format!("{} \t\r\n", trade_body("buy").line());
    assert!(matches!(decode_pump_event_from_log(&line), Ok(Some(PumpEvent::Trade(_)))));
    let text = base64::engine::general_purpose::STANDARD.encode(&trade_body("buy").0);
    let spaced = format!("Program data: \u{3000} {text}\u{a0}");
    assert_eq!(program_data_text_of(&spaced), Some(text.as_str()));
    assert_eq!(program_data_text_of("program data: AAAA"), None);
    assert_eq!(program_data_text_of("Program data: Synopsis x"), None);
    assert_eq!(program_data_text_of("Program data: Synopsis "), Some("Synopsis"));
    assert!(program_data_of("Program data: AAAA").is_some());
    assert!(program_data_of("Program data: AAA").is_none());
}

#[test]
fn buy_and_sell_events_decode() {
    match decode_amm_event_from_log(&buy_body("buy_exact_quote_in").line()) {
        Ok(Some(AmmEvent::Buy(ev))) => {
            assert_eq!(ev.timestamp, 1_700_000_001);
            assert_eq!(ev.base_amount_out, 100);
            assert_eq!(ev.user_quote_amount_in, 1_300);
            assert_eq!(ev.pool, Pubkey(key(10)));
            assert_eq!(ev.user, Pubkey(key(11)));
            assert_eq!(ev.coin_creator, Pubkey(key(16)));
            assert_eq!(ev.coin_creator_fee, 3_000);
            assert!(ev.track_volume);
            assert_eq!(ev.last_update_timestamp, 4);
            assert_eq!(ev.min_base_amount_out, 5);
            assert_eq!(ev.ix_name, "buy_exact_quote_in");
        },
        other => panic!("unexpected {:?}", other),
    }
    match decode_amm_event_from_log(&sell_body().line()) {
        Ok(Some(AmmEvent::Sell(ev))) => {
            assert_eq!(ev.timestamp, 42);
            assert_eq!(ev.base_amount_in, 1);
            assert_eq!(ev.user_quote_amount_out, 13);
            assert_eq!(ev.pool, Pubkey(key(20)));
            assert_eq!(ev.user, Pubkey(key(21)));
            assert_eq!(ev.coin_creator_fee_basis_points, 25);
            assert_eq!(ev.coin_creator_fee, 250);
        },
        other => panic!("unexpected {:?}", other),
    }
}

#[test]
fn amm_padding_does_not_change_the_event() {
    let plain = decode_amm_event(&sell_body().0);
    let padded = decode_amm_event(&sell_body().raw(&[0u8; 16]).0);
    assert!(plain.is_some());
    assert_eq!(plain, padded);
    let plain = decode_amm_event(&buy_body("buy").0);
    let padded = decode_amm_event(&buy_body("buy").raw(&[0u8; 16]).0);
    assert!(plain.is_some());
    assert_eq!(plain, padded);
}

#[test]
fn truncated_amm_event_gives_nothing() {
    let mut bytes = sell_body().0;
    bytes.pop();
    assert_eq!(decode_amm_event(&bytes), None);
    let line = format!(
        "Program data: {}",
        base64::engine::general_purpose::STANDARD.encode(&bytes)
    );
    assert!(matches!(decode_amm_event_from_log(&line), Ok(None)));
}

#[test]
fn zero_padding_of_sixteen_bytes() {
    assert!(is_zero_padding_16(&[0u8; 16]));
    assert!(!is_zero_padding_16(&[0u8; 15]));
    assert!(!is_zero_padding_16(&[0u8; 17]));
    let mut bytes = [0u8; 16];
    bytes[15] = 1;
    assert!(!is_zero_padding_16(&bytes));
}

#[test]
fn ascii_preview_masks_and_cuts() {
    assert_eq!(ascii_preview(b"ab\x00c\xffd", 10), "ab.c.d");
    assert_eq!(ascii_preview(b"hello world", 5), "hello");
    assert_eq!(ascii_preview(b"", 5), "");
    assert_eq!(ascii_preview(b" ~\x1f\x7f", 4), " ~..");
}

#[test]
fn pubkey_text_is_base58() {
    assert_eq!(Pubkey([0u8; 32]).to_string(), "11111111111111111111111111111111");
    let mut bytes = [0u8; 32];
    bytes[31] = 1;
    assert_eq!(Pubkey(bytes).to_string(), "11111111111111111111111111111112");
}

#[test]
fn discriminator_alone_gives_the_decode_message() {
    // The Base64 text of the trade-event discriminator with an empty payload.
    let e = decode_pump_event_from_log("Program data: vdt/007mYe4=").unwrap_err();
    assert_eq!(
        e.message(),
        "borsh decode failed for TradeEvent: Unexpected length of input; payload_len=0; base64_prefix=vdt/007mYe4="
    );
    assert!(matches!(
        e,
        ParseError::EventDecode { event: PumpEventKind::Trade, payload_len: 0, .. }
    ));
}

#[test]
fn failure_texts_match_borsh() {
    let short = <u64 as borsh::BorshDeserialize>::deserialize(&mut &[1u8, 2, 3][..]).unwrap_err();
    assert_eq!(BorshFailure::UnexpectedLength.text(), short.to_string());
    let bad_bool = <bool as borsh::BorshDeserialize>::deserialize(&mut &[2u8][..]).unwrap_err();
    assert_eq!(BorshFailure::InvalidBool(2).text(), bad_bool.to_string());
    assert_eq!(BorshFailure::InvalidBool(255).text(), "Invalid bool representation: 255");
    let bad_str =
        <String as borsh::BorshDeserialize>::deserialize(&mut &[2u8, 0, 0, 0, 0xff, 0xfe][..])
            .unwrap_err();
    let utf8 = String::from_utf8(vec![0xff, 0xfe]).unwrap_err().to_string();
    assert_eq!(BorshFailure::InvalidUtf8(utf8.clone()).text(), bad_str.to_string());
}

#[test]
fn base58_error_has_a_message() {
    let e = ParseError::InvalidBase58(bs58::decode("0").into_vec().unwrap_err());
    assert!(!e.message().is_empty());
    assert_eq!(e.message(), bs58::decode("0").into_vec().unwrap_err().to_string());
}

#[test]
fn trailing_bytes_are_classified() {
    let plain = sell_body().0;
    match decode_amm_event_with_trailing(&plain) {
        Some((AmmEvent::Sell(_), t)) => assert_eq!(t, TrailingBytes::NoneLeft),
        other => panic!("unexpected {:?}", other),
    }
    let mut padded = sell_body().0;
    padded.extend_from_slice(&[0u8; 16]);
    match decode_amm_event_with_trailing(&padded) {
        Some((AmmEvent::Sell(_), t)) => assert_eq!(t, TrailingBytes::ZeroPadding),
        other => panic!("unexpected {:?}", other),
    }
    let mut odd = sell_body().0;
    odd.extend_from_slice(&[0u8, 1, 2]);
    match decode_amm_event_with_trailing(&odd) {
        Some((AmmEvent::Sell(_), t)) => assert_eq!(t, TrailingBytes::Unexpected),
        other => panic!("unexpected {:?}", other),
    }
    assert!(decode_amm_event_with_trailing(&[1, 2, 3]).is_none());
    assert_eq!(classify_trailing(&[]), TrailingBytes::NoneLeft);
    assert_eq!(classify_trailing(&[0u8; 16]), TrailingBytes::ZeroPadding);
    assert_eq!(classify_trailing(&[0u8; 15]), TrailingBytes::Unexpected);
    let mut almost = [0u8; 16];
    almost[15] = 1;
    assert_eq!(classify_trailing(&almost), TrailingBytes::Unexpected);
}

#[test]
fn the_quoted_prefix_is_counted_in_bytes() {
    let body = Body::new(COLLECT_CREATORFEE_EVENT_DISCRIMINATOR).i64(11);
    let text = "é".repeat(50);
    match decode_pump_event(&body.0, &text) {
        Err(ParseError::EventDecode { base64_prefix, payload_len, .. }) => {
            assert_eq!(payload_len, 8);
            assert_eq!(base64_prefix, "é".repeat(40));
            assert_eq!(base64_prefix.len(), 80);
        },
        other => panic!("unexpected {:?}", other),
    }
    match decode_pump_event(&body.0, "ab") {
        Err(ParseError::EventDecode { base64_prefix, .. }) => assert_eq!(base64_prefix, "ab"),
        other => panic!("unexpected {:?}", other),
    }
}

#[test]
fn prefixes_are_matched_on_whole_characters() {
    assert_eq!(program_data_text_of("Program data: é ü"), Some("é ü"));
    assert_eq!(program_data_text_of("Program data:é"), None);
    assert_eq!(program_data_text_of("Program dataé"), None);
    assert_eq!(program_data_text_of("Program data: Synopsis é"), None);
    assert!(program_data_of("Program data: é").is_none());
}
