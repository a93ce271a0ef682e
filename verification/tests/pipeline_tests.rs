use base64::Engine;
use pump_decode::decode::amm::{BUY_EVENT_DISCRIMINATOR, SELL_EVENT_DISCRIMINATOR};
use pump_decode::decode::pump::{
    COLLECT_CREATORFEE_EVENT_DISCRIMINATOR, COMPLETE_EVENT_DISCRIMINATOR,
    CREATE_EVENT_DISCRIMINATOR, TRADE_EVENT_DISCRIMINATOR,
};
use pump_decode::extract::amm::extract_amm_block;
use pump_decode::extract::pump::extract_pump_block;
use pump_decode::idl::account_map::AccountMap;
use pump_decode::idl::match_ix::InstructionContext;
use pump_decode::join::join_amm::{join_amm_ix_and_events, AmmEventContext};
use pump_decode::join::join_pump::{join_pump_ix_and_events, EventContext};
use pump_decode::types::amm_events::{AmmEvent, SellEvent};
use pump_decode::types::block_notification::{
    Block, BlockNotification, BlockParams, BlockResult, BlockValue, Instruction, LoadedAddresses,
    Message, Transaction, TransactionData, TransactionMeta,
};
use pump_decode::types::pubkey_borsh::Pubkey;
use pump_decode::types::pump_events::{CollectCreatorFeeEvent, CompleteEvent, PumpEvent};
use pump_decode::types::pump_idl::{IdlAccount, Instruction as IdlInstruction, PumpIdl};

const IX_BUY: [u8; 8] = [102, 6, 61, 18, 1, 218, 235, 234];
const IX_SELL: [u8; 8] = [51, 230, 133, 164, 1, 127, 131, 173];
const IX_CREATE: [u8; 8] = [24, 30, 200, 40, 5, 28, 7, 119];
const IX_MIGRATE: [u8; 8] = [155, 234, 231, 146, 236, 158, 162, 30];

fn b58(k: [u8; 32]) -> String {
    bs58::encode(k).into_string()
}

fn key(b: u8) -> [u8; 32] {
    [b; 32]
}

fn sell_event(pool: u8, user: u8) -> SellEvent {
    SellEvent {
        timestamp: 1,
        base_amount_in: 2,
        min_quote_amount_out: 3,
        user_base_token_reserves: 4,
        user_quote_token_reserves: 5,
        pool_base_token_reserves: 6,
        pool_quote_token_reserves: 7,
        quote_amount_out: 8,
        lp_fee_basis_points: 9,
        lp_fee: 10,
        protocol_fee_basis_points: 11,
        protocol_fee: 12,
        quote_amount_out_without_lp_fee: 13,
        user_quote_amount_out: 14,
        pool: Pubkey(key(pool)),
        user: Pubkey(key(user)),
        user_base_token_account: Pubkey(key(0)),
        user_quote_token_account: Pubkey(key(0)),
        protocol_fee_recipient: Pubkey(key(0)),
        protocol_fee_recipient_token_account: Pubkey(key(0)),
        coin_creator: Pubkey(key(0)),
        coin_creator_fee_basis_points: 0,
        coin_creator_fee: 0,
    }
}

fn context(name: &str, accounts: &[(&str, String)]) -> InstructionContext {
    let mut m = AccountMap::new();
    for (n, a) in accounts {
        m.insert(n.to_string(), a.clone());
    }
    InstructionContext {
        ix_name: name.to_string(),
        label: format!("label {name}"),
        ix_index: 0,
        is_inner: false,
        accounts: m,
    }
}

fn amm_ctx(log_index: usize, event: AmmEvent) -> AmmEventContext {
    AmmEventContext { signature: "s".to_string(), log_index, raw_log: "r".to_string(), event }
}

fn pump_ctx(log_index: usize, event: PumpEvent) -> EventContext {
    EventContext { signature: "s".to_string(), log_index, raw_log: "r".to_string(), event }
}

#[test]
fn sells_join_the_first_sell_instruction_with_their_pool_and_user() {
    let ixs = vec![
        context("buy", &[("pool", b58(key(1))), ("user", b58(key(2)))]),
        context("sell", &[("pool", b58(key(1))), ("user", b58(key(3)))]),
        context("sell", &[("pool", b58(key(1))), ("user", b58(key(2)))]),
        context("sell", &[("pool", b58(key(1))), ("user", b58(key(2))), ("x", "y".to_string())]),
    ];
    let events = vec![
        amm_ctx(0, AmmEvent::Sell(sell_event(1, 2))),
        amm_ctx(1, AmmEvent::Sell(sell_event(9, 2))),
        amm_ctx(2, AmmEvent::Sell(sell_event(1, 3))),
    ];
    let joined = join_amm_ix_and_events(&ixs, &events);
    assert_eq!(joined.len(), 2);
    assert_eq!(joined[0].event.log_index, 0);
    assert_eq!(joined[0].ix.accounts.get("user").unwrap(), &b58(key(2)));
    assert!(joined[0].ix.accounts.get("x").is_none());
    assert_eq!(joined[1].event.log_index, 2);
    assert_eq!(joined[1].ix.accounts.get("user").unwrap(), &b58(key(3)));
    assert!(join_amm_ix_and_events(&[], &events).is_empty());
    assert!(join_amm_ix_and_events(&ixs, &[]).is_empty());
}

#[test]
fn pump_events_join_by_kind() {
    let collect = CollectCreatorFeeEvent { timestamp: 0, creator: Pubkey(key(7)), creator_fee: 1 };
    let complete = CompleteEvent {
        user: Pubkey(key(1)),
        mint: Pubkey(key(2)),
        bonding_curve: Pubkey(key(3)),
        timestamp: 0,
    };
    let ixs = vec![
        context("complete", &[("user", b58(key(1))), ("mint", b58(key(2)))]),
        context("collect_creator_fee", &[("creator", b58(key(7)))]),
    ];
    let events = vec![
        pump_ctx(0, PumpEvent::Complete(complete)),
        pump_ctx(1, PumpEvent::CollectCreatorFee(collect)),
    ];
    let joined = join_pump_ix_and_events(&ixs, &events);
    assert_eq!(joined.len(), 1);
    assert_eq!(joined[0].ix.ix_name, "collect_creator_fee");
    assert_eq!(joined[0].event.log_index, 1);
    let wrong = vec![context("claim", &[("creator", b58(key(7)))])];
    assert!(join_pump_ix_and_events(&wrong, &events).is_empty());
}

struct Body(Vec<u8>);

impl Body {
    fn new(disc: [u8; 8]) -> Body {
        Body(disc.to_vec())
    }
    fn u64(mut self, v: u64) -> Body {
        self.0.extend(borsh::to_vec(&v).unwrap());
        self
    }
    fn i64(mut self, v: i64) -> Body {
        self.0.extend(borsh::to_vec(&v).unwrap());
        self
    }
    fn bool(mut self, v: bool) -> Body {
        self.0.extend(borsh::to_vec(&v).unwrap());
        self
    }
    fn key(mut self, k: [u8; 32]) -> Body {
        self.0.extend_from_slice(&k);
        self
    }
    fn string(mut self, s: &str) -> Body {
        self.0.extend(borsh::to_vec(&s.to_string()).unwrap());
        self
    }
    fn line(&self) -> String {
        format!("Program data: {}", base64::engine::general_purpose::STANDARD.encode(&self.0))
    }
}

fn trade_line(mint: u8, user: u8, ix_name: &str) -> String {
    Body::new(TRADE_EVENT_DISCRIMINATOR)
        .key(key(mint))
        .u64(1)
        .u64(2)
        .bool(true)
        .key(key(user))
        .i64(3)
        .u64(4)
        .u64(5)
        .u64(6)
        .u64(7)
        .key(key(0))
        .u64(8)
        .u64(9)
        .key(key(0))
        .u64(10)
        .u64(11)
        .bool(false)
        .u64(12)
        .u64(13)
        .u64(14)
        .i64(15)
        .string(ix_name)
        .line()
}

fn create_line(mint: u8, curve: u8, user: u8) -> String {
    Body::new(CREATE_EVENT_DISCRIMINATOR)
        .string("N")
        .string("S")
        .string("U")
        .key(key(mint))
        .key(key(curve))
        .key(key(user))
        .key(key(0))
        .i64(1)
        .u64(2)
        .u64(3)
        .u64(4)
        .u64(5)
        .line()
}

fn sell_line(pool: u8, user: u8) -> String {
    let mut b = Body::new(SELL_EVENT_DISCRIMINATOR).i64(42);
    for v in 1..=13u64 {
        b = b.u64(v);
    }
    b = b.key(key(pool)).key(key(user));
    for _ in 0..5 {
        b = b.key(key(0));
    }
    let mut bytes = b.u64(0).u64(0).0;
    bytes.extend_from_slice(&[0u8; 16]);
    format!("Program data: {}", base64::engine::general_purpose::STANDARD.encode(&bytes))
}

fn buy_line(pool: u8, user: u8, ix_name: &str) -> String {
    let mut b = Body::new(BUY_EVENT_DISCRIMINATOR).i64(1);
    for v in 1..=13u64 {
        b = b.u64(v);
    }
    b = b.key(key(pool)).key(key(user));
    for _ in 0..5 {
        b = b.key(key(0));
    }
    b.u64(0).u64(0).bool(true).u64(1).u64(2).u64(3).i64(4).u64(5).string(ix_name).line()
}

fn compiled(program: u8, accounts: Vec<u8>, disc: [u8; 8]) -> Instruction {
    Instruction { program_id_index: program, accounts, data: bs58::encode(disc).into_string() }
}

fn transaction(
    sig: &str,
    keys: Vec<String>,
    ixs: Vec<Instruction>,
    logs: Vec<String>,
    failed: bool,
) -> Transaction {
    Transaction {
        transaction: TransactionData {
            signatures: vec![sig.to_string()],
            message: Message { account_keys: keys, instructions: ixs },
        },
        meta: TransactionMeta {
            err: if failed { Some("InstructionError".to_string()) } else { None },
            log_messages: Some(logs),
            loaded_addresses: LoadedAddresses { writable: vec![], readonly: vec![] },
            inner_instructions: None,
        },
    }
}

fn block(slot: u64, txs: Vec<Transaction>) -> BlockNotification {
    BlockNotification {
        params: BlockParams {
            result: BlockResult { value: BlockValue { slot, block: Block { transactions: txs } } },
        },
    }
}

fn slot_names(names: &[&str]) -> Vec<IdlAccount> {
    names.iter().map(|n| IdlAccount { name: Some(n.to_string()) }).collect()
}

fn pump_idl() -> PumpIdl {
    PumpIdl {
        instructions: vec![
            IdlInstruction {
                name: "buy".to_string(),
                discriminator: IX_BUY.to_vec(),
                accounts: slot_names(&["mint", "user"]),
            },
            IdlInstruction {
                name: "create".to_string(),
                discriminator: IX_CREATE.to_vec(),
                accounts: slot_names(&["mint", "bonding_curve", "user"]),
            },
            IdlInstruction {
                name: "migrate".to_string(),
                discriminator: IX_MIGRATE.to_vec(),
                accounts: slot_names(&["user"]),
            },
        ],
    }
}

fn amm_idl() -> PumpIdl {
    PumpIdl {
        instructions: vec![
            IdlInstruction {
                name: "buy".to_string(),
                discriminator: IX_BUY.to_vec(),
                accounts: slot_names(&["pool", "user"]),
            },
            IdlInstruction {
                name: "sell".to_string(),
                discriminator: IX_SELL.to_vec(),
                accounts: slot_names(&["pool", "user"]),
            },
        ],
    }
}

#[test]
fn pump_block_joins_trades_and_creations_and_keeps_migrations() {
    let keys = vec![b58(key(1)), b58(key(2)), b58(key(3)), "PUMP".to_string()];
    let ok_tx = transaction(
        "sig-ok",
        keys.clone(),
        vec![
            compiled(3, vec![0, 2, 1], IX_CREATE),
            compiled(3, vec![0, 1], IX_BUY),
            compiled(3, vec![1], IX_MIGRATE),
            compiled(0, vec![], IX_BUY),
        ],
        vec![
            "Program PUMP invoke [1]".to_string(),
            create_line(1, 3, 2),
            trade_line(1, 2, "buy"),
            trade_line(1, 2, "sell"),
            "Program data: Synopsis x".to_string(),
        ],
        false,
    );
    let failed_tx = transaction(
        "sig-failed",
        keys.clone(),
        vec![compiled(3, vec![0, 1], IX_BUY)],
        vec![trade_line(1, 2, "buy")],
        true,
    );
    let other_tx = transaction(
        "sig-other",
        vec!["X".to_string()],
        vec![compiled(0, vec![], IX_BUY)],
        vec![trade_line(1, 2, "buy")],
        false,
    );
    let n = block(77, vec![failed_tx, ok_tx, other_tx]);
    let out = extract_pump_block(&n, &pump_idl(), "PUMP").unwrap();
    assert_eq!(out.slot, 77);
    assert_eq!(out.joined_actions.len(), 2);
    let create = &out.joined_actions[0];
    assert_eq!(create.ix.ix_name, "create");
    assert_eq!(create.ix.label, "tx #1 outer #0");
    assert_eq!(create.event.signature, "sig-ok");
    assert_eq!(create.event.log_index, 1);
    assert!(matches!(create.event.event, PumpEvent::Create(_)));
    let trade = &out.joined_actions[1];
    assert_eq!(trade.ix.ix_name, "buy");
    assert_eq!(trade.ix.label, "tx #1 outer #1");
    assert_eq!(trade.event.log_index, 2);
    assert_eq!(out.migrate_ix.len(), 1);
    assert_eq!(out.migrate_ix[0].label, "tx #1 outer #2");
    assert_eq!(out.migrate_ix[0].accounts.get("user").unwrap(), &b58(key(2)));
}

#[test]
fn amm_block_joins_buys_and_padded_sells() {
    let keys = vec![b58(key(4)), b58(key(5)), "AMM".to_string()];
    let t = transaction(
        "amm-sig",
        keys,
        vec![compiled(2, vec![0, 1], IX_SELL), compiled(2, vec![0, 1], IX_BUY)],
        vec![sell_line(4, 5), buy_line(4, 5, "buy"), buy_line(4, 5, "buy_exact_quote_in")],
        false,
    );
    let n = block(5, vec![t]);
    let out = extract_amm_block(&n, &amm_idl(), "AMM").unwrap();
    assert_eq!(out.slot, 5);
    assert_eq!(out.joined_actions.len(), 2);
    assert_eq!(out.joined_actions[0].ix.ix_name, "sell");
    assert_eq!(out.joined_actions[0].event.log_index, 0);
    assert_eq!(out.joined_actions[1].ix.ix_name, "buy");
    assert_eq!(out.joined_actions[1].event.log_index, 1);
    assert_eq!(out.joined_actions[1].event.raw_log, buy_line(4, 5, "buy"));
}

#[test]
fn empty_and_failed_blocks_yield_nothing() {
    let out = extract_amm_block(&block(1, vec![]), &amm_idl(), "AMM").unwrap();
    assert_eq!(out.slot, 1);
    assert!(out.joined_actions.is_empty());
    let failed = transaction(
        "f",
        vec![b58(key(4)), b58(key(5)), "AMM".to_string()],
        vec![compiled(2, vec![0, 1], IX_SELL)],
        vec![sell_line(4, 5)],
        true,
    );
    let out = extract_amm_block(&block(2, vec![failed]), &amm_idl(), "AMM").unwrap();
    assert!(out.joined_actions.is_empty());
    let out = extract_pump_block(&block(3, vec![]), &pump_idl(), "PUMP").unwrap();
    assert!(out.joined_actions.is_empty());
    assert!(out.migrate_ix.is_empty());
}

#[test]
fn transactions_with_bad_instruction_data_are_skipped() {
    let mut bad = compiled(1, vec![0], IX_BUY);
    bad.data = "0".to_string();
    let t = transaction(
        "bad",
        vec![b58(key(1)), "PUMP".to_string()],
        vec![bad],
        vec![trade_line(1, 1, "buy")],
        false,
    );
    let out = extract_pump_block(&block(9, vec![t]), &pump_idl(), "PUMP").unwrap();
    assert!(out.joined_actions.is_empty());
}
