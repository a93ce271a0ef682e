use pump_decode::error::ParseError;
use pump_decode::idl::account_map::AccountMap;
use pump_decode::idl::collect::{
    collect_instructions, collect_program_instructions, find_program_index, get_accounts,
};
use pump_decode::idl::match_ix::{
    collect_contexts, find_idl_instruction, map_ix_accounts, match_and_collect, match_instruction,
};
use pump_decode::types::block_notification::{
    InnerInstructions, Instruction, LoadedAddresses, Message, Transaction, TransactionData,
    TransactionMeta,
};
use pump_decode::types::pump_idl::{IdlAccount, Instruction as IdlInstruction, PumpIdl};

const BUY_DISC: [u8; 8] = [102, 6, 61, 18, 1, 218, 235, 234];
const SELL_DISC: [u8; 8] = [51, 230, 133, 164, 1, 127, 131, 173];

fn ix(program: u8, accounts: Vec<u8>, data: &[u8]) -> Instruction {
    Instruction { program_id_index: program, accounts, data: bs58::encode(data).into_string() }
}

fn tx(keys: &[&str], writable: &[&str], readonly: &[&str], outer: Vec<Instruction>, inner: Option<Vec<InnerInstructions>>) -> Transaction {
    Transaction {
        transaction: TransactionData {
            signatures: vec!["sig".to_string()],
            message: Message {
                account_keys: keys.iter().map(|s| s.to_string()).collect(),
                instructions: outer,
            },
        },
        meta: TransactionMeta {
            err: None,
            log_messages: None,
            loaded_addresses: LoadedAddresses {
                writable: writable.iter().map(|s| s.to_string()).collect(),
                readonly: readonly.iter().map(|s| s.to_string()).collect(),
            },
            inner_instructions: inner,
        },
    }
}

fn slot(name: Option<&str>) -> IdlAccount {
    IdlAccount { name: name.map(|s| s.to_string()) }
}

fn idl() -> PumpIdl {
    PumpIdl {
        instructions: vec![
            IdlInstruction {
                name: "buy".to_string(),
                discriminator: BUY_DISC.to_vec(),
                accounts: vec![slot(Some("global")), slot(Some("mint")), slot(Some("user"))],
            },
            IdlInstruction {
                name: "sell".to_string(),
                discriminator: SELL_DISC.to_vec(),
                accounts: vec![slot(Some("mint")), slot(None), slot(Some("user"))],
            },
            IdlInstruction {
                name: "buy_again".to_string(),
                discriminator: BUY_DISC.to_vec(),
                accounts: vec![],
            },
        ],
    }
}

fn data(disc: [u8; 8], rest: &[u8]) -> Vec<u8> {
    let mut d = disc.to_vec();
    d.extend_from_slice(rest);
    d
}

#[test]
fn accounts_are_keys_then_writable_then_readonly() {
    let t = tx(&["a", "b"], &["c"], &["d", "e"], vec![], None);
    let all: Vec<&str> = get_accounts(&t).iter().map(|s| s.as_str()).collect();
    assert_eq!(all, vec!["a", "b", "c", "d", "e"]);
}

#[test]
fn program_index_is_the_first_occurrence() {
    let t = tx(&["a", "prog"], &["prog"], &["z"], vec![], None);
    assert_eq!(find_program_index(&t, "prog"), Some(1));
    assert_eq!(find_program_index(&t, "z"), Some(3));
    assert_eq!(find_program_index(&t, "missing"), None);
    assert_eq!(find_program_index(&t, "pro"), None);
}

#[test]
fn program_index_past_255_is_not_found() {
    let mut keys: Vec<String> = (0..300).map(|i| format!("k{i}")).collect();
    keys[255] = "at255".to_string();
    keys[256] = "at256".to_string();
    let refs: Vec<&str> = keys.iter().map(|s| s.as_str()).collect();
    let t = tx(&refs, &[], &[], vec![], None);
    assert_eq!(find_program_index(&t, "at255"), Some(255));
    assert_eq!(find_program_index(&t, "at256"), None);
}

#[test]
fn program_instructions_are_filtered_in_order() {
    let outer = vec![ix(1, vec![0], b"a"), ix(2, vec![], b"b"), ix(1, vec![1], b"c")];
    let inner = vec![
        InnerInstructions { index: 0, instructions: vec![ix(1, vec![], b"d"), ix(3, vec![], b"e")] },
        InnerInstructions { index: 2, instructions: vec![ix(1, vec![], b"f")] },
    ];
    let t = tx(&["x", "prog"], &[], &[], outer, Some(inner));
    let (o, i) = collect_program_instructions(&t, 1);
    let od: Vec<&str> = o.iter().map(|ix| ix.data.as_str()).collect();
    let id: Vec<&str> = i.iter().map(|ix| ix.data.as_str()).collect();
    assert_eq!(od, vec![bs58::encode(b"a").into_string(), bs58::encode(b"c").into_string()]);
    assert_eq!(id, vec![bs58::encode(b"d").into_string(), bs58::encode(b"f").into_string()]);
    let t2 = tx(&["x"], &[], &[], vec![ix(1, vec![], b"a")], None);
    let (o2, i2) = collect_program_instructions(&t2, 1);
    assert_eq!(o2.len(), 1);
    assert!(i2.is_empty());
}

#[test]
fn collect_instructions_needs_the_program() {
    let t = tx(&["x", "prog"], &[], &[], vec![ix(1, vec![], b"a"), ix(0, vec![], b"b")], None);
    let (o, i) = collect_instructions(&t, "prog").unwrap();
    assert_eq!(o.len(), 1);
    assert!(i.is_empty());
    assert!(collect_instructions(&t, "other").is_none());
}

#[test]
fn accounts_are_mapped_by_idl_name() {
    let t = tx(&["g", "m", "u"], &["w"], &[], vec![], None);
    let idl = idl();
    let i = ix(9, vec![0, 1, 3], &data(BUY_DISC, &[]));
    let mapped = map_ix_accounts(&t, &i, &idl.instructions[0]);
    assert_eq!(
        mapped,
        vec![
            ("global".to_string(), "g".to_string()),
            ("mint".to_string(), "m".to_string()),
            ("user".to_string(), "w".to_string()),
        ]
    );
    // Missing index and out-of-range index are skipped; unnamed slots are "<unknown>".
    let i = ix(9, vec![1, 7], &data(SELL_DISC, &[]));
    let mapped = map_ix_accounts(&t, &i, &idl.instructions[1]);
    assert_eq!(mapped, vec![("mint".to_string(), "m".to_string())]);
    let i = ix(9, vec![1, 2, 2], &data(SELL_DISC, &[]));
    let mapped = map_ix_accounts(&t, &i, &idl.instructions[1]);
    assert_eq!(
        mapped,
        vec![
            ("mint".to_string(), "m".to_string()),
            ("<unknown>".to_string(), "u".to_string()),
            ("user".to_string(), "u".to_string()),
        ]
    );
}

#[test]
fn instructions_match_by_discriminator() {
    let idl = idl();
    let i = ix(0, vec![], &data(SELL_DISC, &[1, 2, 3]));
    match match_instruction(&i, &idl) {
        Ok(Some((found, decoded))) => {
            assert_eq!(found.name, "sell");
            assert_eq!(decoded, data(SELL_DISC, &[1, 2, 3]));
        },
        other => panic!("unexpected {:?}", other.map(|o| o.map(|(f, d)| (f.name.clone(), d)))),
    }
    // The first IDL instruction with the discriminator wins.
    let i = ix(0, vec![], &data(BUY_DISC, &[]));
    assert_eq!(match_instruction(&i, &idl).unwrap().unwrap().0.name, "buy");
    // Too short, or unknown discriminator.
    assert!(match_instruction(&ix(0, vec![], &[1, 2, 3]), &idl).unwrap().is_none());
    assert!(match_instruction(&ix(0, vec![], &[9; 8]), &idl).unwrap().is_none());
    // Not Base58.
    let bad = Instruction { program_id_index: 0, accounts: vec![], data: "0OIl".to_string() };
    assert!(match_instruction(&bad, &idl).is_err());
    assert_eq!(find_idl_instruction(&data(SELL_DISC, &[]), &idl).unwrap().name, "sell");
    assert!(find_idl_instruction(&SELL_DISC[..7], &idl).is_none());
}

#[test]
fn contexts_carry_name_label_and_accounts() {
    let t = tx(&["g", "m", "u"], &[], &[], vec![], None);
    let idl = idl();
    let i = ix(0, vec![0, 1, 2], &data(BUY_DISC, &[]));
    let ctx = match_and_collect(&t, &i, &idl, "L".to_string(), 4, true).unwrap().unwrap();
    assert_eq!(ctx.ix_name, "buy");
    assert_eq!(ctx.label, "L");
    assert_eq!(ctx.ix_index, 4);
    assert!(ctx.is_inner);
    assert_eq!(ctx.accounts.get("mint").map(|s| s.as_str()), Some("m"));
    assert_eq!(ctx.accounts.get("user").map(|s| s.as_str()), Some("u"));
    assert_eq!(ctx.accounts.get("nobody"), None);
    let unknown = ix(0, vec![], &[7; 8]);
    assert!(match_and_collect(&t, &unknown, &idl, "L".to_string(), 0, false).unwrap().is_none());
    let bad = Instruction { program_id_index: 0, accounts: vec![], data: "l".to_string() };
    assert!(matches!(
        match_and_collect(&t, &bad, &idl, "L".to_string(), 0, false),
        Err(ParseError::InvalidBase58(_))
    ));
}

#[test]
fn later_accounts_of_the_same_name_win() {
    let mut m = AccountMap::new();
    m.insert("a".to_string(), "1".to_string());
    m.insert("b".to_string(), "2".to_string());
    m.insert("a".to_string(), "3".to_string());
    assert_eq!(m.get("a").map(|s| s.as_str()), Some("3"));
    assert_eq!(m.get("b").map(|s| s.as_str()), Some("2"));
    assert_eq!(m.get("c"), None);
    let copy = m.clone();
    assert_eq!(copy.get("a").map(|s| s.as_str()), Some("3"));
    assert_eq!(copy.pairs().len(), 2);
    assert_eq!(
        copy.pairs().clone(),
        vec![("a".to_string(), "3".to_string()), ("b".to_string(), "2".to_string())]
    );
}

#[test]
fn account_pairs_come_in_name_order() {
    let mut m = AccountMap::new();
    for (n, a) in [("user", "u"), ("mint", "m"), ("global", "g"), ("mint", "m2"), ("a", "x")] {
        m.insert(n.to_string(), a.to_string());
    }
    let names: Vec<&str> = m.pairs().iter().map(|(n, _)| n.as_str()).collect();
    assert_eq!(names, vec!["a", "global", "mint", "user"]);
    assert_eq!(m.get("mint").map(|s| s.as_str()), Some("m2"));
}

#[test]
fn contexts_are_outer_then_inner_with_labels() {
    let t = tx(&["g", "m", "u"], &[], &[], vec![], None);
    let idl = idl();
    let o0 = ix(0, vec![0, 1, 2], &data(BUY_DISC, &[]));
    let o1 = ix(0, vec![], &[5; 8]);
    let o2 = ix(0, vec![1, 0, 2], &data(SELL_DISC, &[]));
    let i0 = ix(0, vec![], &data(SELL_DISC, &[]));
    let ctxs = collect_contexts(&t, &idl, &[&o0, &o1, &o2], &[&i0], 12).unwrap();
    let labels: Vec<&str> = ctxs.iter().map(|c| c.label.as_str()).collect();
    assert_eq!(labels, vec!["tx #12 outer #0", "tx #12 outer #2", "tx #12 inner #0"]);
    let names: Vec<&str> = ctxs.iter().map(|c| c.ix_name.as_str()).collect();
    assert_eq!(names, vec!["buy", "sell", "sell"]);
    assert_eq!(ctxs[1].ix_index, 2);
    assert!(!ctxs[1].is_inner);
    assert!(ctxs[2].is_inner);
    let bad = Instruction { program_id_index: 0, accounts: vec![], data: "0".to_string() };
    assert!(collect_contexts(&t, &idl, &[&o0], &[&bad], 0).is_err());
    assert!(collect_contexts(&t, &idl, &[], &[], 0).unwrap().is_empty());
}
