use cookie_pool::error::ExchangeError;
use cookie_pool::exchange::{ensure_supported_action, seconds_of};
use cookie_pool::game::Game;
use cookie_pool::state::{ExchangeState, PoolState, UserAction};
use cookie_pool::status::GameStatus;
use cookie_pool::types::{CoinBalance, CoinId, InputCoin, OutPoint, Txid, Utxo};

const ORCH: &str = "orchestrator";
const POOL_ADDR: &str = "bc1pool";
const POOL_KEY: &str = "02pubkey";
const FEE: u64 = 10000;

fn txid(b: u8) -> Txid {
    Txid { bytes: [b; 32] }
}

fn outpoint_text(b: u8, vout: u32) -> String {
    format!("{}:{}", format!("{:02x}", b).repeat(32), vout)
}

fn utxo(b: u8, vout: u32, sats: u64) -> Utxo {
    Utxo { outpoint: OutPoint { txid: txid(b), vout }, sats }
}

fn fee_coin(value: u128, from: &str) -> InputCoin {
    InputCoin { coin: CoinBalance { id: CoinId::btc(), value }, from: from.to_string() }
}

/// A funded pool whose head is `(0xaa..:0, 100000)` at nonce 0.
fn funded_pool() -> ExchangeState {
    let mut es = ExchangeState::init(
        CoinId::rune(840000, 1),
        "COOKIE".to_string(),
        1000,
        FEE,
        60,
        5,
        100,
        ORCH.to_string(),
        "identity".to_string(),
    );
    es.init_key(POOL_KEY.to_string(), POOL_ADDR.to_string()).unwrap();
    es.deposit(
        utxo(0x11, 0, 546),
        CoinBalance { id: CoinId::rune(840000, 1), value: 100 },
        utxo(0xaa, 0, 100000),
        500,
    )
    .unwrap();
    es
}

fn head(es: &ExchangeState) -> &PoolState {
    es.states.last().unwrap()
}

/// Registers `who` with transaction `tx`, which spends the head and creates `tx:1`.
fn register(es: &mut ExchangeState, tx: u8, who: &str) -> Result<Utxo, ExchangeError> {
    let h = head(es).clone();
    let spend = format!(
        "{}:{}",
        format!("{:02x}", h.utxo.outpoint.txid.bytes[0]).repeat(32),
        h.utxo.outpoint.vout
    );
    let consumed = es.begin_register(
        &ORCH.to_string(),
        &POOL_ADDR.to_string(),
        txid(tx),
        h.nonce,
        vec![spend],
        vec![outpoint_text(tx, 1)],
        vec![fee_coin(FEE as u128, who)],
        vec![],
        who.to_string(),
    )?;
    es.complete_register(format!("principal-{}", who))?;
    Ok(consumed)
}

#[test]
fn register_advances_head_and_stale_nonce_is_refused() {
    let mut es = funded_pool();
    assert_eq!(es.status, GameStatus::Playing);
    let consumed = es
        .begin_register(
            &ORCH.to_string(),
            &POOL_ADDR.to_string(),
            txid(0xbb),
            0,
            vec![outpoint_text(0xaa, 0)],
            vec![outpoint_text(0xbb, 1)],
            vec![fee_coin(10000, "alice")],
            vec![],
            "alice".to_string(),
        )
        .unwrap();
    assert_eq!(consumed.sats, 100000);
    assert_eq!(consumed.outpoint.txid.bytes, [0xaa; 32]);
    es.complete_register("principal-alice".to_string()).unwrap();
    let h = head(&es);
    assert_eq!(h.nonce, 1);
    assert_eq!(h.utxo.sats, 110000);
    assert_eq!(h.utxo.outpoint.txid.bytes, [0xbb; 32]);
    assert_eq!(h.utxo.outpoint.vout, 1);
    assert!(matches!(&h.user_action, UserAction::Register(a) if a == "alice"));
    assert!(es.game.get(&"alice".to_string()).is_some());
    let again = es.begin_register(
        &ORCH.to_string(),
        &POOL_ADDR.to_string(),
        txid(0xbb),
        0,
        vec![outpoint_text(0xaa, 0)],
        vec![outpoint_text(0xbb, 1)],
        vec![fee_coin(10000, "alice")],
        vec![],
        "alice".to_string(),
    );
    assert_eq!(again.unwrap_err(), ExchangeError::StaleNonce(1));
}

#[test]
fn each_register_adds_one_nonce_and_the_fee() {
    let mut es = funded_pool();
    for (i, who) in ["a", "b", "c"].iter().enumerate() {
        register(&mut es, 0xb0 + i as u8, who).unwrap();
        assert_eq!(head(&es).nonce, i as u64 + 1);
        assert_eq!(head(&es).btc_balance(), 100000 + FEE * (i as u64 + 1));
    }
    assert_eq!(es.states.len(), 4);
}

#[test]
fn second_admission_is_busy() {
    let mut es = funded_pool();
    es.begin_register(
        &ORCH.to_string(),
        &POOL_ADDR.to_string(),
        txid(0xbb),
        0,
        vec![outpoint_text(0xaa, 0)],
        vec![outpoint_text(0xbb, 1)],
        vec![fee_coin(10000, "alice")],
        vec![],
        "alice".to_string(),
    )
    .unwrap();
    let second = es.begin_register(
        &ORCH.to_string(),
        &POOL_ADDR.to_string(),
        txid(0xcc),
        0,
        vec![outpoint_text(0xaa, 0)],
        vec![outpoint_text(0xcc, 1)],
        vec![fee_coin(10000, "bob")],
        vec![],
        "bob".to_string(),
    );
    assert_eq!(second.unwrap_err(), ExchangeError::PoolBusy);
    es.complete_register("p".to_string()).unwrap();
    let late = es.begin_register(
        &ORCH.to_string(),
        &POOL_ADDR.to_string(),
        txid(0xcc),
        0,
        vec![outpoint_text(0xaa, 0)],
        vec![outpoint_text(0xcc, 1)],
        vec![fee_coin(10000, "bob")],
        vec![],
        "bob".to_string(),
    );
    assert_eq!(late.unwrap_err(), ExchangeError::StaleNonce(1));
    assert_eq!(es.states.len(), 2);
}

#[test]
fn abandoned_admission_leaves_ledger() {
    let mut es = funded_pool();
    es.begin_register(
        &ORCH.to_string(),
        &POOL_ADDR.to_string(),
        txid(0xbb),
        0,
        vec![outpoint_text(0xaa, 0)],
        vec![outpoint_text(0xbb, 1)],
        vec![fee_coin(10000, "alice")],
        vec![],
        "alice".to_string(),
    )
    .unwrap();
    es.abandon_register();
    assert!(es.pending.is_none());
    assert_eq!(es.states.len(), 1);
    assert!(es.game.get(&"alice".to_string()).is_none());
    assert_eq!(es.complete_register("p".to_string()), Err(ExchangeError::NothingPending));
    register(&mut es, 0xbb, "alice").unwrap();
}

#[test]
fn register_errors() {
    let es = funded_pool();
    let call = |nonce: u64, spend: Vec<String>, recv: Vec<String>, ins: Vec<InputCoin>, who: &str| {
        es.validate_register(txid(0xbb), nonce, spend, recv, ins, vec![], who.to_string())
    };
    let fail = |nonce: u64, spend: Vec<String>, recv: Vec<String>, ins: Vec<InputCoin>, who: &str| {
        call(nonce, spend, recv, ins, who).err()
    };
    let ok_in = || vec![fee_coin(10000, "x")];
    assert!(call(0, vec![outpoint_text(0xaa, 0)], vec![outpoint_text(0xbb, 1)], ok_in(), "x").is_ok());
    assert_eq!(
        fail(0, vec![outpoint_text(0xaa, 0)], vec![outpoint_text(0xbb, 1)], vec![fee_coin(9999, "x")], "x"),
        Some(ExchangeError::InvalidIntent)
    );
    assert_eq!(
        fail(0, vec![outpoint_text(0xaa, 0)], vec![outpoint_text(0xbb, 1)], vec![], "x"),
        Some(ExchangeError::InvalidIntent)
    );
    let rune_in = vec![InputCoin {
        coin: CoinBalance { id: CoinId::rune(1, 1), value: 20000 },
        from: "x".to_string(),
    }];
    assert_eq!(
        fail(0, vec![outpoint_text(0xaa, 0)], vec![outpoint_text(0xbb, 1)], rune_in, "x"),
        Some(ExchangeError::InvalidIntent)
    );
    assert_eq!(
        fail(3, vec![outpoint_text(0xaa, 0)], vec![outpoint_text(0xbb, 1)], ok_in(), "x"),
        Some(ExchangeError::StaleNonce(0))
    );
    assert_eq!(
        fail(0, vec![], vec![outpoint_text(0xbb, 1)], ok_in(), "x"),
        Some(ExchangeError::SpendMismatch)
    );
    assert_eq!(
        fail(0, vec![outpoint_text(0xaa, 1)], vec![outpoint_text(0xbb, 1)], ok_in(), "x"),
        Some(ExchangeError::SpendMismatch)
    );
    assert_eq!(
        fail(0, vec!["not an outpoint".to_string()], vec![outpoint_text(0xbb, 1)], ok_in(), "x"),
        Some(ExchangeError::SpendMismatch)
    );
    assert_eq!(
        fail(0, vec![outpoint_text(0xaa, 0)], vec![], ok_in(), "x"),
        Some(ExchangeError::InvalidIntent)
    );
    assert_eq!(
        fail(0, vec![outpoint_text(0xaa, 0)], vec!["zz:1".to_string()], ok_in(), "x"),
        Some(ExchangeError::InvalidIntent)
    );
    let (c, consumed) =
        call(0, vec![outpoint_text(0xaa, 0)], vec![outpoint_text(0xbb, 7)], ok_in(), "x").unwrap();
    assert_eq!(c.utxo.outpoint.txid.bytes, [0xbb; 32]);
    assert_eq!(c.utxo.outpoint.vout, 7);
    assert_eq!(c.utxo.sats, 110000);
    assert_eq!(c.rune_balance, 100);
    assert_eq!(consumed.sats, 100000);
}

#[test]
fn register_fee_overflow_and_existing_gamer() {
    let mut es = funded_pool();
    register(&mut es, 0xbb, "alice").unwrap();
    let dup = es.validate_register(
        txid(0xcc),
        1,
        vec![outpoint_text(0xbb, 1)],
        vec![outpoint_text(0xcc, 1)],
        vec![fee_coin(10000, "alice")],
        vec![],
        "alice".to_string(),
    );
    assert_eq!(dup.unwrap_err(), ExchangeError::GamerAlreadyExists);
    es.states.last_mut().unwrap().utxo.sats = u64::MAX - 1;
    let over = es.validate_register(
        txid(0xcc),
        1,
        vec![outpoint_text(0xbb, 1)],
        vec![outpoint_text(0xcc, 1)],
        vec![fee_coin(10000, "bob")],
        vec![],
        "bob".to_string(),
    );
    assert_eq!(over.unwrap_err(), ExchangeError::Overflow);
}

#[test]
fn empty_ledger_has_no_head() {
    let es = ExchangeState::init(
        CoinId::rune(1, 1),
        "C".to_string(),
        10,
        FEE,
        1,
        1,
        10,
        ORCH.to_string(),
        "ii".to_string(),
    );
    assert_eq!(es.last_state().unwrap_err(), ExchangeError::LastStateNotFound);
    let r = es.validate_register(
        txid(1),
        0,
        vec![outpoint_text(0xaa, 0)],
        vec![outpoint_text(0xbb, 1)],
        vec![fee_coin(10000, "x")],
        vec![],
        "x".to_string(),
    );
    assert_eq!(r.unwrap_err(), ExchangeError::LastStateNotFound);
}

#[test]
fn finalize_prunes_history_before_confirmed() {
    let mut es = funded_pool();
    register(&mut es, 0xb1, "a").unwrap();
    register(&mut es, 0xb2, "b").unwrap();
    register(&mut es, 0xb3, "c").unwrap();
    let old_k = es.states[2].clone();
    es.finalize_tx(&ORCH.to_string(), &POOL_KEY.to_string(), txid(0xb2)).unwrap();
    assert_eq!(es.states.len(), 2);
    assert_eq!(es.states[0].nonce, old_k.nonce);
    assert_eq!(es.states[0].id.unwrap().bytes, [0xb2; 32]);
    assert_eq!(head(&es).nonce, 3);
    es.finalize(txid(0xb2)).unwrap();
    assert_eq!(es.states.len(), 2);
    assert_eq!(es.finalize(txid(0x01)), Err(ExchangeError::UnknownTransaction));
    assert_eq!(es.states.len(), 2);
}

#[test]
fn finalize_and_rollback_check_caller_and_key() {
    let mut es = funded_pool();
    register(&mut es, 0xb1, "a").unwrap();
    assert_eq!(
        es.finalize_tx(&"intruder".to_string(), &POOL_KEY.to_string(), txid(0xb1)),
        Err(ExchangeError::AccessDenied)
    );
    assert_eq!(
        es.rollback_tx(&ORCH.to_string(), &"other".to_string(), txid(0xb1)),
        Err(ExchangeError::PoolMismatch)
    );
    assert_eq!(es.states.len(), 2);
    es.rollback_tx(&ORCH.to_string(), &POOL_KEY.to_string(), txid(0xb1)).unwrap();
    assert_eq!(es.states.len(), 1);
}

#[test]
fn rollback_removes_registered_gamers() {
    let mut es = funded_pool();
    register(&mut es, 0xb1, "a").unwrap();
    register(&mut es, 0xb2, "b").unwrap();
    register(&mut es, 0xb3, "c").unwrap();
    es.rollback(txid(0xb2)).unwrap();
    assert_eq!(es.states.len(), 2);
    assert_eq!(head(&es).nonce, 1);
    assert!(es.game.get(&"a".to_string()).is_some());
    assert!(es.game.get(&"b".to_string()).is_none());
    assert!(es.game.get(&"c".to_string()).is_none());
    assert_eq!(es.rollback(txid(0xb3)), Err(ExchangeError::UnknownTransaction));
    es.finalize(txid(0xb1)).unwrap();
    assert_eq!(es.rollback(txid(0xb1)), Err(ExchangeError::CannotRollbackRoot));
    assert_eq!(es.states.len(), 1);
}

#[test]
fn rollback_is_all_or_nothing() {
    let mut es = funded_pool();
    register(&mut es, 0xb1, "a").unwrap();
    register(&mut es, 0xb2, "b").unwrap();
    let mut ghost = es.states.last().unwrap().clone();
    ghost.id = Some(txid(0xb3));
    ghost.nonce = 3;
    ghost.user_action = UserAction::Withdraw("nobody".to_string());
    es.states.push(ghost);
    assert_eq!(es.rollback(txid(0xb1)), Err(ExchangeError::GamerNotFound));
    assert_eq!(es.states.len(), 4);
    assert!(es.game.get(&"a".to_string()).is_some());
    assert!(es.game.get(&"b".to_string()).is_some());

    let mut es = funded_pool();
    register(&mut es, 0xb1, "a").unwrap();
    let mut genesis = es.states[0].clone();
    genesis.id = Some(txid(0xb2));
    genesis.nonce = 2;
    es.states.push(genesis);
    register(&mut es, 0xb3, "c").unwrap();
    assert_eq!(es.rollback(txid(0xb1)), Err(ExchangeError::CannotRollbackGenesis));
    assert_eq!(es.states.len(), 4);
    assert!(es.game.get(&"c".to_string()).is_some());
    assert!(es.game.get(&"a".to_string()).is_some());
}

#[test]
fn rollback_undoes_withdraw() {
    let mut es = funded_pool();
    register(&mut es, 0xb1, "a").unwrap();
    es.game.set_withdrawn(&"a".to_string(), true).unwrap();
    let mut w = es.states.last().unwrap().clone();
    w.id = Some(txid(0xb2));
    w.nonce = 2;
    w.user_action = UserAction::Withdraw("a".to_string());
    es.states.push(w);
    es.rollback(txid(0xb2)).unwrap();
    assert!(!es.game.get(&"a".to_string()).unwrap().is_withdrawn);
    assert_eq!(es.states.len(), 2);
}

#[test]
fn rollback_while_admitted_is_busy() {
    let mut es = funded_pool();
    register(&mut es, 0xb1, "a").unwrap();
    es.begin_register(
        &ORCH.to_string(),
        &POOL_ADDR.to_string(),
        txid(0xb2),
        1,
        vec![outpoint_text(0xb1, 1)],
        vec![outpoint_text(0xb2, 1)],
        vec![fee_coin(10000, "b")],
        vec![],
        "b".to_string(),
    )
    .unwrap();
    assert_eq!(es.rollback(txid(0xb1)), Err(ExchangeError::PoolBusy));
    assert_eq!(es.states.len(), 2);
}

#[test]
fn begin_register_checks_caller_and_pool() {
    let mut es = funded_pool();
    let mut try_with = |caller: &str, addr: &str| {
        es.begin_register(
            &caller.to_string(),
            &addr.to_string(),
            txid(0xbb),
            0,
            vec![outpoint_text(0xaa, 0)],
            vec![outpoint_text(0xbb, 1)],
            vec![fee_coin(10000, "alice")],
            vec![],
            "alice".to_string(),
        )
    };
    assert_eq!(try_with("someone", POOL_ADDR).unwrap_err(), ExchangeError::AccessDenied);
    assert_eq!(try_with(ORCH, "elsewhere").unwrap_err(), ExchangeError::PoolMismatch);
}

fn game() -> Game {
    Game::init(1000, FEE, 60, 5, 12)
}

#[test]
fn claim_respects_cooldown_and_cap() {
    let mut g = game();
    let a = "alice".to_string();
    let b = "bob".to_string();
    assert_eq!(g.claim(&a, 100), Err(ExchangeError::GamerNotFound));
    g.register_new_gamer(&a);
    g.register_new_gamer(&b);
    assert_eq!(g.claim(&a, 100), Ok(5));
    assert_eq!(g.claimed_cookies, 5);
    assert_eq!(g.claim(&a, 159), Err(ExchangeError::CoolingDown(160)));
    assert_eq!(g.claim(&a, 160), Ok(10));
    assert_eq!(g.claimed_cookies, 10);
    assert_eq!(g.claim(&b, 500), Err(ExchangeError::RewardPoolExhausted(2)));
    assert_eq!(g.claimed_cookies, 10);
    assert_eq!(g.get(&a).unwrap().last_click_time, 160);
}

#[test]
fn claim_through_principal() {
    let mut es = funded_pool();
    register(&mut es, 0xb1, "alice").unwrap();
    assert_eq!(es.address_of(&"principal-alice".to_string()), Some("alice".to_string()));
    assert_eq!(es.claim(&"principal-alice".to_string(), 1000), Ok(5));
    assert_eq!(es.claim(&"principal-bob".to_string(), 1000), Err(ExchangeError::GamerNotFound));
    assert_eq!(es.game.claimed_cookies, 5);
}

#[test]
fn claim_balance_overflow() {
    let mut g = Game::init(1000, FEE, 0, 5, 100);
    let a = "alice".to_string();
    g.register_new_gamer(&a);
    g.gamers[0].gamer.cookies = u128::MAX - 2;
    assert_eq!(g.claim(&a, 1), Err(ExchangeError::Overflow));
    assert_eq!(g.claimed_cookies, 0);
}

#[test]
fn withdraw_once_after_end() {
    let mut g = game();
    let a = "alice".to_string();
    assert_eq!(g.withdraw(&a, 10), Err(ExchangeError::GamerNotFound));
    g.register_new_gamer(&a);
    assert_eq!(g.withdraw(&a, 10), Err(ExchangeError::GameNotEnded));
    g.game_start_time = 100;
    assert!(g.is_start(101));
    assert!(!g.is_end(1100));
    g.claim(&a, 200).unwrap();
    assert_eq!(g.withdraw(&a, 1100), Err(ExchangeError::GameNotEnded));
    assert_eq!(g.withdraw(&a, 1101), Ok(5));
    assert_eq!(g.withdraw(&a, 1102), Err(ExchangeError::AlreadyWithdrawn));
}

#[test]
fn unstarted_game_never_ends() {
    let g = game();
    assert!(!g.is_end(u64::MAX));
    assert!(!g.is_start(u64::MAX));
}

#[test]
fn register_replaces_and_remove_deletes() {
    let mut g = game();
    let a = "alice".to_string();
    g.register_new_gamer(&a);
    g.claim(&a, 100).unwrap();
    g.register_new_gamer(&a);
    assert_eq!(g.gamers.len(), 1);
    assert_eq!(g.get(&a).unwrap().cookies, 0);
    g.remove(&a);
    assert!(g.get(&a).is_none());
    g.remove(&a);
    assert_eq!(g.gamers.len(), 0);
}

#[test]
fn deposit_rules() {
    let mut es = ExchangeState::init(
        CoinId::rune(1, 1),
        "C".to_string(),
        10,
        FEE,
        1,
        1,
        10,
        ORCH.to_string(),
        "ii".to_string(),
    );
    let btc = CoinBalance { id: CoinId::btc(), value: 10 };
    assert_eq!(es.deposit(utxo(1, 0, 1), btc, utxo(2, 0, 5), 7), Err(ExchangeError::InvalidIntent));
    let short = CoinBalance { id: CoinId::rune(1, 1), value: 9 };
    assert_eq!(es.deposit(utxo(1, 0, 1), short, utxo(2, 0, 5), 7), Err(ExchangeError::FundingMismatch));
    let runes = CoinBalance { id: CoinId::rune(1, 1), value: 10 };
    es.deposit(utxo(1, 0, 1), runes, utxo(2, 0, 5), 7).unwrap();
    assert_eq!(es.status, GameStatus::Initializing { key_ready: false, funding_ready: true });
    assert_eq!(es.game.game_start_time, 7);
    assert_eq!(es.states.len(), 1);
    assert_eq!(es.states[0].nonce, 0);
    assert!(es.states[0].id.is_none());
    assert!(matches!(es.states[0].user_action, UserAction::Init));
    assert_eq!(es.deposit(utxo(1, 0, 1), runes, utxo(2, 0, 5), 8), Err(ExchangeError::AlreadyFunded));
    assert_eq!(es.init_key("k".to_string(), "addr".to_string()), Ok("addr".to_string()));
    assert_eq!(es.status, GameStatus::Playing);
    assert_eq!(es.init_key("k2".to_string(), "addr2".to_string()), Ok("addr".to_string()));
    assert_eq!(es.key, Some("k".to_string()));
}

#[test]
fn status_transitions() {
    let s = GameStatus::new();
    let k = s.key_ready().unwrap();
    assert_eq!(k, GameStatus::Initializing { key_ready: true, funding_ready: false });
    assert_eq!(k.funding_ready(), Ok(GameStatus::Playing));
    assert_eq!(s.funding_ready().unwrap().key_ready(), Ok(GameStatus::Playing));
    assert_eq!(GameStatus::Playing.key_ready(), Err(ExchangeError::WrongStatus));
    assert_eq!(GameStatus::Playing.end(), Ok(GameStatus::Ended));
    assert_eq!(GameStatus::Ended.rewards_minted(), Ok(GameStatus::RewardsMinted));
    assert_eq!(GameStatus::RewardsMinted.liquidity_added(), Ok(GameStatus::LiquidityAdded));
    assert_eq!(GameStatus::Ended.open_withdrawals(), Ok(GameStatus::Withdrawable));
    assert_eq!(GameStatus::Playing.open_withdrawals(), Err(ExchangeError::WrongStatus));
    assert_eq!(GameStatus::Ended.end(), Err(ExchangeError::WrongStatus));
    assert_eq!(GameStatus::Withdrawable.liquidity_added(), Err(ExchangeError::WrongStatus));
}

#[test]
fn txid_and_coin_helpers() {
    assert!(txid(3).same(&txid(3)));
    assert!(!txid(3).same(&txid(4)));
    let mut t = txid(3);
    t.bytes[31] = 9;
    assert!(!t.same(&txid(3)));
    assert!(CoinId::btc().is_btc());
    assert!(!CoinId::rune(0, 1).is_btc());
    let p = utxo(5, 2, 77);
    assert!(p.outpoint.same(&OutPoint { txid: txid(5), vout: 2 }));
    assert!(!p.outpoint.same(&OutPoint { txid: txid(5), vout: 3 }));
}

#[test]
fn only_register_is_offered() {
    assert_eq!(ensure_supported_action(&"register".to_string()), Ok(()));
    assert_eq!(
        ensure_supported_action(&"withdraw".to_string()),
        Err(ExchangeError::UnsupportedIntent)
    );
    assert_eq!(
        ensure_supported_action(&"add_liquidity".to_string()),
        Err(ExchangeError::UnsupportedIntent)
    );
}

#[test]
fn seconds_from_nanoseconds() {
    assert_eq!(seconds_of(0), 0);
    assert_eq!(seconds_of(999_999_999), 0);
    assert_eq!(seconds_of(1_742_412_833_123_456_789), 1_742_412_833);
    assert_eq!(seconds_of(u64::MAX), 18_446_744_073);
}

#[test]
fn well_formedness_is_checked() {
    let mut es = funded_pool();
    register(&mut es, 0xb1, "a").unwrap();
    register(&mut es, 0xb2, "b").unwrap();
    assert!(es.is_well_formed());
    es.states[2].nonce = 7;
    assert!(!es.is_well_formed());
    es.states[2].nonce = 2;
    assert!(es.is_well_formed());
    es.game.gamers[1].address = "a".to_string();
    assert!(!es.is_well_formed());
    es.game.gamers[1].address = "b".to_string();
    es.game.claimed_cookies = es.game.max_cookies + 1;
    assert!(!es.is_well_formed());
}

#[test]
fn withdraw_after_end_succeeds_once_and_keeps_others() {
    let mut g = game();
    let a = "alice".to_string();
    let b = "bob".to_string();
    g.register_new_gamer(&a);
    g.register_new_gamer(&b);
    g.game_start_time = 0;
    g.claim(&a, 100).unwrap();
    assert_eq!(g.withdraw(&a, 5000), Ok(5));
    assert!(g.get(&a).unwrap().is_withdrawn);
    assert!(!g.get(&b).unwrap().is_withdrawn);
    assert_eq!(g.claimed_cookies, 5);
}
