//! Behaviour of the store: user records, session lifecycle and the
//! global statistics record, against a fresh temporary directory.

use sniper_db::db::{AppDb, DbError, StatsDelta};
use sniper_db::records::{PublicStats, TradeLog, UserConfig, UserState, WalletSession};

fn fresh_db() -> (tempfile::TempDir, AppDb) {
    let dir = tempfile::tempdir().unwrap();
    let db = AppDb::open(dir.path().to_str().unwrap()).unwrap();
    (dir, db)
}

fn sample_config() -> UserConfig {
    UserConfig {
        max_fdv: 80_000_000_000,
        min_liquidity: 5_000_000_000,
        budget_per_day: 1_000_000,
        take_profile_pct: 100_000_000,
        stop_loss_pct: 40_000_000,
        max_snipe_sol: 100_000,
    }
}

fn session_expiring_at(expires_at: u64) -> WalletSession {
    WalletSession {
        pubkey: b"test_pubkey".to_vec(),
        session_key: vec![0u8; 32],
        created_at: expires_at.saturating_sub(86_400),
        expires_at,
        daily_spent_usdc: 0,
        daily_spent_sol: 0,
    }
}

fn doggo_trade() -> TradeLog {
    TradeLog {
        token: b"$DOGGO".to_vec(),
        entry_price: 23,
        exit_price: Some(49),
        profit_pct: Some(112_000_000),
        x402_cost_usdc: 1_500,
        sol_spent: 100,
        timestamp: 1_700_000_000,
    }
}

#[test]
fn open_fails_on_unusable_path() {
    // a path that is an existing plain file cannot hold the store
    let file = tempfile::NamedTempFile::new().unwrap();
    let r = AppDb::open(file.path().to_str().unwrap());
    assert!(matches!(r, Err(DbError::StoreInit)));
}

#[test]
fn get_user_absent() {
    let (_dir, db) = fresh_db();
    assert_eq!(db.get_user("nobody"), Ok(None));
}

#[test]
fn save_then_get_returns_record() {
    let (_dir, mut db) = fresh_db();
    let state = UserState {
        config: sample_config(),
        session: Some(session_expiring_at(2_000_000_000)),
        history: vec![doggo_trade()],
    };
    let prev = db.save_user("u1", &state).unwrap();
    assert_eq!(prev, None);
    assert_eq!(db.get_user("u1"), Ok(Some(state)));
}

#[test]
fn save_returns_previous_bytes() {
    let (_dir, mut db) = fresh_db();
    let first = UserState {
        config: sample_config(),
        session: None,
        history: Vec::new(),
    };
    db.save_user("u1", &first).unwrap();
    let second = UserState {
        config: sample_config(),
        session: Some(session_expiring_at(5)),
        history: Vec::new(),
    };
    let prev = db.save_user("u1", &second).unwrap();
    assert_eq!(prev, Some(first.encode()));
    assert_eq!(db.get_user("u1"), Ok(Some(second)));
}

#[test]
fn get_user_is_idempotent() {
    let (_dir, mut db) = fresh_db();
    let state = UserState {
        config: sample_config(),
        session: Some(session_expiring_at(7)),
        history: vec![doggo_trade()],
    };
    db.save_user("u1", &state).unwrap();
    let first = db.get_user("u1");
    let second = db.get_user("u1");
    assert_eq!(first, second);
    assert_eq!(first, Ok(Some(state)));
}

#[test]
fn session_activity_boundary() {
    let (_dir, mut db) = fresh_db();
    let t: u64 = 1_800_000_000;
    let state = UserState {
        config: sample_config(),
        session: Some(session_expiring_at(t)),
        history: Vec::new(),
    };
    db.save_user("u1", &state).unwrap();
    assert!(db.is_session_active_at("u1", t));
    assert!(!db.is_session_active_at("u1", t + 1));
}

#[test]
fn session_inactive_without_record_or_session() {
    let (_dir, mut db) = fresh_db();
    assert!(!db.is_session_active_at("nobody", 0));
    let state = UserState {
        config: sample_config(),
        session: None,
        history: Vec::new(),
    };
    db.save_user("u1", &state).unwrap();
    assert!(!db.is_session_active_at("u1", 0));
}

#[test]
fn disconnect_clears_session_only() {
    let (_dir, mut db) = fresh_db();
    let state = UserState {
        config: sample_config(),
        session: Some(session_expiring_at(2_000_000_000)),
        history: vec![doggo_trade()],
    };
    db.save_user("u1", &state).unwrap();
    db.disconnect_user("u1").unwrap();
    let back = db.get_user("u1").unwrap().unwrap();
    assert_eq!(back.session, None);
    assert_eq!(back.config, state.config);
    assert_eq!(back.history, state.history);
}

#[test]
fn disconnect_without_record_is_noop() {
    let (_dir, mut db) = fresh_db();
    assert_eq!(db.disconnect_user("nobody"), Ok(()));
    assert_eq!(db.get_user("nobody"), Ok(None));
}

#[test]
fn append_only_history() {
    let (_dir, mut db) = fresh_db();
    let mut state = UserState {
        config: sample_config(),
        session: None,
        history: Vec::new(),
    };
    for k in 0..5u64 {
        let mut t = doggo_trade();
        t.timestamp = k;
        state.history.push(t);
        db.save_user("u1", &state).unwrap();
        let back = db.get_user("u1").unwrap().unwrap();
        assert_eq!(back.history.len(), (k + 1) as usize);
        for (i, entry) in back.history.iter().enumerate() {
            assert_eq!(entry.timestamp, i as u64);
        }
    }
}

#[test]
fn fresh_store_has_zero_stats() {
    let (_dir, db) = fresh_db();
    let stats = db.get_public_stats().unwrap();
    assert_eq!(stats, PublicStats::default());
    assert_eq!(stats.total_snipe, 0);
    assert_eq!(stats.total_profit_usdc, 0);
}

#[test]
fn stats_updates_accumulate() {
    let (_dir, mut db) = fresh_db();
    let mut delta = StatsDelta::none();
    delta.add_total_snipe = 1;
    let m: u64 = 25;
    for _ in 0..m {
        db.update_public_stats(&delta).unwrap();
    }
    assert_eq!(db.get_public_stats().unwrap().total_snipe, m);
}

#[test]
fn delta_composition_matches_combined() {
    let mut d1 = StatsDelta::none();
    d1.add_total_snipe = 3;
    d1.add_total_profit_usdc = 500;
    let mut d2 = StatsDelta::none();
    d2.add_total_snipe = 4;
    d2.add_successfull_snipe = 2;
    let p = PublicStats {
        total_users: 1,
        active_sessions: 1,
        total_snipe: 10,
        successfull_snipe: 5,
        total_profit_usdc: 100,
    };
    let sequential = d2.apply(&d1.apply(&p));
    let combined = d1.combine(&d2).apply(&p);
    assert_eq!(sequential, combined);
    assert_eq!(sequential.total_snipe, 17);
    assert_eq!(sequential.total_profit_usdc, 600);
}

#[test]
fn saturating_delta_stops_at_maximum() {
    let p = PublicStats {
        total_users: 0,
        active_sessions: 0,
        total_snipe: u64::MAX - 1,
        successfull_snipe: 0,
        total_profit_usdc: 0,
    };
    let mut d = StatsDelta::none();
    d.add_total_snipe = 5;
    assert_eq!(d.apply(&p).total_snipe, u64::MAX);
}

#[test]
fn example_scenario() {
    let (_dir, mut db) = fresh_db();
    let now: u64 = 1_700_000_000;
    let state = UserState {
        config: sample_config(),
        session: Some(session_expiring_at(now + 86_400)),
        history: vec![doggo_trade()],
    };
    db.save_user("u1", &state).unwrap();
    assert!(db.is_session_active_at("u1", now));

    // one successful snipe whose metered cost was 1500 micro-USDC and
    // whose profit was 112%: 1500 * 112_000_000 / 100_000_000 micro-USDC
    let mut delta = StatsDelta::none();
    delta.add_total_snipe = 1;
    delta.add_successfull_snipe = 1;
    delta.add_total_profit_usdc = 1_500 * 112_000_000 / 100_000_000;
    db.update_public_stats(&delta).unwrap();

    let stats = db.get_public_stats().unwrap();
    assert_eq!(stats.total_snipe, 1);
    assert_eq!(stats.successfull_snipe, 1);
    // 1680 micro-USDC is 0.00168 USDC
    assert_eq!(stats.total_profit_usdc, 1_680);
}

#[test]
fn records_survive_reopen() {
    let dir = tempfile::tempdir().unwrap();
    let path = dir.path().to_str().unwrap();
    let state = UserState {
        config: sample_config(),
        session: None,
        history: vec![doggo_trade()],
    };
    {
        let mut db = AppDb::open(path).unwrap();
        db.save_user("u1", &state).unwrap();
        let mut delta = StatsDelta::none();
        delta.add_total_users = 1;
        db.update_public_stats(&delta).unwrap();
    }
    let db = AppDb::open(path).unwrap();
    assert_eq!(db.get_user("u1"), Ok(Some(state)));
    assert_eq!(db.get_public_stats().unwrap().total_users, 1);
}
