//! Round trips and malformed-input behaviour of the record codec.

use sniper_db::codec::CodecError;
use sniper_db::records::{PublicStats, TradeLog, UserConfig, UserState, WalletSession};

fn sample_config() -> UserConfig {
    UserConfig {
        max_fdv: 80_000_000_000,
        min_liquidity: 5_000_000_000,
        budget_per_day: 1_000_000,
        take_profile_pct: 100_000_000,
        stop_loss_pct: 40_000_000,
        max_snipe_sol: 100_000,
    }
}

fn sample_trade() -> TradeLog {
    TradeLog {
        token: b"$DOGGO".to_vec(),
        entry_price: 23,
        exit_price: Some(49),
        profit_pct: Some(112_000_000),
        x402_cost_usdc: 1_500,
        sol_spent: 100,
        timestamp: 1_700_000_000,
    }
}

fn sample_session() -> WalletSession {
    WalletSession {
        pubkey: b"test_pubkey".to_vec(),
        session_key: vec![7u8; 32],
        created_at: 1_700_000_000,
        expires_at: 1_700_086_400,
        daily_spent_usdc: 0,
        daily_spent_sol: 0,
    }
}

fn sample_state() -> UserState {
    UserState {
        config: sample_config(),
        session: Some(sample_session()),
        history: vec![sample_trade()],
    }
}

#[test]
fn config_round_trip() {
    let c = sample_config();
    let bytes = c.encode();
    assert_eq!(UserConfig::decode(&bytes), Ok(c));
}

#[test]
fn trade_round_trip() {
    let t = sample_trade();
    let bytes = t.encode();
    assert_eq!(TradeLog::decode(&bytes), Ok(t));
}

#[test]
fn trade_round_trip_open_position() {
    let t = TradeLog {
        token: Vec::new(),
        entry_price: 1,
        exit_price: None,
        profit_pct: None,
        x402_cost_usdc: 0,
        sol_spent: u64::MAX,
        timestamp: 0,
    };
    let bytes = t.encode();
    assert_eq!(TradeLog::decode(&bytes), Ok(t));
}

#[test]
fn trade_round_trip_negative_profit() {
    let t = TradeLog {
        profit_pct: Some(-40_000_000),
        ..sample_trade()
    };
    let bytes = t.encode();
    assert_eq!(TradeLog::decode(&bytes), Ok(t));
}

#[test]
fn session_round_trip() {
    let w = sample_session();
    let bytes = w.encode();
    assert_eq!(WalletSession::decode(&bytes), Ok(w));
}

#[test]
fn state_round_trip() {
    let s = sample_state();
    let bytes = s.encode();
    assert_eq!(UserState::decode(&bytes), Ok(s));
}

#[test]
fn state_round_trip_empty() {
    let s = UserState {
        config: sample_config(),
        session: None,
        history: Vec::new(),
    };
    let bytes = s.encode();
    assert_eq!(UserState::decode(&bytes), Ok(s));
}

#[test]
fn state_round_trip_many_entries() {
    let mut history = Vec::new();
    for k in 0..40u64 {
        let mut t = sample_trade();
        t.timestamp = k;
        history.push(t);
    }
    let s = UserState {
        config: sample_config(),
        session: Some(sample_session()),
        history: history.clone(),
    };
    let bytes = s.encode();
    let back = UserState::decode(&bytes).unwrap();
    assert_eq!(back.history.len(), 40);
    for k in 0..40usize {
        assert_eq!(back.history[k], history[k]);
    }
}

#[test]
fn stats_round_trip() {
    let p = PublicStats {
        total_users: 3,
        active_sessions: 2,
        total_snipe: 10,
        successfull_snipe: 4,
        total_profit_usdc: 1_680,
    };
    let bytes = p.encode();
    assert_eq!(PublicStats::decode(&bytes), Ok(p));
}

#[test]
fn decode_rejects_empty() {
    assert_eq!(UserState::decode(&Vec::new()), Err(CodecError));
    assert_eq!(PublicStats::decode(&Vec::new()), Err(CodecError));
}

#[test]
fn decode_rejects_truncated() {
    let s = sample_state();
    let mut bytes = s.encode();
    bytes.pop();
    assert_eq!(UserState::decode(&bytes), Err(CodecError));
    let short = bytes[..10].to_vec();
    assert_eq!(UserState::decode(&short), Err(CodecError));
}

#[test]
fn decode_rejects_trailing_bytes() {
    let c = sample_config();
    let mut bytes = c.encode();
    bytes.push(0);
    assert_eq!(UserConfig::decode(&bytes), Err(CodecError));
}

#[test]
fn decode_rejects_unknown_version() {
    let c = sample_config();
    let mut bytes = c.encode();
    bytes[0] = 9;
    assert_eq!(UserConfig::decode(&bytes), Err(CodecError));
}

#[test]
fn decode_rejects_bad_option_tag() {
    let t = sample_trade();
    let bytes = t.encode();
    // the exit-price tag sits right after the version byte, the token
    // (8-byte length prefix plus 6 bytes) and the 8-byte entry price
    let tag_at = 1 + 8 + 6 + 8;
    assert_eq!(bytes[tag_at], 1);
    let mut bad = bytes.clone();
    bad[tag_at] = 2;
    assert_eq!(TradeLog::decode(&bad), Err(CodecError));
}

#[test]
fn encoding_is_not_the_input() {
    // the stored form differs from the in-memory bytes and carries the
    // version tag first
    let t = sample_trade();
    let bytes = t.encode();
    assert_eq!(bytes[0], 1);
    assert_ne!(bytes, t.token);
}
