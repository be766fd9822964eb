//! The persisted record schema: per-user trading policy, wallet session,
//! trade history and the global statistics record, together with the
//! versioned binary codec for each and the proof that every record
//! round-trips through it.
//!
//! Monetary amounts and percentages are fixed-point integers (micro-units:
//! one millionth of a USDC, a SOL, or a percent), so that aggregation is
//! exact and free of rounding drift.

use crate::codec::{
    dec_bytes, dec_opt_i64, dec_opt_u64, dec_u64, dec_u8, enc_bytes, enc_opt_i64, enc_opt_u64,
    enc_u64, enc_u8, lemma_sdec_bytes_of_enc, lemma_sdec_opt_i64_of_enc, lemma_sdec_opt_u64_of_enc,
    lemma_sdec_u64_of_enc, lemma_split_concat, sdec_bytes, sdec_opt_i64, sdec_opt_u64, sdec_u64,
    sdec_u8, senc_bytes, senc_opt_i64, senc_opt_u64, senc_u64, senc_u8, CodecError,
};
use vstd::prelude::*;

verus! {

/// Schema version tag that every persisted record starts with. Decoders
/// reject any other leading byte, so an incompatible future shape of the
/// same record can be told apart instead of being misread.
pub const RECORD_VERSION: u8 = 1;

// ---------------------------------------------------------------------------
// UserConfig
// ---------------------------------------------------------------------------

/// Per-user trading policy. All amounts are fixed-point micro-units.
#[derive(Clone, Copy, Debug, PartialEq, Eq, Structural)]
pub struct UserConfig {
    /// Largest fully-diluted valuation accepted, in micro-USDC.
    pub max_fdv: u64,
    /// Smallest liquidity accepted, in micro-USDC.
    pub min_liquidity: u64,
    /// Daily spending budget, in micro-USDC.
    pub budget_per_day: u64,
    /// Take-profit threshold, in micro-percent.
    pub take_profile_pct: u64,
    /// Stop-loss threshold, in micro-percent.
    pub stop_loss_pct: u64,
    /// Largest spend on a single trade, in micro-SOL.
    pub max_snipe_sol: u64,
}

pub open spec fn senc_config(c: UserConfig) -> Seq<u8> {
    senc_u64(c.max_fdv) + senc_u64(c.min_liquidity) + senc_u64(c.budget_per_day)
        + senc_u64(c.take_profile_pct) + senc_u64(c.stop_loss_pct) + senc_u64(c.max_snipe_sol)
}

pub open spec fn sdec_config(s: Seq<u8>, i: int) -> Option<(UserConfig, int)> {
    match sdec_u64(s, i) {
        Some((max_fdv, i1)) => match sdec_u64(s, i1) {
            Some((min_liquidity, i2)) => match sdec_u64(s, i2) {
                Some((budget_per_day, i3)) => match sdec_u64(s, i3) {
                    Some((take_profile_pct, i4)) => match sdec_u64(s, i4) {
                        Some((stop_loss_pct, i5)) => match sdec_u64(s, i5) {
                            Some((max_snipe_sol, i6)) => Some((
                                UserConfig {
                                    max_fdv,
                                    min_liquidity,
                                    budget_per_day,
                                    take_profile_pct,
                                    stop_loss_pct,
                                    max_snipe_sol,
                                },
                                i6,
                            )),
                            None => None,
                        },
                        None => None,
                    },
                    None => None,
                },
                None => None,
            },
            None => None,
        },
        None => None,
    }
}

pub proof fn lemma_sdec_config_of_enc(s: Seq<u8>, i: int, c: UserConfig)
    requires
        0 <= i,
        i + senc_config(c).len() <= s.len(),
        s.subrange(i, i + senc_config(c).len() as int) == senc_config(c),
    ensures
        sdec_config(s, i) == Some((c, i + senc_config(c).len() as int)),
{
    let e1 = senc_u64(c.max_fdv);
    let e2 = senc_u64(c.min_liquidity);
    let e3 = senc_u64(c.budget_per_day);
    let e4 = senc_u64(c.take_profile_pct);
    let e5 = senc_u64(c.stop_loss_pct);
    let e6 = senc_u64(c.max_snipe_sol);
    assert(senc_config(c) =~= e1 + (e2 + (e3 + (e4 + (e5 + e6)))));
    lemma_split_concat(s, i, e1, e2 + (e3 + (e4 + (e5 + e6))));
    lemma_sdec_u64_of_enc(s, i, c.max_fdv);
    lemma_split_concat(s, i + 8, e2, e3 + (e4 + (e5 + e6)));
    lemma_sdec_u64_of_enc(s, i + 8, c.min_liquidity);
    lemma_split_concat(s, i + 16, e3, e4 + (e5 + e6));
    lemma_sdec_u64_of_enc(s, i + 16, c.budget_per_day);
    lemma_split_concat(s, i + 24, e4, e5 + e6);
    lemma_sdec_u64_of_enc(s, i + 24, c.take_profile_pct);
    lemma_split_concat(s, i + 32, e5, e6);
    lemma_sdec_u64_of_enc(s, i + 32, c.stop_loss_pct);
    lemma_sdec_u64_of_enc(s, i + 40, c.max_snipe_sol);
}

pub fn enc_config(out: &mut Vec<u8>, c: &UserConfig)
    ensures
        final(out)@ == old(out)@ + senc_config(*c),
{
    enc_u64(out, c.max_fdv);
    enc_u64(out, c.min_liquidity);
    enc_u64(out, c.budget_per_day);
    enc_u64(out, c.take_profile_pct);
    enc_u64(out, c.stop_loss_pct);
    enc_u64(out, c.max_snipe_sol);
    proof {
        assert(out@ =~= old(out)@ + senc_config(*c));
    }
}

pub fn dec_config(bytes: &Vec<u8>, pos: usize) -> (r: Result<(UserConfig, usize), CodecError>)
    ensures
        match r {
            Ok((c, j)) => sdec_config(bytes@, pos as int) == Some((c, j as int)),
            Err(_) => sdec_config(bytes@, pos as int) is None,
        },
{
    let (max_fdv, pos) = match dec_u64(bytes, pos) {
        Ok(p) => p,
        Err(e) => {
            return Err(e);
        },
    };
    let (min_liquidity, pos) = match dec_u64(bytes, pos) {
        Ok(p) => p,
        Err(e) => {
            return Err(e);
        },
    };
    let (budget_per_day, pos) = match dec_u64(bytes, pos) {
        Ok(p) => p,
        Err(e) => {
            return Err(e);
        },
    };
    let (take_profile_pct, pos) = match dec_u64(bytes, pos) {
        Ok(p) => p,
        Err(e) => {
            return Err(e);
        },
    };
    let (stop_loss_pct, pos) = match dec_u64(bytes, pos) {
        Ok(p) => p,
        Err(e) => {
            return Err(e);
        },
    };
    let (max_snipe_sol, pos) = match dec_u64(bytes, pos) {
        Ok(p) => p,
        Err(e) => {
            return Err(e);
        },
    };
    Ok((
        UserConfig {
            max_fdv,
            min_liquidity,
            budget_per_day,
            take_profile_pct,
            stop_loss_pct,
            max_snipe_sol,
        },
        pos,
    ))
}

// ---------------------------------------------------------------------------
// TradeLog
// ---------------------------------------------------------------------------

/// One completed or pending trade. Immutable once appended to a user's
/// history. Amounts are fixed-point micro-units; the profit percentage may
/// be negative.
#[derive(Clone, Debug, PartialEq, Eq)]
pub struct TradeLog {
    /// Token identifier, as bytes.
    pub token: Vec<u8>,
    /// Entry price, in micro-USDC.
    pub entry_price: u64,
    /// Exit price, in micro-USDC; absent while the trade is open.
    pub exit_price: Option<u64>,
    /// Realized profit, in micro-percent; set only once the trade closes.
    pub profit_pct: Option<i64>,
    /// Cost paid to the metered API, in micro-USDC.
    pub x402_cost_usdc: u64,
    /// Amount spent, in micro-SOL.
    pub sol_spent: u64,
    /// Seconds since the Unix epoch.
    pub timestamp: u64,
}

/// Mathematical shape of a [`TradeLog`].
pub ghost struct TradeLogV {
    pub token: Seq<u8>,
    pub entry_price: u64,
    pub exit_price: Option<u64>,
    pub profit_pct: Option<i64>,
    pub x402_cost_usdc: u64,
    pub sol_spent: u64,
    pub timestamp: u64,
}

impl View for TradeLog {
    type V = TradeLogV;

    open spec fn view(&self) -> TradeLogV {
        TradeLogV {
            token: self.token@,
            entry_price: self.entry_price,
            exit_price: self.exit_price,
            profit_pct: self.profit_pct,
            x402_cost_usdc: self.x402_cost_usdc,
            sol_spent: self.sol_spent,
            timestamp: self.timestamp,
        }
    }
}

/// A trade record is encodable when its token identifier's length fits the
/// length prefix; every `TradeLog` held in memory satisfies it.
pub open spec fn valid_trade(t: TradeLogV) -> bool {
    t.token.len() <= u64::MAX
}

pub open spec fn senc_trade(t: TradeLogV) -> Seq<u8> {
    senc_bytes(t.token) + senc_u64(t.entry_price) + senc_opt_u64(t.exit_price)
        + senc_opt_i64(t.profit_pct) + senc_u64(t.x402_cost_usdc) + senc_u64(t.sol_spent)
        + senc_u64(t.timestamp)
}

pub open spec fn sdec_trade(s: Seq<u8>, i: int) -> Option<(TradeLogV, int)> {
    match sdec_bytes(s, i) {
        Some((token, i1)) => match sdec_u64(s, i1) {
            Some((entry_price, i2)) => match sdec_opt_u64(s, i2) {
                Some((exit_price, i3)) => match sdec_opt_i64(s, i3) {
                    Some((profit_pct, i4)) => match sdec_u64(s, i4) {
                        Some((x402_cost_usdc, i5)) => match sdec_u64(s, i5) {
                            Some((sol_spent, i6)) => match sdec_u64(s, i6) {
                                Some((timestamp, i7)) => Some((
                                    TradeLogV {
                                        token,
                                        entry_price,
                                        exit_price,
                                        profit_pct,
                                        x402_cost_usdc,
                                        sol_spent,
                                        timestamp,
                                    },
                                    i7,
                                )),
                                None => None,
                            },
                            None => None,
                        },
                        None => None,
                    },
                    None => None,
                },
                None => None,
            },
            None => None,
        },
        None => None,
    }
}

pub proof fn lemma_sdec_trade_of_enc(s: Seq<u8>, i: int, t: TradeLogV)
    requires
        0 <= i,
        valid_trade(t),
        i + senc_trade(t).len() <= s.len(),
        s.subrange(i, i + senc_trade(t).len() as int) == senc_trade(t),
    ensures
        sdec_trade(s, i) == Some((t, i + senc_trade(t).len() as int)),
{
    let e1 = senc_bytes(t.token);
    let e2 = senc_u64(t.entry_price);
    let e3 = senc_opt_u64(t.exit_price);
    let e4 = senc_opt_i64(t.profit_pct);
    let e5 = senc_u64(t.x402_cost_usdc);
    let e6 = senc_u64(t.sol_spent);
    let e7 = senc_u64(t.timestamp);
    assert(senc_trade(t) =~= e1 + (e2 + (e3 + (e4 + (e5 + (e6 + e7))))));
    let i1 = i + e1.len() as int;
    let i2 = i1 + e2.len() as int;
    let i3 = i2 + e3.len() as int;
    let i4 = i3 + e4.len() as int;
    let i5 = i4 + e5.len() as int;
    let i6 = i5 + e6.len() as int;
    lemma_split_concat(s, i, e1, e2 + (e3 + (e4 + (e5 + (e6 + e7)))));
    lemma_sdec_bytes_of_enc(s, i, t.token);
    lemma_split_concat(s, i1, e2, e3 + (e4 + (e5 + (e6 + e7))));
    lemma_sdec_u64_of_enc(s, i1, t.entry_price);
    lemma_split_concat(s, i2, e3, e4 + (e5 + (e6 + e7)));
    lemma_sdec_opt_u64_of_enc(s, i2, t.exit_price);
    lemma_split_concat(s, i3, e4, e5 + (e6 + e7));
    lemma_sdec_opt_i64_of_enc(s, i3, t.profit_pct);
    lemma_split_concat(s, i4, e5, e6 + e7);
    lemma_sdec_u64_of_enc(s, i4, t.x402_cost_usdc);
    lemma_split_concat(s, i5, e6, e7);
    lemma_sdec_u64_of_enc(s, i5, t.sol_spent);
    lemma_sdec_u64_of_enc(s, i6, t.timestamp);
}

pub fn enc_trade(out: &mut Vec<u8>, t: &TradeLog)
    ensures
        final(out)@ == old(out)@ + senc_trade(t@),
{
    enc_bytes(out, &t.token);
    enc_u64(out, t.entry_price);
    enc_opt_u64(out, &t.exit_price);
    enc_opt_i64(out, &t.profit_pct);
    enc_u64(out, t.x402_cost_usdc);
    enc_u64(out, t.sol_spent);
    enc_u64(out, t.timestamp);
    proof {
        assert(out@ =~= old(out)@ + senc_trade(t@));
    }
}

pub fn dec_trade(bytes: &Vec<u8>, pos: usize) -> (r: Result<(TradeLog, usize), CodecError>)
    ensures
        match r {
            Ok((t, j)) => sdec_trade(bytes@, pos as int) == Some((t@, j as int)),
            Err(_) => sdec_trade(bytes@, pos as int) is None,
        },
{
    let (token, pos) = match dec_bytes(bytes, pos) {
        Ok(p) => p,
        Err(e) => {
            return Err(e);
        },
    };
    let (entry_price, pos) = match dec_u64(bytes, pos) {
        Ok(p) => p,
        Err(e) => {
            return Err(e);
        },
    };
    let (exit_price, pos) = match dec_opt_u64(bytes, pos) {
        Ok(p) => p,
        Err(e) => {
            return Err(e);
        },
    };
    let (profit_pct, pos) = match dec_opt_i64(bytes, pos) {
        Ok(p) => p,
        Err(e) => {
            return Err(e);
        },
    };
    let (x402_cost_usdc, pos) = match dec_u64(bytes, pos) {
        Ok(p) => p,
        Err(e) => {
            return Err(e);
        },
    };
    let (sol_spent, pos) = match dec_u64(bytes, pos) {
        Ok(p) => p,
        Err(e) => {
            return Err(e);
        },
    };
    let (timestamp, pos) = match dec_u64(bytes, pos) {
        Ok(p) => p,
        Err(e) => {
            return Err(e);
        },
    };
    Ok((
        TradeLog {
            token,
            entry_price,
            exit_price,
            profit_pct,
            x402_cost_usdc,
            sol_spent,
            timestamp,
        },
        pos,
    ))
}

// ---------------------------------------------------------------------------
// WalletSession
// ---------------------------------------------------------------------------

/// A time-bounded delegated-signing credential. Spend counters are
/// fixed-point micro-units.
#[derive(Clone, Debug, PartialEq, Eq)]
pub struct WalletSession {
    /// Public key, as bytes.
    pub pubkey: Vec<u8>,
    /// Session signing-key material; sensitive, cleared on disconnect.
    pub session_key: Vec<u8>,
    /// Seconds since the Unix epoch.
    pub created_at: u64,
    /// Seconds since the Unix epoch; the session is active while the
    /// current time is at or before this instant.
    pub expires_at: u64,
    /// Cumulative spend during the session, in micro-USDC.
    pub daily_spent_usdc: u64,
    /// Cumulative spend during the session, in micro-SOL.
    pub daily_spent_sol: u64,
}

/// Mathematical shape of a [`WalletSession`].
pub ghost struct WalletSessionV {
    pub pubkey: Seq<u8>,
    pub session_key: Seq<u8>,
    pub created_at: u64,
    pub expires_at: u64,
    pub daily_spent_usdc: u64,
    pub daily_spent_sol: u64,
}

impl View for WalletSession {
    type V = WalletSessionV;

    open spec fn view(&self) -> WalletSessionV {
        WalletSessionV {
            pubkey: self.pubkey@,
            session_key: self.session_key@,
            created_at: self.created_at,
            expires_at: self.expires_at,
            daily_spent_usdc: self.daily_spent_usdc,
            daily_spent_sol: self.daily_spent_sol,
        }
    }
}

pub open spec fn valid_session(w: WalletSessionV) -> bool {
    w.pubkey.len() <= u64::MAX && w.session_key.len() <= u64::MAX
}

pub open spec fn senc_session(w: WalletSessionV) -> Seq<u8> {
    senc_bytes(w.pubkey) + senc_bytes(w.session_key) + senc_u64(w.created_at)
        + senc_u64(w.expires_at) + senc_u64(w.daily_spent_usdc) + senc_u64(w.daily_spent_sol)
}

pub open spec fn sdec_session(s: Seq<u8>, i: int) -> Option<(WalletSessionV, int)> {
    match sdec_bytes(s, i) {
        Some((pubkey, i1)) => match sdec_bytes(s, i1) {
            Some((session_key, i2)) => match sdec_u64(s, i2) {
                Some((created_at, i3)) => match sdec_u64(s, i3) {
                    Some((expires_at, i4)) => match sdec_u64(s, i4) {
                        Some((daily_spent_usdc, i5)) => match sdec_u64(s, i5) {
                            Some((daily_spent_sol, i6)) => Some((
                                WalletSessionV {
                                    pubkey,
                                    session_key,
                                    created_at,
                                    expires_at,
                                    daily_spent_usdc,
                                    daily_spent_sol,
                                },
                                i6,
                            )),
                            None => None,
                        },
                        None => None,
                    },
                    None => None,
                },
                None => None,
            },
            None => None,
        },
        None => None,
    }
}

pub proof fn lemma_sdec_session_of_enc(s: Seq<u8>, i: int, w: WalletSessionV)
    requires
        0 <= i,
        valid_session(w),
        i + senc_session(w).len() <= s.len(),
        s.subrange(i, i + senc_session(w).len() as int) == senc_session(w),
    ensures
        sdec_session(s, i) == Some((w, i + senc_session(w).len() as int)),
{
    let e1 = senc_bytes(w.pubkey);
    let e2 = senc_bytes(w.session_key);
    let e3 = senc_u64(w.created_at);
    let e4 = senc_u64(w.expires_at);
    let e5 = senc_u64(w.daily_spent_usdc);
    let e6 = senc_u64(w.daily_spent_sol);
    assert(senc_session(w) =~= e1 + (e2 + (e3 + (e4 + (e5 + e6)))));
    let i1 = i + e1.len() as int;
    let i2 = i1 + e2.len() as int;
    let i3 = i2 + e3.len() as int;
    let i4 = i3 + e4.len() as int;
    let i5 = i4 + e5.len() as int;
    lemma_split_concat(s, i, e1, e2 + (e3 + (e4 + (e5 + e6))));
    lemma_sdec_bytes_of_enc(s, i, w.pubkey);
    lemma_split_concat(s, i1, e2, e3 + (e4 + (e5 + e6)));
    lemma_sdec_bytes_of_enc(s, i1, w.session_key);
    lemma_split_concat(s, i2, e3, e4 + (e5 + e6));
    lemma_sdec_u64_of_enc(s, i2, w.created_at);
    lemma_split_concat(s, i3, e4, e5 + e6);
    lemma_sdec_u64_of_enc(s, i3, w.expires_at);
    lemma_split_concat(s, i4, e5, e6);
    lemma_sdec_u64_of_enc(s, i4, w.daily_spent_usdc);
    lemma_sdec_u64_of_enc(s, i5, w.daily_spent_sol);
}

pub fn enc_session(out: &mut Vec<u8>, w: &WalletSession)
    ensures
        final(out)@ == old(out)@ + senc_session(w@),
{
    enc_bytes(out, &w.pubkey);
    enc_bytes(out, &w.session_key);
    enc_u64(out, w.created_at);
    enc_u64(out, w.expires_at);
    enc_u64(out, w.daily_spent_usdc);
    enc_u64(out, w.daily_spent_sol);
    proof {
        assert(out@ =~= old(out)@ + senc_session(w@));
    }
}

pub fn dec_session(bytes: &Vec<u8>, pos: usize) -> (r: Result<(WalletSession, usize), CodecError>)
    ensures
        match r {
            Ok((w, j)) => sdec_session(bytes@, pos as int) == Some((w@, j as int)),
            Err(_) => sdec_session(bytes@, pos as int) is None,
        },
{
    let (pubkey, pos) = match dec_bytes(bytes, pos) {
        Ok(p) => p,
        Err(e) => {
            return Err(e);
        },
    };
    let (session_key, pos) = match dec_bytes(bytes, pos) {
        Ok(p) => p,
        Err(e) => {
            return Err(e);
        },
    };
    let (created_at, pos) = match dec_u64(bytes, pos) {
        Ok(p) => p,
        Err(e) => {
            return Err(e);
        },
    };
    let (expires_at, pos) = match dec_u64(bytes, pos) {
        Ok(p) => p,
        Err(e) => {
            return Err(e);
        },
    };
    let (daily_spent_usdc, pos) = match dec_u64(bytes, pos) {
        Ok(p) => p,
        Err(e) => {
            return Err(e);
        },
    };
    let (daily_spent_sol, pos) = match dec_u64(bytes, pos) {
        Ok(p) => p,
        Err(e) => {
            return Err(e);
        },
    };
    Ok((
        WalletSession {
            pubkey,
            session_key,
            created_at,
            expires_at,
            daily_spent_usdc,
            daily_spent_sol,
        },
        pos,
    ))
}

// ---------------------------------------------------------------------------
// optional session, tag byte 0 (absent) or 1 (present)
// ---------------------------------------------------------------------------

pub open spec fn valid_opt_session(o: Option<WalletSessionV>) -> bool {
    match o {
        None => true,
        Some(w) => valid_session(w),
    }
}

pub open spec fn senc_opt_session(o: Option<WalletSessionV>) -> Seq<u8> {
    match o {
        None => seq![0u8],
        Some(w) => seq![1u8] + senc_session(w),
    }
}

pub open spec fn sdec_opt_session(s: Seq<u8>, i: int) -> Option<(Option<WalletSessionV>, int)> {
    match sdec_u8(s, i) {
        Some((tag, j)) => {
            if tag == 0 {
                Some((None, j))
            } else if tag == 1 {
                match sdec_session(s, j) {
                    Some((w, k)) => Some((Some(w), k)),
                    None => None,
                }
            } else {
                None
            }
        },
        None => None,
    }
}

pub proof fn lemma_sdec_opt_session_of_enc(s: Seq<u8>, i: int, o: Option<WalletSessionV>)
    requires
        0 <= i,
        valid_opt_session(o),
        i + senc_opt_session(o).len() <= s.len(),
        s.subrange(i, i + senc_opt_session(o).len() as int) == senc_opt_session(o),
    ensures
        sdec_opt_session(s, i) == Some((o, i + senc_opt_session(o).len() as int)),
{
    match o {
        None => {
            assert(s[i] == senc_opt_session(o)[0]);
        },
        Some(w) => {
            lemma_split_concat(s, i, seq![1u8], senc_session(w));
            assert(s[i] == seq![1u8][0]);
            lemma_sdec_session_of_enc(s, i + 1, w);
        },
    }
}

pub fn enc_opt_session(out: &mut Vec<u8>, o: &Option<WalletSession>)
    ensures
        final(out)@ == old(out)@ + senc_opt_session(match *o {
            Some(w) => Some(w@),
            None => None,
        }),
{
    match o {
        None => {
            enc_u8(out, 0);
        },
        Some(w) => {
            enc_u8(out, 1);
            enc_session(out, w);
            proof {
                assert(out@ =~= old(out)@ + senc_opt_session(Some(w@)));
            }
        },
    }
}

pub fn dec_opt_session(bytes: &Vec<u8>, pos: usize) -> (r: Result<
    (Option<WalletSession>, usize),
    CodecError,
>)
    ensures
        match r {
            Ok((o, j)) => sdec_opt_session(bytes@, pos as int) == Some(
                (
                    match o {
                        Some(w) => Some(w@),
                        None => None,
                    },
                    j as int,
                ),
            ),
            Err(_) => sdec_opt_session(bytes@, pos as int) is None,
        },
{
    match dec_u8(bytes, pos) {
        Ok((tag, j)) => {
            if tag == 0 {
                Ok((None, j))
            } else if tag == 1 {
                match dec_session(bytes, j) {
                    Ok((w, k)) => Ok((Some(w), k)),
                    Err(e) => Err(e),
                }
            } else {
                Err(CodecError)
            }
        },
        Err(e) => Err(e),
    }
}

// ---------------------------------------------------------------------------
// trade history, one entry after another
// ---------------------------------------------------------------------------

pub open spec fn valid_entries(ts: Seq<TradeLogV>) -> bool {
    forall|k: int| 0 <= k < ts.len() ==> valid_trade(#[trigger] ts[k])
}

pub open spec fn senc_entries(ts: Seq<TradeLogV>) -> Seq<u8>
    decreases ts.len(),
{
    if ts.len() == 0 {
        Seq::empty()
    } else {
        senc_trade(ts[0]) + senc_entries(ts.drop_first())
    }
}

/// Number of entries decoded is fixed in advance by the length prefix.
pub open spec fn sdec_entries(s: Seq<u8>, i: int, n: nat) -> Option<(Seq<TradeLogV>, int)>
    decreases n,
{
    if n == 0 {
        Some((Seq::empty(), i))
    } else {
        match sdec_trade(s, i) {
            Some((t, j)) => match sdec_entries(s, j, (n - 1) as nat) {
                Some((ts, k)) => Some((seq![t] + ts, k)),
                None => None,
            },
            None => None,
        }
    }
}

/// Appending one entry extends the encoding by that entry's bytes.
pub proof fn lemma_senc_entries_push(ts: Seq<TradeLogV>, t: TradeLogV)
    ensures
        senc_entries(ts.push(t)) == senc_entries(ts) + senc_trade(t),
    decreases ts.len(),
{
    if ts.len() == 0 {
        assert(ts.push(t)[0] == t);
        assert(ts.push(t).drop_first() =~= Seq::<TradeLogV>::empty());
        assert(senc_entries(ts.push(t)) == senc_trade(t) + senc_entries(ts.push(t).drop_first()));
        assert(senc_entries(ts.push(t).drop_first()) == Seq::<u8>::empty());
        assert(senc_entries(ts) == Seq::<u8>::empty());
        assert(senc_trade(t) + Seq::<u8>::empty() =~= Seq::<u8>::empty() + senc_trade(t));
    } else {
        let l = ts.push(t);
        assert(l[0] == ts[0]);
        assert(l.drop_first() =~= ts.drop_first().push(t));
        lemma_senc_entries_push(ts.drop_first(), t);
        assert(senc_entries(l) == senc_trade(l[0]) + senc_entries(l.drop_first()));
        assert(senc_entries(l.drop_first()) == senc_entries(ts.drop_first()) + senc_trade(t));
        assert(senc_trade(ts[0]) + (senc_entries(ts.drop_first()) + senc_trade(t)) =~= (senc_trade(
            ts[0],
        ) + senc_entries(ts.drop_first())) + senc_trade(t));
        assert(senc_entries(ts) == senc_trade(ts[0]) + senc_entries(ts.drop_first()));
    }
}

#[verifier::rlimit(50)]
pub proof fn lemma_sdec_entries_of_enc(s: Seq<u8>, i: int, ts: Seq<TradeLogV>)
    requires
        0 <= i,
        valid_entries(ts),
        i + senc_entries(ts).len() <= s.len(),
        s.subrange(i, i + senc_entries(ts).len() as int) == senc_entries(ts),
    ensures
        sdec_entries(s, i, ts.len()) == Some((ts, i + senc_entries(ts).len() as int)),
    decreases ts.len(),
{
    if ts.len() == 0 {
        assert(ts =~= Seq::<TradeLogV>::empty());
    } else {
        let head = senc_trade(ts[0]);
        let tail = senc_entries(ts.drop_first());
        lemma_split_concat(s, i, head, tail);
        lemma_sdec_trade_of_enc(s, i, ts[0]);
        assert(valid_entries(ts.drop_first())) by {
            assert forall|k: int| 0 <= k < ts.drop_first().len() implies valid_trade(
                #[trigger] ts.drop_first()[k],
            ) by {
                assert(ts.drop_first()[k] == ts[k + 1]);
            }
        }
        lemma_sdec_entries_of_enc(s, i + head.len() as int, ts.drop_first());
        assert(seq![ts[0]] + ts.drop_first() =~= ts);
    }
}

// ---------------------------------------------------------------------------
// UserState
// ---------------------------------------------------------------------------

/// The full per-user record: policy, optional session, trade history.
/// The unit of atomicity for the store: read and written whole.
#[derive(Clone, Debug, PartialEq, Eq)]
pub struct UserState {
    pub config: UserConfig,
    pub session: Option<WalletSession>,
    pub history: Vec<TradeLog>,
}

/// Mathematical shape of a [`UserState`].
pub ghost struct UserStateV {
    pub config: UserConfig,
    pub session: Option<WalletSessionV>,
    pub history: Seq<TradeLogV>,
}

pub open spec fn entry_views(hs: Seq<TradeLog>) -> Seq<TradeLogV> {
    hs.map_values(|t: TradeLog| t@)
}

impl View for UserState {
    type V = UserStateV;

    open spec fn view(&self) -> UserStateV {
        UserStateV {
            config: self.config,
            session: match self.session {
                Some(w) => Some(w@),
                None => None,
            },
            history: entry_views(self.history@),
        }
    }
}

pub open spec fn valid_state(v: UserStateV) -> bool {
    valid_opt_session(v.session) && v.history.len() <= u64::MAX && valid_entries(v.history)
}

pub open spec fn senc_state_body(v: UserStateV) -> Seq<u8> {
    senc_config(v.config) + senc_opt_session(v.session) + senc_u64(v.history.len() as u64)
        + senc_entries(v.history)
}

pub open spec fn sdec_state_body(s: Seq<u8>, i: int) -> Option<(UserStateV, int)> {
    match sdec_config(s, i) {
        Some((config, i1)) => match sdec_opt_session(s, i1) {
            Some((session, i2)) => match sdec_u64(s, i2) {
                Some((n, i3)) => match sdec_entries(s, i3, n as nat) {
                    Some((history, i4)) => Some((UserStateV { config, session, history }, i4)),
                    None => None,
                },
                None => None,
            },
            None => None,
        },
        None => None,
    }
}

#[verifier::rlimit(50)]
pub proof fn lemma_sdec_state_body_of_enc(s: Seq<u8>, i: int, v: UserStateV)
    requires
        0 <= i,
        valid_state(v),
        i + senc_state_body(v).len() <= s.len(),
        s.subrange(i, i + senc_state_body(v).len() as int) == senc_state_body(v),
    ensures
        sdec_state_body(s, i) == Some((v, i + senc_state_body(v).len() as int)),
{
    let e1 = senc_config(v.config);
    let e2 = senc_opt_session(v.session);
    let e3 = senc_u64(v.history.len() as u64);
    let e4 = senc_entries(v.history);
    assert(senc_state_body(v) =~= e1 + (e2 + (e3 + e4)));
    let i1 = i + e1.len() as int;
    let i2 = i1 + e2.len() as int;
    let i3 = i2 + e3.len() as int;
    lemma_split_concat(s, i, e1, e2 + (e3 + e4));
    lemma_sdec_config_of_enc(s, i, v.config);
    lemma_split_concat(s, i1, e2, e3 + e4);
    lemma_sdec_opt_session_of_enc(s, i1, v.session);
    lemma_split_concat(s, i2, e3, e4);
    lemma_sdec_u64_of_enc(s, i2, (v.history.len() as u64));
    assert((v.history.len() as u64) as nat == v.history.len());
    lemma_sdec_entries_of_enc(s, i3, v.history);
}

// ---------------------------------------------------------------------------
// PublicStats
// ---------------------------------------------------------------------------

/// The single global statistics record, keyed by a fixed sentinel.
/// Profit is a fixed-point micro-USDC amount.
#[derive(Clone, Copy, Debug, PartialEq, Eq, Structural)]
pub struct PublicStats {
    pub total_users: u64,
    pub active_sessions: u64,
    pub total_snipe: u64,
    pub successfull_snipe: u64,
    /// Cumulative realized profit, in micro-USDC.
    pub total_profit_usdc: u64,
}

impl PublicStats {
    /// The zero-valued record that stands for an absent global record.
    pub open spec fn spec_zero() -> PublicStats {
        PublicStats {
            total_users: 0,
            active_sessions: 0,
            total_snipe: 0,
            successfull_snipe: 0,
            total_profit_usdc: 0,
        }
    }
}

impl Default for PublicStats {
    fn default() -> (r: PublicStats)
        ensures
            r == PublicStats::spec_zero(),
    {
        PublicStats {
            total_users: 0,
            active_sessions: 0,
            total_snipe: 0,
            successfull_snipe: 0,
            total_profit_usdc: 0,
        }
    }
}

pub open spec fn senc_stats_body(p: PublicStats) -> Seq<u8> {
    senc_u64(p.total_users) + senc_u64(p.active_sessions) + senc_u64(p.total_snipe)
        + senc_u64(p.successfull_snipe) + senc_u64(p.total_profit_usdc)
}

pub open spec fn sdec_stats_body(s: Seq<u8>, i: int) -> Option<(PublicStats, int)> {
    match sdec_u64(s, i) {
        Some((total_users, i1)) => match sdec_u64(s, i1) {
            Some((active_sessions, i2)) => match sdec_u64(s, i2) {
                Some((total_snipe, i3)) => match sdec_u64(s, i3) {
                    Some((successfull_snipe, i4)) => match sdec_u64(s, i4) {
                        Some((total_profit_usdc, i5)) => Some((
                            PublicStats {
                                total_users,
                                active_sessions,
                                total_snipe,
                                successfull_snipe,
                                total_profit_usdc,
                            },
                            i5,
                        )),
                        None => None,
                    },
                    None => None,
                },
                None => None,
            },
            None => None,
        },
        None => None,
    }
}

pub proof fn lemma_sdec_stats_body_of_enc(s: Seq<u8>, i: int, p: PublicStats)
    requires
        0 <= i,
        i + senc_stats_body(p).len() <= s.len(),
        s.subrange(i, i + senc_stats_body(p).len() as int) == senc_stats_body(p),
    ensures
        sdec_stats_body(s, i) == Some((p, i + senc_stats_body(p).len() as int)),
{
    let e1 = senc_u64(p.total_users);
    let e2 = senc_u64(p.active_sessions);
    let e3 = senc_u64(p.total_snipe);
    let e4 = senc_u64(p.successfull_snipe);
    let e5 = senc_u64(p.total_profit_usdc);
    assert(senc_stats_body(p) =~= e1 + (e2 + (e3 + (e4 + e5))));
    lemma_split_concat(s, i, e1, e2 + (e3 + (e4 + e5)));
    lemma_sdec_u64_of_enc(s, i, p.total_users);
    lemma_split_concat(s, i + 8, e2, e3 + (e4 + e5));
    lemma_sdec_u64_of_enc(s, i + 8, p.active_sessions);
    lemma_split_concat(s, i + 16, e3, e4 + e5);
    lemma_sdec_u64_of_enc(s, i + 16, p.total_snipe);
    lemma_split_concat(s, i + 24, e4, e5);
    lemma_sdec_u64_of_enc(s, i + 24, p.successfull_snipe);
    lemma_sdec_u64_of_enc(s, i + 32, p.total_profit_usdc);
}

// ---------------------------------------------------------------------------
// whole persisted records: version byte, body, nothing after
// ---------------------------------------------------------------------------

pub open spec fn senc_config_record(c: UserConfig) -> Seq<u8> {
    senc_u8(RECORD_VERSION) + senc_config(c)
}

pub open spec fn sdec_config_record(s: Seq<u8>) -> Option<UserConfig> {
    match sdec_u8(s, 0) {
        Some((tag, i)) => {
            if tag == RECORD_VERSION {
                match sdec_config(s, i) {
                    Some((c, j)) => {
                        if j == s.len() {
                            Some(c)
                        } else {
                            None
                        }
                    },
                    None => None,
                }
            } else {
                None
            }
        },
        None => None,
    }
}

pub open spec fn senc_trade_record(t: TradeLogV) -> Seq<u8> {
    senc_u8(RECORD_VERSION) + senc_trade(t)
}

pub open spec fn sdec_trade_record(s: Seq<u8>) -> Option<TradeLogV> {
    match sdec_u8(s, 0) {
        Some((tag, i)) => {
            if tag == RECORD_VERSION {
                match sdec_trade(s, i) {
                    Some((t, j)) => {
                        if j == s.len() {
                            Some(t)
                        } else {
                            None
                        }
                    },
                    None => None,
                }
            } else {
                None
            }
        },
        None => None,
    }
}

pub open spec fn senc_session_record(w: WalletSessionV) -> Seq<u8> {
    senc_u8(RECORD_VERSION) + senc_session(w)
}

pub open spec fn sdec_session_record(s: Seq<u8>) -> Option<WalletSessionV> {
    match sdec_u8(s, 0) {
        Some((tag, i)) => {
            if tag == RECORD_VERSION {
                match sdec_session(s, i) {
                    Some((w, j)) => {
                        if j == s.len() {
                            Some(w)
                        } else {
                            None
                        }
                    },
                    None => None,
                }
            } else {
                None
            }
        },
        None => None,
    }
}

pub open spec fn senc_state_record(v: UserStateV) -> Seq<u8> {
    senc_u8(RECORD_VERSION) + senc_state_body(v)
}

pub open spec fn sdec_state_record(s: Seq<u8>) -> Option<UserStateV> {
    match sdec_u8(s, 0) {
        Some((tag, i)) => {
            if tag == RECORD_VERSION {
                match sdec_state_body(s, i) {
                    Some((v, j)) => {
                        if j == s.len() {
                            Some(v)
                        } else {
                            None
                        }
                    },
                    None => None,
                }
            } else {
                None
            }
        },
        None => None,
    }
}

pub open spec fn senc_stats_record(p: PublicStats) -> Seq<u8> {
    senc_u8(RECORD_VERSION) + senc_stats_body(p)
}

pub open spec fn sdec_stats_record(s: Seq<u8>) -> Option<PublicStats> {
    match sdec_u8(s, 0) {
        Some((tag, i)) => {
            if tag == RECORD_VERSION {
                match sdec_stats_body(s, i) {
                    Some((p, j)) => {
                        if j == s.len() {
                            Some(p)
                        } else {
                            None
                        }
                    },
                    None => None,
                }
            } else {
                None
            }
        },
        None => None,
    }
}

// ---------------------------------------------------------------------------
// round trips: decoding an encoded record yields the record
// ---------------------------------------------------------------------------

/// Every trading policy round-trips through the codec.
pub proof fn lemma_config_round_trip(c: UserConfig)
    ensures
        sdec_config_record(senc_config_record(c)) == Some(c),
{
    let s = senc_config_record(c);
    assert(s.subrange(0, s.len() as int) =~= s);
    lemma_split_concat(s, 0, senc_u8(RECORD_VERSION), senc_config(c));
    assert(s[0] == s.subrange(0, 1)[0]);
    lemma_sdec_config_of_enc(s, 1, c);
}

/// Every encodable trade record round-trips through the codec.
pub proof fn lemma_trade_round_trip(t: TradeLogV)
    requires
        valid_trade(t),
    ensures
        sdec_trade_record(senc_trade_record(t)) == Some(t),
{
    let s = senc_trade_record(t);
    assert(s.subrange(0, s.len() as int) =~= s);
    lemma_split_concat(s, 0, senc_u8(RECORD_VERSION), senc_trade(t));
    assert(s[0] == s.subrange(0, 1)[0]);
    lemma_sdec_trade_of_enc(s, 1, t);
}

/// Every encodable wallet session round-trips through the codec.
pub proof fn lemma_session_round_trip(w: WalletSessionV)
    requires
        valid_session(w),
    ensures
        sdec_session_record(senc_session_record(w)) == Some(w),
{
    let s = senc_session_record(w);
    assert(s.subrange(0, s.len() as int) =~= s);
    lemma_split_concat(s, 0, senc_u8(RECORD_VERSION), senc_session(w));
    assert(s[0] == s.subrange(0, 1)[0]);
    lemma_sdec_session_of_enc(s, 1, w);
}

/// Every encodable per-user record round-trips through the codec.
pub proof fn lemma_state_round_trip(v: UserStateV)
    requires
        valid_state(v),
    ensures
        sdec_state_record(senc_state_record(v)) == Some(v),
{
    let s = senc_state_record(v);
    assert(s.subrange(0, s.len() as int) =~= s);
    lemma_split_concat(s, 0, senc_u8(RECORD_VERSION), senc_state_body(v));
    assert(s[0] == s.subrange(0, 1)[0]);
    lemma_sdec_state_body_of_enc(s, 1, v);
}

/// Every statistics record round-trips through the codec.
pub proof fn lemma_stats_round_trip(p: PublicStats)
    ensures
        sdec_stats_record(senc_stats_record(p)) == Some(p),
{
    let s = senc_stats_record(p);
    assert(s.subrange(0, s.len() as int) =~= s);
    lemma_split_concat(s, 0, senc_u8(RECORD_VERSION), senc_stats_body(p));
    assert(s[0] == s.subrange(0, 1)[0]);
    lemma_sdec_stats_body_of_enc(s, 1, p);
}

// ---------------------------------------------------------------------------
// executable encode and decode for each record
// ---------------------------------------------------------------------------

impl UserConfig {
    pub fn encode(&self) -> (r: Vec<u8>)
        ensures
            r@ == senc_config_record(*self),
    {
        let mut out: Vec<u8> = Vec::new();
        enc_u8(&mut out, RECORD_VERSION);
        enc_config(&mut out, self);
        proof {
            assert(out@ =~= senc_config_record(*self));
        }
        out
    }

    pub fn decode(bytes: &Vec<u8>) -> (r: Result<UserConfig, CodecError>)
        ensures
            match r {
                Ok(c) => sdec_config_record(bytes@) == Some(c),
                Err(_) => sdec_config_record(bytes@) is None,
            },
    {
        let (tag, pos) = match dec_u8(bytes, 0) {
            Ok(p) => p,
            Err(e) => {
                return Err(e);
            },
        };
        if tag != RECORD_VERSION {
            return Err(CodecError);
        }
        let (c, pos) = match dec_config(bytes, pos) {
            Ok(p) => p,
            Err(e) => {
                return Err(e);
            },
        };
        if pos != bytes.len() {
            return Err(CodecError);
        }
        Ok(c)
    }
}

impl TradeLog {
    pub fn encode(&self) -> (r: Vec<u8>)
        ensures
            r@ == senc_trade_record(self@),
    {
        let mut out: Vec<u8> = Vec::new();
        enc_u8(&mut out, RECORD_VERSION);
        enc_trade(&mut out, self);
        proof {
            assert(out@ =~= senc_trade_record(self@));
        }
        out
    }

    pub fn decode(bytes: &Vec<u8>) -> (r: Result<TradeLog, CodecError>)
        ensures
            match r {
                Ok(t) => sdec_trade_record(bytes@) == Some(t@),
                Err(_) => sdec_trade_record(bytes@) is None,
            },
    {
        let (tag, pos) = match dec_u8(bytes, 0) {
            Ok(p) => p,
            Err(e) => {
                return Err(e);
            },
        };
        if tag != RECORD_VERSION {
            return Err(CodecError);
        }
        let (t, pos) = match dec_trade(bytes, pos) {
            Ok(p) => p,
            Err(e) => {
                return Err(e);
            },
        };
        if pos != bytes.len() {
            return Err(CodecError);
        }
        Ok(t)
    }
}

impl WalletSession {
    pub fn encode(&self) -> (r: Vec<u8>)
        ensures
            r@ == senc_session_record(self@),
    {
        let mut out: Vec<u8> = Vec::new();
        enc_u8(&mut out, RECORD_VERSION);
        enc_session(&mut out, self);
        proof {
            assert(out@ =~= senc_session_record(self@));
        }
        out
    }

    pub fn decode(bytes: &Vec<u8>) -> (r: Result<WalletSession, CodecError>)
        ensures
            match r {
                Ok(w) => sdec_session_record(bytes@) == Some(w@),
                Err(_) => sdec_session_record(bytes@) is None,
            },
    {
        let (tag, pos) = match dec_u8(bytes, 0) {
            Ok(p) => p,
            Err(e) => {
                return Err(e);
            },
        };
        if tag != RECORD_VERSION {
            return Err(CodecError);
        }
        let (w, pos) = match dec_session(bytes, pos) {
            Ok(p) => p,
            Err(e) => {
                return Err(e);
            },
        };
        if pos != bytes.len() {
            return Err(CodecError);
        }
        Ok(w)
    }
}

impl UserState {
    pub fn encode(&self) -> (r: Vec<u8>)
        ensures
            r@ == senc_state_record(self@),
    {
        let mut out: Vec<u8> = Vec::new();
        enc_u8(&mut out, RECORD_VERSION);
        enc_config(&mut out, &self.config);
        enc_opt_session(&mut out, &self.session);
        enc_u64(&mut out, self.history.len() as u64);
        let ghost pre = out@;
        let ghost hv = self@.history;
        let mut k: usize = 0;
        while k < self.history.len()
            invariant
                k <= self.history.len(),
                hv == self@.history,
                hv.len() == self.history@.len(),
                out@ == pre + senc_entries(hv.take(k as int)),
            decreases self.history.len() - k,
        {
            enc_trade(&mut out, &self.history[k]);
            proof {
                assert(hv[k as int] == self.history@[k as int]@);
                assert(hv.take(k + 1) =~= hv.take(k as int).push(hv[k as int]));
                lemma_senc_entries_push(hv.take(k as int), hv[k as int]);
                assert(out@ =~= pre + senc_entries(hv.take(k + 1)));
            }
            k = k + 1;
        }
        proof {
            assert(hv.take(hv.len() as int) =~= hv);
            assert(out@ =~= senc_state_record(self@));
        }
        out
    }

    #[verifier::rlimit(50)]
    pub fn decode(bytes: &Vec<u8>) -> (r: Result<UserState, CodecError>)
        ensures
            match r {
                Ok(v) => sdec_state_record(bytes@) == Some(v@),
                Err(_) => sdec_state_record(bytes@) is None,
            },
    {
        let (tag, p1) = match dec_u8(bytes, 0) {
            Ok(p) => p,
            Err(e) => {
                return Err(e);
            },
        };
        if tag != RECORD_VERSION {
            return Err(CodecError);
        }
        let (config, p2) = match dec_config(bytes, p1) {
            Ok(p) => p,
            Err(e) => {
                return Err(e);
            },
        };
        let (session, p3) = match dec_opt_session(bytes, p2) {
            Ok(p) => p,
            Err(e) => {
                return Err(e);
            },
        };
        let (count, start) = match dec_u64(bytes, p3) {
            Ok(p) => p,
            Err(e) => {
                return Err(e);
            },
        };
        let ghost whole = sdec_entries(bytes@, start as int, count as nat);
        proof {
            assert(p1 == 1);
            assert(sdec_config(bytes@, 1) == Some((config, p2 as int)));
            assert(sdec_state_body(bytes@, 1) == (match sdec_entries(
                bytes@,
                start as int,
                count as nat,
            ) {
                Some((history, i4)) => Some(
                    (
                        UserStateV {
                            config,
                            session: match session {
                                Some(w) => Some(w@),
                                None => None,
                            },
                            history,
                        },
                        i4,
                    ),
                ),
                None => None,
            }));
        }
        let mut history: Vec<TradeLog> = Vec::new();
        let mut at: usize = start;
        let mut k: u64 = 0;
        while k < count
            invariant
                k <= count,
                whole == sdec_entries(bytes@, start as int, count as nat),
                match sdec_entries(bytes@, at as int, (count - k) as nat) {
                    Some((rest, end)) => whole == Some((entry_views(history@) + rest, end)),
                    None => whole is None,
                },
                whole is None ==> sdec_state_body(bytes@, 1) is None,
                sdec_state_body(bytes@, 1) is None ==> sdec_state_record(bytes@) is None,
            decreases count - k,
        {
            let ghost prev_views = entry_views(history@);
            match dec_trade(bytes, at) {
                Ok((t, p2)) => {
                    history.push(t);
                    at = p2;
                    proof {
                        assert(entry_views(history@) =~= prev_views + seq![t@]);
                        match sdec_entries(bytes@, at as int, (count - k - 1) as nat) {
                            Some((rest2, end2)) => {
                                assert((prev_views + (seq![t@] + rest2)) =~= (prev_views + seq![
                                    t@,
                                ]) + rest2);
                            },
                            None => {},
                        }
                    }
                },
                Err(e) => {
                    proof {
                        assert((count - k) as nat != 0);
                        assert(sdec_entries(bytes@, at as int, (count - k) as nat) is None);
                        assert(whole is None);
                        assert(sdec_entries(bytes@, start as int, count as nat) is None);
                        assert(sdec_state_body(bytes@, 1) is None);
                        assert(sdec_state_record(bytes@) is None);
                    }
                    return Err(e);
                },
            }
            k = k + 1;
        }
        proof {
            assert(sdec_entries(bytes@, at as int, 0nat) == Some(
                (Seq::<TradeLogV>::empty(), at as int),
            ));
            assert(entry_views(history@) + Seq::<TradeLogV>::empty() =~= entry_views(history@));
        }
        if at != bytes.len() {
            return Err(CodecError);
        }
        Ok(UserState { config, session, history })
    }
}

impl PublicStats {
    pub fn encode(&self) -> (r: Vec<u8>)
        ensures
            r@ == senc_stats_record(*self),
    {
        let mut out: Vec<u8> = Vec::new();
        enc_u8(&mut out, RECORD_VERSION);
        enc_u64(&mut out, self.total_users);
        enc_u64(&mut out, self.active_sessions);
        enc_u64(&mut out, self.total_snipe);
        enc_u64(&mut out, self.successfull_snipe);
        enc_u64(&mut out, self.total_profit_usdc);
        proof {
            assert(out@ =~= senc_stats_record(*self));
        }
        out
    }

    pub fn decode(bytes: &Vec<u8>) -> (r: Result<PublicStats, CodecError>)
        ensures
            match r {
                Ok(p) => sdec_stats_record(bytes@) == Some(p),
                Err(_) => sdec_stats_record(bytes@) is None,
            },
    {
        let (tag, pos) = match dec_u8(bytes, 0) {
            Ok(p) => p,
            Err(e) => {
                return Err(e);
            },
        };
        if tag != RECORD_VERSION {
            return Err(CodecError);
        }
        let (total_users, pos) = match dec_u64(bytes, pos) {
            Ok(p) => p,
            Err(e) => {
                return Err(e);
            },
        };
        let (active_sessions, pos) = match dec_u64(bytes, pos) {
            Ok(p) => p,
            Err(e) => {
                return Err(e);
            },
        };
        let (total_snipe, pos) = match dec_u64(bytes, pos) {
            Ok(p) => p,
            Err(e) => {
                return Err(e);
            },
        };
        let (successfull_snipe, pos) = match dec_u64(bytes, pos) {
            Ok(p) => p,
            Err(e) => {
                return Err(e);
            },
        };
        let (total_profit_usdc, pos) = match dec_u64(bytes, pos) {
            Ok(p) => p,
            Err(e) => {
                return Err(e);
            },
        };
        if pos != bytes.len() {
            return Err(CodecError);
        }
        Ok(PublicStats {
            total_users,
            active_sessions,
            total_snipe,
            successfull_snipe,
            total_profit_usdc,
        })
    }
}

/// The view of an in-memory record is always encodable: every held
/// sequence's length fits the codec's length prefix.
pub proof fn lemma_state_view_valid(u: UserState)
    ensures
        valid_state(u@),
{
    match u.session {
        Some(w) => {
            assert(w.pubkey.len() == w.pubkey@.len());
            assert(w.session_key.len() == w.session_key@.len());
        },
        None => {},
    }
    assert(u.history.len() == u.history@.len());
    assert forall|k: int| 0 <= k < u@.history.len() implies valid_trade(
        #[trigger] u@.history[k],
    ) by {
        assert(u@.history[k] == u.history@[k]@);
        let t = u.history@[k];
        assert(t.token.len() == t.token@.len());
    }
}

} // verus!
