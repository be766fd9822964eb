//! The store's public face: user-keyed read and write of the full
//! per-user record, session lifecycle derived from its stored timestamps,
//! and the read-modify-write updater of the single global statistics
//! record.
//!
//! Mutating operations take the handle exclusively (`&mut`), which
//! serializes every read-modify-write span: the combined effect of any
//! number of updates equals their serial order, so no update is lost.

use crate::records::{
    lemma_state_round_trip, sdec_state_record, sdec_stats_record, senc_state_record,
    senc_stats_record, valid_entries, valid_state, valid_trade, PublicStats, TradeLogV, UserState,
    UserStateV,
};
use crate::store::{tree_entries, tree_get, tree_insert, tree_open};
use vstd::prelude::*;

verus! {

/// Failure of a store operation.
#[derive(Clone, Copy, Debug, PartialEq, Eq, Structural)]
pub enum DbError {
    /// The durable store could not be opened or its directories created.
    StoreInit,
    /// The underlying store failed to read or write.
    Store,
    /// Stored bytes do not decode into the expected record shape.
    Codec,
}

/// The sentinel key of the single global statistics record.
pub open spec fn stats_key() -> Seq<char> {
    "stats"@
}

/// Process-wide handle on the two keyspaces: one tree of per-user
/// records, one tree holding the single global record.
pub struct AppDb {
    users: sled::Db,
    public: sled::Db,
}

impl AppDb {
    /// The per-user keyspace: stored bytes under each user identifier.
    pub closed spec fn user_entries(self) -> Map<Seq<char>, Seq<u8>> {
        tree_entries(self.users)
    }

    /// The global keyspace; only `stats_key()` is ever written.
    pub closed spec fn public_entries(self) -> Map<Seq<char>, Seq<u8>> {
        tree_entries(self.public)
    }

    /// Opens (creating if absent) the store under `data_dir`: the global
    /// record tree and the user-record tree under its index subdirectory.
    pub fn open(data_dir: &str) -> (r: Result<AppDb, DbError>)
        ensures
            match r {
                Ok(_) => true,
                Err(e) => e == DbError::StoreInit,
            },
    {
        let public = match tree_open(data_dir, "public.db") {
            Ok(d) => d,
            Err(_) => {
                return Err(DbError::StoreInit);
            },
        };
        let users = match tree_open(data_dir, "users_dbs/index") {
            Ok(d) => d,
            Err(_) => {
                return Err(DbError::StoreInit);
            },
        };
        Ok(AppDb { users, public })
    }

    /// Reads and decodes the record of `user_id`; absence is not an
    /// error. A record that does not decode is reported as `Codec`, a
    /// failed read as `Store`.
    pub fn get_user(&self, user_id: &str) -> (r: Result<Option<UserState>, DbError>)
        ensures
            match r {
                Ok(Some(u)) => self.user_entries().contains_key(user_id@) && sdec_state_record(
                    self.user_entries()[user_id@],
                ) == Some(u@),
                Ok(None) => !self.user_entries().contains_key(user_id@),
                Err(e) => match e {
                    DbError::Codec => self.user_entries().contains_key(user_id@)
                        && sdec_state_record(self.user_entries()[user_id@]) is None,
                    DbError::Store => true,
                    DbError::StoreInit => false,
                },
            },
    {
        match tree_get(&self.users, user_id) {
            Ok(Some(bytes)) => match UserState::decode(&bytes) {
                Ok(u) => Ok(Some(u)),
                Err(_) => Err(DbError::Codec),
            },
            Ok(None) => Ok(None),
            Err(_) => Err(DbError::Store),
        }
    }

    /// Encodes and overwrites the full record unconditionally (no merge:
    /// last writer wins at record granularity), returning the previously
    /// stored bytes.
    pub fn save_user(&mut self, user_id: &str, state: &UserState) -> (r: Result<
        Option<Vec<u8>>,
        DbError,
    >)
        ensures
            final(self).public_entries() == old(self).public_entries(),
            match r {
                Ok(prev) => {
                    &&& final(self).user_entries() == old(self).user_entries().insert(
                        user_id@,
                        senc_state_record(state@),
                    )
                    &&& match prev {
                        Some(p) => old(self).user_entries().contains_key(user_id@) && old(
                            self,
                        ).user_entries()[user_id@] == p@,
                        None => !old(self).user_entries().contains_key(user_id@),
                    }
                },
                Err(e) => e == DbError::Store,
            },
    {
        let encoded = state.encode();
        match tree_insert(&mut self.users, user_id, &encoded) {
            Ok(prev) => Ok(prev),
            Err(_) => Err(DbError::Store),
        }
    }

    /// Reads the record of `user_id`; if present, clears its session and
    /// writes the full record back. A user without a record is left
    /// untouched.
    pub fn disconnect_user(&mut self, user_id: &str) -> (r: Result<(), DbError>)
        ensures
            final(self).public_entries() == old(self).public_entries(),
            match r {
                Ok(_) => {
                    let m = old(self).user_entries();
                    if m.contains_key(user_id@) {
                        match sdec_state_record(m[user_id@]) {
                            Some(v) => final(self).user_entries() == m.insert(
                                user_id@,
                                senc_state_record(UserStateV { session: None, ..v }),
                            ),
                            None => false,
                        }
                    } else {
                        final(self).user_entries() == m
                    }
                },
                Err(e) => match e {
                    DbError::Codec => old(self).user_entries().contains_key(user_id@)
                        && sdec_state_record(old(self).user_entries()[user_id@]) is None,
                    DbError::Store => true,
                    DbError::StoreInit => false,
                },
            },
    {
        match self.get_user(user_id) {
            Ok(Some(mut state)) => {
                state.session = None;
                match self.save_user(user_id, &state) {
                    Ok(_) => Ok(()),
                    Err(e) => Err(e),
                }
            },
            Ok(None) => Ok(()),
            Err(e) => Err(e),
        }
    }

    /// Returns the decoded global record, or the zero-valued default if
    /// absent — absence is not an error.
    pub fn get_public_stats(&self) -> (r: Result<PublicStats, DbError>)
        ensures
            match r {
                Ok(p) => spec_public_stats(self.public_entries()) == Some(p),
                Err(e) => match e {
                    DbError::Codec => self.public_entries().contains_key(stats_key())
                        && sdec_stats_record(self.public_entries()[stats_key()]) is None,
                    DbError::Store => true,
                    DbError::StoreInit => false,
                },
            },
    {
        match tree_get(&self.public, "stats") {
            Ok(Some(bytes)) => match PublicStats::decode(&bytes) {
                Ok(p) => Ok(p),
                Err(_) => Err(DbError::Codec),
            },
            Ok(None) => Ok(PublicStats::default()),
            Err(_) => Err(DbError::Store),
        }
    }

    /// Reads the current global record, applies the named mutation and
    /// writes the result back. The exclusive borrow spans the whole
    /// read-modify-write cycle, so updates serialize and none is lost.
    pub fn update_public_stats(&mut self, delta: &StatsDelta) -> (r: Result<(), DbError>)
        ensures
            final(self).user_entries() == old(self).user_entries(),
            match r {
                Ok(_) => match spec_public_stats(old(self).public_entries()) {
                    Some(p) => final(self).public_entries() == old(self).public_entries().insert(
                        stats_key(),
                        senc_stats_record(spec_apply_delta(p, *delta)),
                    ),
                    None => false,
                },
                Err(e) => match e {
                    DbError::Codec => old(self).public_entries().contains_key(stats_key())
                        && sdec_stats_record(old(self).public_entries()[stats_key()]) is None,
                    DbError::Store => true,
                    DbError::StoreInit => false,
                },
            },
    {
        let stats = match self.get_public_stats() {
            Ok(p) => p,
            Err(e) => {
                return Err(e);
            },
        };
        let updated = delta.apply(&stats);
        let encoded = updated.encode();
        match tree_insert(&mut self.public, "stats", &encoded) {
            Ok(_) => Ok(()),
            Err(_) => Err(DbError::Store),
        }
    }

    /// Whether the stored record of `user_id` holds a session active at
    /// time `now`. A missing or corrupt record, a failed read and an
    /// absent session all answer no, so a positive answer guarantees an
    /// active stored session.
    pub fn is_session_active_at(&self, user_id: &str, now: u64) -> (r: bool)
        ensures
            r ==> spec_stored_session_active(self.user_entries(), user_id@, now),
    {
        match self.get_user(user_id) {
            Ok(Some(u)) => state_session_active_at(&u, now),
            _ => false,
        }
    }

    /// As [`Self::is_session_active_at`], at the current wall-clock time.
    pub fn is_session_active(&self, user_id: &str) -> (r: bool)
        ensures
            r ==> exists|now: u64|
                #[trigger] spec_stored_session_active(self.user_entries(), user_id@, now),
    {
        let now = now_unix_seconds();
        self.is_session_active_at(user_id, now)
    }
}

/// Relies on `chrono::Utc::now().timestamp()`: seconds since the Unix
/// epoch, the same scale in which session timestamps are stored. Nothing
/// is assumed of the clock's value.
#[verifier::external_body]
fn now_unix_seconds() -> u64 {
    chrono::Utc::now().timestamp() as u64
}

// ---------------------------------------------------------------------------
// session activity
// ---------------------------------------------------------------------------

/// A session is active while the current time is at or before its expiry.
pub open spec fn spec_session_active_at(v: UserStateV, now: u64) -> bool {
    match v.session {
        Some(w) => now <= w.expires_at,
        None => false,
    }
}

/// The stored record of `uid` exists, decodes, and holds a session
/// active at time `now`.
pub open spec fn spec_stored_session_active(
    m: Map<Seq<char>, Seq<u8>>,
    uid: Seq<char>,
    now: u64,
) -> bool {
    m.contains_key(uid) && match sdec_state_record(m[uid]) {
        Some(v) => spec_session_active_at(v, now),
        None => false,
    }
}

/// Whether an in-memory record holds a session active at time `now`.
pub fn state_session_active_at(state: &UserState, now: u64) -> (r: bool)
    ensures
        r == spec_session_active_at(state@, now),
{
    match &state.session {
        Some(w) => now <= w.expires_at,
        None => false,
    }
}

/// Law: a session whose expiry is `t` is active at time `t` and no
/// longer active at time `t + 1`.
pub proof fn lemma_session_activity_boundary(v: UserStateV, t: u64)
    requires
        match v.session {
            Some(w) => w.expires_at == t,
            None => false,
        },
        t < u64::MAX,
    ensures
        spec_session_active_at(v, t),
        !spec_session_active_at(v, (t + 1) as u64),
{
}

// ---------------------------------------------------------------------------
// the global statistics record and its named mutations
// ---------------------------------------------------------------------------

/// What the global keyspace holds: the decoded statistics record, the
/// zero-valued default where the key is absent, or nothing where the
/// stored bytes are corrupt.
pub open spec fn spec_public_stats(m: Map<Seq<char>, Seq<u8>>) -> Option<PublicStats> {
    if m.contains_key(stats_key()) {
        sdec_stats_record(m[stats_key()])
    } else {
        Some(PublicStats::spec_zero())
    }
}

/// A named, additive mutation of the global statistics record. Each
/// field is added to its counterpart with saturation at the maximum.
#[derive(Clone, Copy, Debug, PartialEq, Eq, Structural)]
pub struct StatsDelta {
    pub add_total_users: u64,
    pub add_active_sessions: u64,
    pub add_total_snipe: u64,
    pub add_successfull_snipe: u64,
    /// In micro-USDC.
    pub add_total_profit_usdc: u64,
}

pub open spec fn spec_sat_add(a: u64, b: u64) -> u64 {
    if a + b > u64::MAX {
        u64::MAX
    } else {
        (a + b) as u64
    }
}

pub open spec fn spec_apply_delta(p: PublicStats, d: StatsDelta) -> PublicStats {
    PublicStats {
        total_users: spec_sat_add(p.total_users, d.add_total_users),
        active_sessions: spec_sat_add(p.active_sessions, d.add_active_sessions),
        total_snipe: spec_sat_add(p.total_snipe, d.add_total_snipe),
        successfull_snipe: spec_sat_add(p.successfull_snipe, d.add_successfull_snipe),
        total_profit_usdc: spec_sat_add(p.total_profit_usdc, d.add_total_profit_usdc),
    }
}

pub open spec fn spec_combine(d1: StatsDelta, d2: StatsDelta) -> StatsDelta {
    StatsDelta {
        add_total_users: spec_sat_add(d1.add_total_users, d2.add_total_users),
        add_active_sessions: spec_sat_add(d1.add_active_sessions, d2.add_active_sessions),
        add_total_snipe: spec_sat_add(d1.add_total_snipe, d2.add_total_snipe),
        add_successfull_snipe: spec_sat_add(d1.add_successfull_snipe, d2.add_successfull_snipe),
        add_total_profit_usdc: spec_sat_add(d1.add_total_profit_usdc, d2.add_total_profit_usdc),
    }
}

fn sat_add(a: u64, b: u64) -> (r: u64)
    ensures
        r == spec_sat_add(a, b),
{
    if a > u64::MAX - b {
        u64::MAX
    } else {
        a + b
    }
}

impl StatsDelta {
    /// A delta that changes nothing.
    pub fn none() -> (r: StatsDelta)
        ensures
            r == (StatsDelta {
                add_total_users: 0,
                add_active_sessions: 0,
                add_total_snipe: 0,
                add_successfull_snipe: 0,
                add_total_profit_usdc: 0,
            }),
    {
        StatsDelta {
            add_total_users: 0,
            add_active_sessions: 0,
            add_total_snipe: 0,
            add_successfull_snipe: 0,
            add_total_profit_usdc: 0,
        }
    }

    pub fn apply(&self, p: &PublicStats) -> (r: PublicStats)
        ensures
            r == spec_apply_delta(*p, *self),
    {
        PublicStats {
            total_users: sat_add(p.total_users, self.add_total_users),
            active_sessions: sat_add(p.active_sessions, self.add_active_sessions),
            total_snipe: sat_add(p.total_snipe, self.add_total_snipe),
            successfull_snipe: sat_add(p.successfull_snipe, self.add_successfull_snipe),
            total_profit_usdc: sat_add(p.total_profit_usdc, self.add_total_profit_usdc),
        }
    }

    pub fn combine(&self, other: &StatsDelta) -> (r: StatsDelta)
        ensures
            r == spec_combine(*self, *other),
    {
        StatsDelta {
            add_total_users: sat_add(self.add_total_users, other.add_total_users),
            add_active_sessions: sat_add(self.add_active_sessions, other.add_active_sessions),
            add_total_snipe: sat_add(self.add_total_snipe, other.add_total_snipe),
            add_successfull_snipe: sat_add(
                self.add_successfull_snipe,
                other.add_successfull_snipe,
            ),
            add_total_profit_usdc: sat_add(
                self.add_total_profit_usdc,
                other.add_total_profit_usdc,
            ),
        }
    }
}

proof fn lemma_sat_add_assoc(a: u64, b: u64, c: u64)
    ensures
        spec_sat_add(spec_sat_add(a, b), c) == spec_sat_add(a, spec_sat_add(b, c)),
{
}

/// Law: applying one delta and then another yields the same record as
/// applying their combination — sequential aggregate updates compose.
pub proof fn lemma_delta_composition(p: PublicStats, d1: StatsDelta, d2: StatsDelta)
    ensures
        spec_apply_delta(spec_apply_delta(p, d1), d2) == spec_apply_delta(p, spec_combine(d1, d2)),
{
    lemma_sat_add_assoc(p.total_users, d1.add_total_users, d2.add_total_users);
    lemma_sat_add_assoc(p.active_sessions, d1.add_active_sessions, d2.add_active_sessions);
    lemma_sat_add_assoc(p.total_snipe, d1.add_total_snipe, d2.add_total_snipe);
    lemma_sat_add_assoc(p.successfull_snipe, d1.add_successfull_snipe, d2.add_successfull_snipe);
    lemma_sat_add_assoc(
        p.total_profit_usdc,
        d1.add_total_profit_usdc,
        d2.add_total_profit_usdc,
    );
}

/// The mutation that records one more attempted snipe.
pub open spec fn unit_snipe_delta() -> StatsDelta {
    StatsDelta {
        add_total_users: 0,
        add_active_sessions: 0,
        add_total_snipe: 1,
        add_successfull_snipe: 0,
        add_total_profit_usdc: 0,
    }
}

/// The statistics record after `n` single-attempt updates in a row.
pub open spec fn spec_apply_unit_snipes(p: PublicStats, n: nat) -> PublicStats
    decreases n,
{
    if n == 0 {
        p
    } else {
        spec_apply_delta(spec_apply_unit_snipes(p, (n - 1) as nat), unit_snipe_delta())
    }
}

/// Law: `n` updates, each adding one attempted snipe, leave the counter
/// at its initial value plus `n` and every other field unchanged. The
/// exclusive borrow on the handle serializes concurrent callers, so this
/// is the combined effect of `n` such calls however they interleave.
pub proof fn lemma_unit_updates_accumulate(p: PublicStats, n: nat)
    requires
        p.total_snipe + n <= u64::MAX,
    ensures
        spec_apply_unit_snipes(p, n) == (PublicStats {
            total_snipe: (p.total_snipe + n) as u64,
            ..p
        }),
    decreases n,
{
    if n == 0 {
        assert(spec_apply_unit_snipes(p, 0) == p);
    } else {
        lemma_unit_updates_accumulate(p, (n - 1) as nat);
    }
}

/// Law: a delta that adds no more successes than attempts preserves the
/// record invariant that successes never exceed attempts.
pub proof fn lemma_delta_preserves_stats_invariant(p: PublicStats, d: StatsDelta)
    requires
        p.successfull_snipe <= p.total_snipe,
        d.add_successfull_snipe <= d.add_total_snipe,
    ensures
        spec_apply_delta(p, d).successfull_snipe <= spec_apply_delta(p, d).total_snipe,
{
}

// ---------------------------------------------------------------------------
// laws of the repository
// ---------------------------------------------------------------------------

/// Law: the successful result of a read is a function of the stored map
/// alone — two reads without an intervening write return equal records.
/// `r` holds a possible successful outcome of reading `uid` from `m`,
/// as `get_user`'s contract states it.
pub open spec fn spec_read_outcome(
    m: Map<Seq<char>, Seq<u8>>,
    uid: Seq<char>,
    r: Option<UserStateV>,
) -> bool {
    match r {
        Some(v) => m.contains_key(uid) && sdec_state_record(m[uid]) == Some(v),
        None => !m.contains_key(uid),
    }
}

pub proof fn lemma_get_user_idempotent(
    m: Map<Seq<char>, Seq<u8>>,
    uid: Seq<char>,
    r1: Option<UserStateV>,
    r2: Option<UserStateV>,
)
    requires
        spec_read_outcome(m, uid, r1),
        spec_read_outcome(m, uid, r2),
    ensures
        r1 == r2,
{
}

/// Law: a saved record is returned whole by a following read of the same
/// user: a write of `v` followed by a read yields exactly `v`.
pub proof fn lemma_save_then_get(m: Map<Seq<char>, Seq<u8>>, uid: Seq<char>, v: UserStateV)
    requires
        valid_state(v),
    ensures
        ({
            let m2 = m.insert(uid, senc_state_record(v));
            m2.contains_key(uid) && sdec_state_record(m2[uid]) == Some(v)
        }),
{
    lemma_state_round_trip(v);
}

/// Law: a disconnect clears the session and nothing else — the record
/// read back afterwards has no session and the same policy and history.
pub proof fn lemma_disconnect_clears_session_only(
    m: Map<Seq<char>, Seq<u8>>,
    uid: Seq<char>,
    v: UserStateV,
)
    requires
        valid_state(v),
    ensures
        ({
            let cleared = UserStateV { session: None, ..v };
            let m2 = m.insert(uid, senc_state_record(cleared));
            &&& m2.contains_key(uid)
            &&& sdec_state_record(m2[uid]) == Some(cleared)
            &&& cleared.session is None
            &&& cleared.config == v.config
            &&& cleared.history == v.history
        }),
{
    let cleared = UserStateV { session: None, ..v };
    lemma_state_round_trip(cleared);
}

/// Law: history is append-only — saving a record whose history is the
/// old one plus one entry, a following read returns one entry more, the
/// old entries unchanged and in order, the new one last.
pub proof fn lemma_append_only_history(
    m: Map<Seq<char>, Seq<u8>>,
    uid: Seq<char>,
    v: UserStateV,
    t: TradeLogV,
)
    requires
        valid_state(v),
        valid_trade(t),
        v.history.len() + 1 <= u64::MAX,
    ensures
        ({
            let v2 = UserStateV { history: v.history.push(t), ..v };
            let m2 = m.insert(uid, senc_state_record(v2));
            &&& sdec_state_record(m2[uid]) == Some(v2)
            &&& v2.history.len() == v.history.len() + 1
            &&& v2.history[v.history.len() as int] == t
            &&& forall|i: int| 0 <= i < v.history.len() ==> v2.history[i] == v.history[i]
        }),
{
    let v2 = UserStateV { history: v.history.push(t), ..v };
    assert(valid_entries(v2.history)) by {
        assert forall|k: int| 0 <= k < v2.history.len() implies valid_trade(
            #[trigger] v2.history[k],
        ) by {
            if k < v.history.len() {
                assert(v2.history[k] == v.history[k]);
            } else {
                assert(v2.history[k] == t);
            }
        }
    }
    lemma_state_round_trip(v2);
}

} // verus!

