//! Sliding-window rate limiting for logins and for the public feed route.
//!
//! Instants are nanoseconds on a monotonic clock, and the instants a
//! limiter reads never go back.  A limiter keeps, for each
//! key, the instants that still fall inside its window; the public limiter
//! also refuses a request once `max_requests` of them are recorded, and the
//! login limiter locks a key for `lockout_secs` once `max_attempts`
//! failures are recorded.
use vstd::prelude::*;
use crate::error::ApiError;
use crate::keyed::{
    has_key_at, keys_distinct, lemma_push_distinct, lemma_table_of, lemma_table_push,
    lemma_table_remove, lemma_table_update, table_of,
};
use crate::text::{chars_eq, chars_of, decimal, push_decimal, push_lit, sub_chars};

verus! {

#[verifier::external_type_specification]
#[verifier::external_body]
pub struct ExInstant(std::time::Instant);

/// `Instant::now`: the current instant of the monotonic clock.
#[verifier::external_body]
fn clock_now() -> std::time::Instant {
    std::time::Instant::now()
}

/// `Instant::elapsed`: the time since `origin`.  It depends on the clock, so
/// nothing is stated of it.
#[verifier::external_body]
fn clock_elapsed(origin: &std::time::Instant) -> std::time::Duration {
    origin.elapsed()
}

/// `Duration::as_nanos`: the whole nanoseconds of a duration.  Nothing is
/// stated, since the duration itself is opaque here.
#[verifier::external_body]
fn duration_nanos(d: &std::time::Duration) -> u128 {
    d.as_nanos()
}

/// Nanoseconds since `origin`, clamped to `u64` (some 584 years).
fn nanos_since(origin: &std::time::Instant) -> u64 {
    let d = clock_elapsed(origin);
    let ns = duration_nanos(&d);
    if ns > u64::MAX as u128 {
        u64::MAX
    } else {
        ns as u64
    }
}

/// `a - b`, or zero when `b` is larger (as `Instant::elapsed` saturates).
pub open spec fn sat_sub(a: int, b: int) -> int {
    if a >= b {
        a - b
    } else {
        0
    }
}

/// The instant `at` lies within `window_secs` seconds before `now`.
pub open spec fn within_window(now: u64, at: u64, window_secs: u64) -> bool {
    sat_sub(now as int, at as int) <= window_secs as int * 1_000_000_000
}

/// The instants of `s` that lie within the window, in their order.
pub open spec fn recent(s: Seq<u64>, now: u64, window_secs: u64) -> Seq<u64>
    decreases s.len(),
{
    if s.len() == 0 {
        s
    } else {
        let rest = recent(s.drop_last(), now, window_secs);
        if within_window(now, s.last(), window_secs) {
            rest.push(s.last())
        } else {
            rest
        }
    }
}

/// Whole seconds from `now` until `deadline`, but at least one.
pub open spec fn retry_secs(deadline: int, now: int) -> nat {
    let s = sat_sub(deadline, now) / 1_000_000_000;
    if s < 1 {
        1
    } else {
        s as nat
    }
}

fn is_within(now: u64, at: u64, window_secs: u64) -> (r: bool)
    ensures
        r == within_window(now, at, window_secs),
{
    let elapsed: u64 = if now >= at {
        now - at
    } else {
        0
    };
    (elapsed as u128) <= (window_secs as u128) * 1_000_000_000
}

/// The instants of `v` that lie within the window.
pub fn keep_recent(v: &[u64], now: u64, window_secs: u64) -> (r: Vec<u64>)
    ensures
        r@ == recent(v@, now, window_secs),
{
    let mut r: Vec<u64> = Vec::new();
    let mut i: usize = 0;
    while i < v.len()
        invariant
            i <= v@.len(),
            r@ == recent(v@.subrange(0, i as int), now, window_secs),
        decreases v@.len() - i,
    {
        proof {
            assert(v@.subrange(0, i + 1).drop_last() =~= v@.subrange(0, i as int));
        }
        if is_within(now, v[i], window_secs) {
            r.push(v[i]);
        }
        i = i + 1;
    }
    assert(v@.subrange(0, v@.len() as int) =~= v@);
    r
}

fn deadline_after(now: u64, lockout_secs: u64) -> (r: u64)
    ensures
        r == lock_deadline(now, lockout_secs),
{
    let d: u128 = now as u128 + (lockout_secs as u128) * 1_000_000_000;
    if d > u64::MAX as u128 {
        u64::MAX
    } else {
        d as u64
    }
}

fn retry_after(deadline: u64, now: u64) -> (r: u64)
    ensures
        r == retry_secs(deadline as int, now as int),
{
    let d: u64 = if deadline >= now {
        deadline - now
    } else {
        0
    };
    let s = d / 1_000_000_000;
    if s < 1 {
        1
    } else {
        s
    }
}

/// `text` with the decimal `n` and the literal `tail` appended.
fn message_with_number(head: &str, n: u64, tail: &str) -> (r: String)
    ensures
        r@ == head@ + decimal(n as nat) + tail@,
{
    let mut s = String::from_str(head);
    push_decimal(&mut s, n);
    push_lit(&mut s, tail);
    s
}

// ---------------------------------------------------------------------------
// Login attempts
// ---------------------------------------------------------------------------

/// Failures recorded for a key, and the instant until which it is locked.
pub type LoginEntry = (Seq<u64>, Option<u64>);

pub type LoginTable = Map<Seq<char>, LoginEntry>;

/// The key is locked at `now`.
pub open spec fn locked_at(e: LoginEntry, now: u64) -> bool {
    match e.1 {
        Some(deadline) => deadline > now,
        None => false,
    }
}

/// An entry survives pruning while it is locked or still has recent failures.
pub open spec fn login_entry_active(e: LoginEntry, now: u64, window_secs: u64) -> bool {
    locked_at(e, now) || recent(e.0, now, window_secs).len() > 0
}

/// Every entry keeps only its recent failures; entries that are neither locked
/// nor have a recent failure are dropped.
pub open spec fn prune_login(m: LoginTable, now: u64, window_secs: u64) -> LoginTable {
    Map::new(
        |k: Seq<char>| m.contains_key(k) && login_entry_active(m[k], now, window_secs),
        |k: Seq<char>| (recent(m[k].0, now, window_secs), m[k].1),
    )
}

/// What a check does to the table, and the seconds to wait when it refuses.
pub open spec fn login_check(m: LoginTable, key: Seq<char>, now: u64, window_secs: u64) -> (
    LoginTable,
    Option<nat>,
) {
    let p = prune_login(m, now, window_secs);
    if p.contains_key(key) {
        let e = p[key];
        if locked_at(e, now) {
            (p, Some(retry_secs(e.1.unwrap() as int, now as int)))
        } else if e.0.len() == 0 {
            (p.remove(key), None)
        } else {
            (p.insert(key, (e.0, None)), None)
        }
    } else {
        (p, None)
    }
}

/// The instant until which a key is locked after a lock at `now`.
pub open spec fn lock_deadline(now: u64, lockout_secs: u64) -> u64 {
    let d = now as int + lockout_secs as int * 1_000_000_000;
    if d > u64::MAX {
        u64::MAX
    } else {
        d as u64
    }
}

/// Recent failures for a key after pruning at `now`.
pub open spec fn recent_failures(m: LoginTable, key: Seq<char>, now: u64, window_secs: u64) -> Seq<
    u64,
> {
    let p = prune_login(m, now, window_secs);
    if p.contains_key(key) {
        p[key].0
    } else {
        seq![]
    }
}

/// What recording a failed login does to the table.
pub open spec fn login_record_failure(
    m: LoginTable,
    key: Seq<char>,
    now: u64,
    max_attempts: nat,
    window_secs: u64,
    lockout_secs: u64,
) -> LoginTable {
    let p = prune_login(m, now, window_secs);
    let prior = if p.contains_key(key) {
        p[key].1
    } else {
        None
    };
    let failures = recent_failures(m, key, now, window_secs).push(now);
    if failures.len() >= max_attempts {
        p.insert(key, (seq![], Some(lock_deadline(now, lockout_secs))))
    } else {
        p.insert(key, (failures, prior))
    }
}

/// The refusal message of a locked login.
pub open spec fn login_retry_text(secs: nat) -> Seq<char> {
    "too many login attempts, retry in "@ + decimal(secs) + "s"@
}

struct LoginRecord {
    key: Vec<char>,
    failures: Vec<u64>,
    locked_until: Option<u64>,
}

spec fn login_pair(r: LoginRecord) -> (Seq<char>, LoginEntry) {
    (r.key@, (r.failures@, r.locked_until))
}

spec fn login_pairs(rs: Seq<LoginRecord>) -> Seq<(Seq<char>, LoginEntry)> {
    rs.map_values(|r: LoginRecord| login_pair(r))
}

proof fn lemma_login_pairs_push(rs: Seq<LoginRecord>, r: LoginRecord)
    ensures
        login_pairs(rs.push(r)) == login_pairs(rs).push(login_pair(r)),
{
    assert(login_pairs(rs.push(r)) =~= login_pairs(rs).push(login_pair(r)));
}

proof fn lemma_login_pairs_remove(rs: Seq<LoginRecord>, i: int)
    requires
        0 <= i < rs.len(),
    ensures
        login_pairs(rs.remove(i)) == login_pairs(rs).remove(i),
{
    assert(login_pairs(rs.remove(i)) =~= login_pairs(rs).remove(i));
}

proof fn lemma_prune_login_insert(m: LoginTable, k: Seq<char>, e: LoginEntry, now: u64, w: u64)
    requires
        !m.contains_key(k),
    ensures
        prune_login(m.insert(k, e), now, w) == (if login_entry_active(e, now, w) {
            prune_login(m, now, w).insert(k, (recent(e.0, now, w), e.1))
        } else {
            prune_login(m, now, w)
        }),
{
    let a = prune_login(m.insert(k, e), now, w);
    let b = if login_entry_active(e, now, w) {
        prune_login(m, now, w).insert(k, (recent(e.0, now, w), e.1))
    } else {
        prune_login(m, now, w)
    };
    assert(a =~= b);
}

/// A check leaves a key without an entry without one.
proof fn lemma_check_keeps_absent(m: LoginTable, key: Seq<char>, now: u64, w: u64)
    ensures
        forall|k: Seq<char>| !m.contains_key(k) ==> !(#[trigger] login_check(m, key, now, w).0.contains_key(k)),
        !m.contains_key(key) ==> login_check(m, key, now, w).1 is None,
{
}

/// A failure of one key leaves every other key without an entry without one.
proof fn lemma_failure_keeps_absent(
    m: LoginTable,
    key: Seq<char>,
    now: u64,
    max_attempts: nat,
    w: u64,
    lockout_secs: u64,
)
    ensures
        forall|k: Seq<char>|
            !m.contains_key(k) && k != key ==> !(#[trigger] login_record_failure(
                m,
                key,
                now,
                max_attempts,
                w,
                lockout_secs,
            ).contains_key(k)),
{
}

/// Counts failed logins per key and locks a key after too many of them.
pub struct LoginRateLimiter {
    records: Vec<LoginRecord>,
    max_attempts: usize,
    window_secs: u64,
    lockout_secs: u64,
    origin: std::time::Instant,
    last: u64,
    succeeded: Ghost<Set<Seq<char>>>,
}

impl LoginRateLimiter {
    /// The failures and locks recorded per key.
    pub closed spec fn table(&self) -> LoginTable {
        table_of(login_pairs(self.records@))
    }

    spec fn records_wf(&self) -> bool {
        keys_distinct(login_pairs(self.records@))
    }

    /// The limiter's records are well formed, and a key whose latest
    /// recorded event is a successful login has no entry.
    pub closed spec fn wf(&self) -> bool {
        &&& self.records_wf()
        &&& forall|k: Seq<char>| #[trigger] self.succeeded@.contains(k) ==> !self.table().contains_key(k)
    }

    /// The keys whose latest recorded event is a successful login.
    pub closed spec fn succeeded(&self) -> Set<Seq<char>> {
        self.succeeded@
    }

    pub closed spec fn max_attempts(&self) -> nat {
        self.max_attempts as nat
    }

    pub closed spec fn window_secs(&self) -> u64 {
        self.window_secs
    }

    pub closed spec fn lockout_secs(&self) -> u64 {
        self.lockout_secs
    }

    /// The latest instant read from the clock.
    pub closed spec fn last_instant(&self) -> u64 {
        self.last
    }

    /// A limiter with nothing recorded.
    pub fn new(max_attempts: usize, window_secs: u64, lockout_secs: u64) -> (r: Self)
        ensures
            r.wf(),
            r.table() == Map::<Seq<char>, LoginEntry>::empty(),
            r.max_attempts() == max_attempts,
            r.window_secs() == window_secs,
            r.lockout_secs() == lockout_secs,
            r.last_instant() == 0,
            r.succeeded() == Set::<Seq<char>>::empty(),
    {
        let r = LoginRateLimiter {
            records: Vec::new(),
            max_attempts,
            window_secs,
            lockout_secs,
            origin: clock_now(),
            last: 0,
            succeeded: Ghost(Set::empty()),
        };
        assert(login_pairs(r.records@) =~= Seq::<(Seq<char>, LoginEntry)>::empty());
        r
    }

    fn prune_at(&mut self, now: u64)
        requires
            old(self).records_wf(),
        ensures
            final(self).records_wf(),
            final(self).table() == prune_login(old(self).table(), now, old(self).window_secs),
            final(self).max_attempts == old(self).max_attempts,
            final(self).window_secs == old(self).window_secs,
            final(self).lockout_secs == old(self).lockout_secs,
            final(self).last == old(self).last,
            final(self).succeeded == old(self).succeeded,
    {
        let mut old_records: Vec<LoginRecord> = Vec::new();
        std::mem::swap(&mut old_records, &mut self.records);
        let ghost old_pairs = login_pairs(old_records@);
        let mut kept: Vec<LoginRecord> = Vec::new();
        let mut i: usize = 0;
        proof {
            assert(login_pairs(kept@) =~= Seq::<(Seq<char>, LoginEntry)>::empty());
            assert(old_pairs.subrange(0, 0) =~= Seq::<(Seq<char>, LoginEntry)>::empty());
            assert(prune_login(Map::empty(), now, self.window_secs) =~= Map::<
                Seq<char>,
                LoginEntry,
            >::empty());
        }
        while i < old_records.len()
            invariant
                i <= old_records@.len(),
                old_pairs == login_pairs(old_records@),
                keys_distinct(old_pairs),
                keys_distinct(login_pairs(kept@)),
                table_of(login_pairs(kept@)) == prune_login(
                    table_of(old_pairs.subrange(0, i as int)),
                    now,
                    self.window_secs,
                ),
            decreases old_records@.len() - i,
        {
            let rec = &old_records[i];
            let failures = keep_recent(rec.failures.as_slice(), now, self.window_secs);
            let locked = match rec.locked_until {
                Some(d) => d > now,
                None => false,
            };
            let ghost before = old_pairs.subrange(0, i as int);
            let ghost p = old_pairs[i as int];
            proof {
                assert(old_pairs.subrange(0, i + 1) =~= before.push(p));
                lemma_table_push(before, p);
                assert(keys_distinct(before)) by {
                    assert forall|a: int, b: int|
                        0 <= a < before.len() && 0 <= b < before.len() && a != b implies #[trigger] before[a].0
                        != #[trigger] before[b].0 by {
                        assert(before[a] == old_pairs[a] && before[b] == old_pairs[b]);
                    }
                }
                lemma_table_of(before);
                assert(!table_of(before).contains_key(p.0)) by {
                    if table_of(before).contains_key(p.0) {
                        let j = choose|j: int| has_key_at(before, p.0, j);
                        assert(before[j] == old_pairs[j]);
                        assert(old_pairs[j].0 != old_pairs[i as int].0);
                    }
                }
                lemma_prune_login_insert(table_of(before), p.0, p.1, now, self.window_secs);
            }
            if locked || failures.len() > 0 {
                let key = sub_chars(rec.key.as_slice(), 0, rec.key.len());
                proof {
                    assert(rec.key@.subrange(0, rec.key@.len() as int) =~= rec.key@);
                }
                let nr = LoginRecord { key, failures, locked_until: rec.locked_until };
                proof {
                    lemma_login_pairs_push(kept@, nr);
                    lemma_table_push(login_pairs(kept@), login_pair(nr));
                    lemma_push_distinct(login_pairs(kept@), login_pair(nr));
                }
                kept.push(nr);
            }
            i = i + 1;
        }
        proof {
            assert(old_pairs.subrange(0, old_records@.len() as int) =~= old_pairs);
        }
        self.records = kept;
    }

    fn find(&self, key: &[char]) -> (r: Option<usize>)
        requires
            self.records_wf(),
        ensures
            match r {
                Some(i) => i < self.records@.len() && self.records@[i as int].key@ == key@,
                None => !self.table().contains_key(key@),
            },
    {
        let mut i: usize = 0;
        while i < self.records.len()
            invariant
                i <= self.records@.len(),
                forall|j: int| 0 <= j < i ==> self.records@[j].key@ != key@,
            decreases self.records@.len() - i,
        {
            if chars_eq(self.records[i].key.as_slice(), key) {
                return Some(i);
            }
            i = i + 1;
        }
        proof {
            lemma_table_of(login_pairs(self.records@));
            if self.table().contains_key(key@) {
                let j = choose|j: int| has_key_at(login_pairs(self.records@), key@, j);
                assert(login_pairs(self.records@)[j] == login_pair(self.records@[j]));
            }
        }
        None
    }

    /// Checks, at instant `now`, whether `key` may attempt a login.
    pub fn check_at(&mut self, key: &str, now: u64) -> (r: Result<(), ApiError>)
        requires
            old(self).wf(),
        ensures
            final(self).wf(),
            final(self).max_attempts() == old(self).max_attempts(),
            final(self).window_secs() == old(self).window_secs(),
            final(self).lockout_secs() == old(self).lockout_secs(),
            final(self).last_instant() == old(self).last_instant(),
            final(self).succeeded() == old(self).succeeded(),
            old(self).succeeded().contains(key@) ==> r is Ok,
            old(self).table().contains_key(key@) && locked_at(old(self).table()[key@], now) ==> r is Err,
            final(self).table() == login_check(old(self).table(), key@, now, old(self).window_secs()).0,
            match login_check(old(self).table(), key@, now, old(self).window_secs()).1 {
                Some(secs) => r is Err && r->Err_0.status == 429 && r->Err_0.message@
                    == login_retry_text(secs),
                None => r is Ok,
            },
    {
        proof {
            lemma_check_keeps_absent(self.table(), key@, now, self.window_secs);
        }
        let k = chars_of(key);
        self.prune_at(now);
        let ghost p = self.table();
        match self.find(k.as_slice()) {
            Some(i) => {
                proof {
                    lemma_table_of(login_pairs(self.records@));
                    assert(login_pairs(self.records@)[i as int] == login_pair(self.records@[i as int]));
                    assert(has_key_at(login_pairs(self.records@), k@, i as int));
                    assert(p.contains_key(key@));
                    assert(p[key@] == (self.records@[i as int].failures@, self.records@[i as int].locked_until));
                }
                if let Some(deadline) = self.records[i].locked_until {
                    if deadline > now {
                        let secs = retry_after(deadline, now);
                        let msg = message_with_number("too many login attempts, retry in ", secs, "s");
                        return Err(ApiError::too_many_requests(msg));
                    }
                }
                let ghost pairs = login_pairs(self.records@);
                if self.records[i].failures.len() == 0 {
                    proof {
                        lemma_login_pairs_remove(self.records@, i as int);
                        lemma_table_remove(pairs, i as int);
                    }
                    let _gone = self.records.remove(i);
                } else {
                    let mut rec = self.records.remove(i);
                    rec.locked_until = None;
                    proof {
                        lemma_table_update(pairs, i as int, (pairs[i as int].1.0, None));
                    }
                    self.records.insert(i, rec);
                    proof {
                        assert(login_pairs(self.records@) =~= pairs.update(
                            i as int,
                            (pairs[i as int].0, (pairs[i as int].1.0, None::<u64>)),
                        ));
                    }
                }
                Ok(())
            },
            None => Ok(()),
        }
    }

    /// Records, at instant `now`, a failed login for `key`; the key is locked
    /// once its recent failures reach `max_attempts`.
    pub fn record_failure_at(&mut self, key: &str, now: u64)
        requires
            old(self).wf(),
        ensures
            final(self).wf(),
            final(self).max_attempts() == old(self).max_attempts(),
            final(self).window_secs() == old(self).window_secs(),
            final(self).lockout_secs() == old(self).lockout_secs(),
            final(self).last_instant() == old(self).last_instant(),
            final(self).succeeded() == old(self).succeeded().remove(key@),
            recent_failures(old(self).table(), key@, now, old(self).window_secs()).len() + 1
                >= old(self).max_attempts() ==> final(self).table()[key@] == (
                Seq::<u64>::empty(),
                Some(lock_deadline(now, old(self).lockout_secs())),
            ),
            final(self).table() == login_record_failure(
                old(self).table(),
                key@,
                now,
                old(self).max_attempts(),
                old(self).window_secs(),
                old(self).lockout_secs(),
            ),
    {
        proof {
            lemma_failure_keeps_absent(
                self.table(),
                key@,
                now,
                self.max_attempts as nat,
                self.window_secs,
                self.lockout_secs,
            );
        }
        self.succeeded = Ghost(self.succeeded@.remove(key@));
        let k = chars_of(key);
        self.prune_at(now);
        let ghost p = self.table();
        let ghost pairs = login_pairs(self.records@);
        let mut rec = match self.find(k.as_slice()) {
            Some(i) => {
                proof {
                    lemma_table_of(pairs);
                    assert(pairs[i as int] == login_pair(self.records@[i as int]));
                    assert(has_key_at(pairs, k@, i as int));
                    lemma_login_pairs_remove(self.records@, i as int);
                    lemma_table_remove(pairs, i as int);
                }
                self.records.remove(i)
            },
            None => LoginRecord { key: k, failures: Vec::new(), locked_until: None },
        };
        proof {
            assert(!self.table().contains_key(key@));
            assert(self.table() == p.remove(key@));
            assert(rec.key@ == key@);
            assert(rec.failures@ == recent_failures(old(self).table(), key@, now, old(self).window_secs));
            assert(rec.locked_until == (if p.contains_key(key@) { p[key@].1 } else { None }));
        }
        rec.failures.push(now);
        if rec.failures.len() >= self.max_attempts {
            rec.failures = Vec::new();
            rec.locked_until = Some(deadline_after(now, self.lockout_secs));
        }
        proof {
            lemma_login_pairs_push(self.records@, rec);
            lemma_table_push(login_pairs(self.records@), login_pair(rec));
            lemma_push_distinct(login_pairs(self.records@), login_pair(rec));
            assert(p.remove(key@).insert(key@, login_pair(rec).1) =~= p.insert(key@, login_pair(rec).1));
        }
        self.records.push(rec);
    }

    /// Forgets every failure recorded for `key`, after a successful login.
    pub fn record_success(&mut self, key: &str)
        requires
            old(self).wf(),
        ensures
            final(self).wf(),
            final(self).max_attempts() == old(self).max_attempts(),
            final(self).window_secs() == old(self).window_secs(),
            final(self).lockout_secs() == old(self).lockout_secs(),
            final(self).last_instant() == old(self).last_instant(),
            final(self).succeeded() == old(self).succeeded().insert(key@),
            final(self).table() == old(self).table().remove(key@),
    {
        self.succeeded = Ghost(self.succeeded@.insert(key@));
        let k = chars_of(key);
        let ghost pairs = login_pairs(self.records@);
        match self.find(k.as_slice()) {
            Some(i) => {
                proof {
                    assert(pairs[i as int] == login_pair(self.records@[i as int]));
                    lemma_login_pairs_remove(self.records@, i as int);
                    lemma_table_remove(pairs, i as int);
                }
                let _gone = self.records.remove(i);
            },
            None => {
                assert(self.table().remove(key@) =~= self.table());
            },
        }
    }

    /// Checks whether `key` may attempt a login now.
    pub fn check(&mut self, key: &str) -> (r: Result<(), ApiError>)
        requires
            old(self).wf(),
        ensures
            final(self).wf(),
            final(self).max_attempts() == old(self).max_attempts(),
            final(self).window_secs() == old(self).window_secs(),
            final(self).lockout_secs() == old(self).lockout_secs(),
            final(self).last_instant() >= old(self).last_instant(),
            final(self).succeeded() == old(self).succeeded(),
            old(self).succeeded().contains(key@) ==> r is Ok,
            old(self).table().contains_key(key@) && locked_at(
                old(self).table()[key@],
                final(self).last_instant(),
            ) ==> r is Err,
            exists|now: u64|
                {
                    &&& now >= old(self).last_instant()
                    &&& final(self).last_instant() == now
                    &&& final(self).table() == #[trigger] login_check(
                        old(self).table(),
                        key@,
                        now,
                        old(self).window_secs(),
                    ).0
                    &&& match login_check(old(self).table(), key@, now, old(self).window_secs()).1 {
                        Some(secs) => r is Err && r->Err_0.status == 429 && r->Err_0.message@
                            == login_retry_text(secs),
                        None => r is Ok,
                    }
                },
    {
        let ghost before = *self;
        let now = self.read_clock();
        assert(self.table() == before.table());
        let r = self.check_at(key, now);
        assert(self.table() == login_check(before.table(), key@, now, before.window_secs()).0);
        r
    }

    /// Records a failed login for `key` now.
    pub fn record_failure(&mut self, key: &str)
        requires
            old(self).wf(),
        ensures
            final(self).wf(),
            final(self).max_attempts() == old(self).max_attempts(),
            final(self).window_secs() == old(self).window_secs(),
            final(self).lockout_secs() == old(self).lockout_secs(),
            final(self).last_instant() >= old(self).last_instant(),
            final(self).succeeded() == old(self).succeeded().remove(key@),
            recent_failures(
                old(self).table(),
                key@,
                final(self).last_instant(),
                old(self).window_secs(),
            ).len() + 1 >= old(self).max_attempts() ==> final(self).table()[key@] == (
                Seq::<u64>::empty(),
                Some(lock_deadline(final(self).last_instant(), old(self).lockout_secs())),
            ),
            exists|now: u64|
                {
                    &&& now >= old(self).last_instant()
                    &&& final(self).last_instant() == now
                    &&& final(self).table() == #[trigger] login_record_failure(
                        old(self).table(),
                        key@,
                        now,
                        old(self).max_attempts(),
                        old(self).window_secs(),
                        old(self).lockout_secs(),
                    )
                },
    {
        let ghost before = *self;
        let now = self.read_clock();
        assert(self.table() == before.table());
        self.record_failure_at(key, now);
        assert(self.table() == login_record_failure(
            before.table(),
            key@,
            now,
            before.max_attempts(),
            before.window_secs(),
            before.lockout_secs(),
        ));
    }

    /// Reads the clock: nanoseconds since the limiter was made, never
    /// earlier than the reading before.
    fn read_clock(&mut self) -> (now: u64)
        ensures
            now >= old(self).last,
            *final(self) == (LoginRateLimiter { last: now, ..*old(self) }),
    {
        let t = nanos_since(&self.origin);
        let now = if t > self.last {
            t
        } else {
            self.last
        };
        self.last = now;
        now
    }
}

// ---------------------------------------------------------------------------
// Public feed requests
// ---------------------------------------------------------------------------

/// Requests recorded per key.
pub type PublicTable = Map<Seq<char>, Seq<u64>>;

/// Every key keeps only its recent requests; keys without any are dropped.
pub open spec fn prune_public(m: PublicTable, now: u64, window_secs: u64) -> PublicTable {
    Map::new(
        |k: Seq<char>| m.contains_key(k) && recent(m[k], now, window_secs).len() > 0,
        |k: Seq<char>| recent(m[k], now, window_secs),
    )
}

/// Recent requests for a key after pruning at `now`.
pub open spec fn recent_requests(m: PublicTable, key: Seq<char>, now: u64, window_secs: u64) -> Seq<
    u64,
> {
    let p = prune_public(m, now, window_secs);
    if p.contains_key(key) {
        p[key]
    } else {
        seq![]
    }
}

/// Seconds until the oldest recent request leaves the window, at least one.
pub open spec fn public_retry_secs(e: Seq<u64>, now: u64, window_secs: u64) -> nat {
    if e.len() > 0 {
        retry_secs(window_secs as int * 1_000_000_000, sat_sub(now as int, e[0] as int))
    } else {
        1
    }
}

/// What a public request does to the table, and the seconds to wait when it
/// is refused.
pub open spec fn public_check_and_record(
    m: PublicTable,
    key: Seq<char>,
    now: u64,
    max_requests: nat,
    window_secs: u64,
) -> (PublicTable, Option<nat>) {
    let p = prune_public(m, now, window_secs);
    let e = recent_requests(m, key, now, window_secs);
    if e.len() >= max_requests {
        (p.insert(key, e), Some(public_retry_secs(e, now, window_secs)))
    } else {
        (p.insert(key, e.push(now)), None)
    }
}

/// The refusal message of a limited public request.
pub open spec fn public_retry_text(secs: nat) -> Seq<char> {
    "too many public requests, retry in "@ + decimal(secs) + "s"@
}

struct PublicRecord {
    key: Vec<char>,
    requests: Vec<u64>,
}

spec fn public_pair(r: PublicRecord) -> (Seq<char>, Seq<u64>) {
    (r.key@, r.requests@)
}

spec fn public_pairs(rs: Seq<PublicRecord>) -> Seq<(Seq<char>, Seq<u64>)> {
    rs.map_values(|r: PublicRecord| public_pair(r))
}

proof fn lemma_public_pairs_push(rs: Seq<PublicRecord>, r: PublicRecord)
    ensures
        public_pairs(rs.push(r)) == public_pairs(rs).push(public_pair(r)),
{
    assert(public_pairs(rs.push(r)) =~= public_pairs(rs).push(public_pair(r)));
}

proof fn lemma_public_pairs_remove(rs: Seq<PublicRecord>, i: int)
    requires
        0 <= i < rs.len(),
    ensures
        public_pairs(rs.remove(i)) == public_pairs(rs).remove(i),
{
    assert(public_pairs(rs.remove(i)) =~= public_pairs(rs).remove(i));
}

proof fn lemma_prune_public_insert(m: PublicTable, k: Seq<char>, e: Seq<u64>, now: u64, w: u64)
    requires
        !m.contains_key(k),
    ensures
        prune_public(m.insert(k, e), now, w) == (if recent(e, now, w).len() > 0 {
            prune_public(m, now, w).insert(k, recent(e, now, w))
        } else {
            prune_public(m, now, w)
        }),
{
    let a = prune_public(m.insert(k, e), now, w);
    let b = if recent(e, now, w).len() > 0 {
        prune_public(m, now, w).insert(k, recent(e, now, w))
    } else {
        prune_public(m, now, w)
    };
    assert(a =~= b);
}

/// Limits requests to the public feed route per key.
pub struct PublicRateLimiter {
    records: Vec<PublicRecord>,
    max_requests: usize,
    window_secs: u64,
    origin: std::time::Instant,
    last: u64,
    admitted: Ghost<Seq<(Seq<char>, u64)>>,
    steady: Ghost<bool>,
}

impl PublicRateLimiter {
    /// The requests recorded per key.
    pub closed spec fn table(&self) -> PublicTable {
        table_of(public_pairs(self.records@))
    }

    spec fn records_wf(&self) -> bool {
        keys_distinct(public_pairs(self.records@))
    }

    /// The limiter's records are well formed, and while its instants have
    /// never gone back, its admissions keep to the window.
    pub closed spec fn wf(&self) -> bool {
        &&& self.records_wf()
        &&& self.steady@ ==> public_window_inv(
            self.table(),
            self.admitted@,
            self.last,
            self.max_requests as nat,
            self.window_secs,
        )
    }

    /// Every admitted request, as its key and instant, in order.
    pub closed spec fn admitted(&self) -> Seq<(Seq<char>, u64)> {
        self.admitted@
    }

    /// No request was ever handled at an instant earlier than one before it.
    pub closed spec fn steady(&self) -> bool {
        self.steady@
    }

    pub closed spec fn max_requests(&self) -> nat {
        self.max_requests as nat
    }

    pub closed spec fn window_secs(&self) -> u64 {
        self.window_secs
    }

    /// The latest instant read from the clock.
    pub closed spec fn last_instant(&self) -> u64 {
        self.last
    }

    /// A limiter with nothing recorded.
    pub fn new(max_requests: usize, window_secs: u64) -> (r: Self)
        ensures
            r.wf(),
            r.table() == Map::<Seq<char>, Seq<u64>>::empty(),
            r.max_requests() == max_requests,
            r.window_secs() == window_secs,
            r.last_instant() == 0,
            r.admitted() == Seq::<(Seq<char>, u64)>::empty(),
            r.steady(),
    {
        let r = PublicRateLimiter {
            records: Vec::new(),
            max_requests,
            window_secs,
            origin: clock_now(),
            last: 0,
            admitted: Ghost(Seq::empty()),
            steady: Ghost(true),
        };
        assert(public_pairs(r.records@) =~= Seq::<(Seq<char>, Seq<u64>)>::empty());
        r
    }

    fn prune_at(&mut self, now: u64)
        requires
            old(self).records_wf(),
        ensures
            final(self).records_wf(),
            final(self).table() == prune_public(old(self).table(), now, old(self).window_secs),
            final(self).max_requests == old(self).max_requests,
            final(self).window_secs == old(self).window_secs,
            final(self).last == old(self).last,
            final(self).admitted == old(self).admitted,
            final(self).steady == old(self).steady,
    {
        let mut old_records: Vec<PublicRecord> = Vec::new();
        std::mem::swap(&mut old_records, &mut self.records);
        let ghost old_pairs = public_pairs(old_records@);
        let mut kept: Vec<PublicRecord> = Vec::new();
        let mut i: usize = 0;
        proof {
            assert(public_pairs(kept@) =~= Seq::<(Seq<char>, Seq<u64>)>::empty());
            assert(old_pairs.subrange(0, 0) =~= Seq::<(Seq<char>, Seq<u64>)>::empty());
            assert(prune_public(Map::empty(), now, self.window_secs) =~= Map::<
                Seq<char>,
                Seq<u64>,
            >::empty());
        }
        while i < old_records.len()
            invariant
                i <= old_records@.len(),
                old_pairs == public_pairs(old_records@),
                keys_distinct(old_pairs),
                keys_distinct(public_pairs(kept@)),
                table_of(public_pairs(kept@)) == prune_public(
                    table_of(old_pairs.subrange(0, i as int)),
                    now,
                    self.window_secs,
                ),
            decreases old_records@.len() - i,
        {
            let rec = &old_records[i];
            let requests = keep_recent(rec.requests.as_slice(), now, self.window_secs);
            let ghost before = old_pairs.subrange(0, i as int);
            let ghost p = old_pairs[i as int];
            proof {
                assert(old_pairs.subrange(0, i + 1) =~= before.push(p));
                lemma_table_push(before, p);
                assert(keys_distinct(before)) by {
                    assert forall|a: int, b: int|
                        0 <= a < before.len() && 0 <= b < before.len() && a != b implies #[trigger] before[a].0
                        != #[trigger] before[b].0 by {
                        assert(before[a] == old_pairs[a] && before[b] == old_pairs[b]);
                    }
                }
                lemma_table_of(before);
                assert(!table_of(before).contains_key(p.0)) by {
                    if table_of(before).contains_key(p.0) {
                        let j = choose|j: int| has_key_at(before, p.0, j);
                        assert(before[j] == old_pairs[j]);
                        assert(old_pairs[j].0 != old_pairs[i as int].0);
                    }
                }
                lemma_prune_public_insert(table_of(before), p.0, p.1, now, self.window_secs);
            }
            if requests.len() > 0 {
                let key = sub_chars(rec.key.as_slice(), 0, rec.key.len());
                proof {
                    assert(rec.key@.subrange(0, rec.key@.len() as int) =~= rec.key@);
                }
                let nr = PublicRecord { key, requests };
                proof {
                    lemma_public_pairs_push(kept@, nr);
                    lemma_table_push(public_pairs(kept@), public_pair(nr));
                    lemma_push_distinct(public_pairs(kept@), public_pair(nr));
                }
                kept.push(nr);
            }
            i = i + 1;
        }
        proof {
            assert(old_pairs.subrange(0, old_records@.len() as int) =~= old_pairs);
        }
        self.records = kept;
    }

    fn find(&self, key: &[char]) -> (r: Option<usize>)
        requires
            self.records_wf(),
        ensures
            match r {
                Some(i) => i < self.records@.len() && self.records@[i as int].key@ == key@,
                None => !self.table().contains_key(key@),
            },
    {
        let mut i: usize = 0;
        while i < self.records.len()
            invariant
                i <= self.records@.len(),
                forall|j: int| 0 <= j < i ==> self.records@[j].key@ != key@,
            decreases self.records@.len() - i,
        {
            if chars_eq(self.records[i].key.as_slice(), key) {
                return Some(i);
            }
            i = i + 1;
        }
        proof {
            lemma_table_of(public_pairs(self.records@));
            if self.table().contains_key(key@) {
                let j = choose|j: int| has_key_at(public_pairs(self.records@), key@, j);
                assert(public_pairs(self.records@)[j] == public_pair(self.records@[j]));
            }
        }
        None
    }

    /// Admits and records a request for `key` at instant `now`, or refuses it
    /// when `max_requests` requests are already recorded within the window.
    pub fn check_and_record_at(&mut self, key: &str, now: u64) -> (r: Result<(), ApiError>)
        requires
            old(self).wf(),
        ensures
            final(self).wf(),
            final(self).max_requests() == old(self).max_requests(),
            final(self).window_secs() == old(self).window_secs(),
            final(self).last_instant() == (if now >= old(self).last_instant() {
                now
            } else {
                old(self).last_instant()
            }),
            final(self).steady() == (old(self).steady() && now >= old(self).last_instant()),
            final(self).admitted() == (if r is Ok {
                old(self).admitted().push((key@, now))
            } else {
                old(self).admitted()
            }),
            final(self).table() == public_check_and_record(
                old(self).table(),
                key@,
                now,
                old(self).max_requests(),
                old(self).window_secs(),
            ).0,
            match public_check_and_record(
                old(self).table(),
                key@,
                now,
                old(self).max_requests(),
                old(self).window_secs(),
            ).1 {
                Some(secs) => r is Err && r->Err_0.status == 429 && r->Err_0.message@
                    == public_retry_text(secs),
                None => r is Ok,
            },
    {
        let ghost last0 = self.last;
        proof {
            if self.steady@ && now >= self.last {
                lemma_public_step(
                    self.table(),
                    self.admitted@,
                    self.last,
                    key@,
                    now,
                    self.max_requests as nat,
                    self.window_secs,
                );
            }
        }
        let k = chars_of(key);
        self.prune_at(now);
        let ghost p = self.table();
        let ghost pairs = public_pairs(self.records@);
        let mut rec = match self.find(k.as_slice()) {
            Some(i) => {
                proof {
                    lemma_table_of(pairs);
                    assert(pairs[i as int] == public_pair(self.records@[i as int]));
                    assert(has_key_at(pairs, k@, i as int));
                    lemma_public_pairs_remove(self.records@, i as int);
                    lemma_table_remove(pairs, i as int);
                }
                self.records.remove(i)
            },
            None => PublicRecord { key: k, requests: Vec::new() },
        };
        proof {
            assert(self.table() == p.remove(key@));
            assert(rec.key@ == key@);
            assert(rec.requests@ == recent_requests(old(self).table(), key@, now, old(self).window_secs));
        }
        let refused = rec.requests.len() >= self.max_requests;
        let secs: u64 = if refused {
            if rec.requests.len() > 0 {
                let first = rec.requests[0];
                let elapsed: u64 = if now >= first {
                    now - first
                } else {
                    0
                };
                let window_ns: u128 = (self.window_secs as u128) * 1_000_000_000;
                let left: u128 = if window_ns >= elapsed as u128 {
                    window_ns - elapsed as u128
                } else {
                    0
                };
                let s = left / 1_000_000_000;
                if s < 1 {
                    1
                } else {
                    s as u64
                }
            } else {
                1
            }
        } else {
            0
        };
        if !refused {
            rec.requests.push(now);
        }
        proof {
            lemma_public_pairs_push(self.records@, rec);
            lemma_table_push(public_pairs(self.records@), public_pair(rec));
            lemma_push_distinct(public_pairs(self.records@), public_pair(rec));
            assert(p.remove(key@).insert(key@, public_pair(rec).1) =~= p.insert(key@, public_pair(rec).1));
        }
        self.records.push(rec);
        if now > self.last {
            self.last = now;
        }
        let ghost still: bool = self.steady@ && now >= last0;
        self.steady = Ghost(still);
        if !refused {
            self.admitted = Ghost(self.admitted@.push((key@, now)));
        }
        if refused {
            let msg = message_with_number("too many public requests, retry in ", secs, "s");
            Err(ApiError::too_many_requests(msg))
        } else {
            Ok(())
        }
    }

    /// Admits and records a request for `key` now, or refuses it.
    pub fn check_and_record(&mut self, key: &str) -> (r: Result<(), ApiError>)
        requires
            old(self).wf(),
        ensures
            final(self).wf(),
            final(self).max_requests() == old(self).max_requests(),
            final(self).window_secs() == old(self).window_secs(),
            final(self).last_instant() >= old(self).last_instant(),
            final(self).steady() == old(self).steady(),
            final(self).admitted() == (if r is Ok {
                old(self).admitted().push((key@, final(self).last_instant()))
            } else {
                old(self).admitted()
            }),
            exists|now: u64|
                {
                    &&& now >= old(self).last_instant()
                    &&& final(self).last_instant() == now
                    &&& final(self).table() == #[trigger] public_check_and_record(
                        old(self).table(),
                        key@,
                        now,
                        old(self).max_requests(),
                        old(self).window_secs(),
                    ).0
                    &&& match public_check_and_record(
                        old(self).table(),
                        key@,
                        now,
                        old(self).max_requests(),
                        old(self).window_secs(),
                    ).1 {
                        Some(secs) => r is Err && r->Err_0.status == 429 && r->Err_0.message@
                            == public_retry_text(secs),
                        None => r is Ok,
                    }
                },
    {
        let ghost before = *self;
        let now = self.read_clock();
        assert(self.table() == before.table());
        let r = self.check_and_record_at(key, now);
        assert(self.table() == public_check_and_record(
            before.table(),
            key@,
            now,
            before.max_requests(),
            before.window_secs(),
        ).0);
        r
    }

    /// Reads the clock: nanoseconds since the limiter was made, never
    /// earlier than the reading before.
    fn read_clock(&self) -> (now: u64)
        ensures
            now >= self.last,
    {
        let t = nanos_since(&self.origin);
        if t > self.last {
            t
        } else {
            self.last
        }
    }
}

// ---------------------------------------------------------------------------
// Laws
// ---------------------------------------------------------------------------

/// Keeping the recent instants never lengthens a sequence.
pub proof fn lemma_recent_len(s: Seq<u64>, now: u64, window_secs: u64)
    ensures
        recent(s, now, window_secs).len() <= s.len(),
    decreases s.len(),
{
    if s.len() > 0 {
        lemma_recent_len(s.drop_last(), now, window_secs);
    }
}

/// The failed login that brings a key's recent failures to `max_attempts`
/// locks it: every check before the lock deadline is refused, and told how
/// long to wait.
pub proof fn law_lockout_refuses_until_deadline(
    m: LoginTable,
    key: Seq<char>,
    now: u64,
    t: u64,
    max_attempts: nat,
    window_secs: u64,
    lockout_secs: u64,
)
    requires
        recent_failures(m, key, now, window_secs).len() + 1 >= max_attempts,
        t < lock_deadline(now, lockout_secs),
    ensures
        login_check(
            login_record_failure(m, key, now, max_attempts, window_secs, lockout_secs),
            key,
            t,
            window_secs,
        ).1 == Some(retry_secs(lock_deadline(now, lockout_secs) as int, t as int)),
{
    let m2 = login_record_failure(m, key, now, max_attempts, window_secs, lockout_secs);
    assert(m2.contains_key(key));
    assert(m2[key] == (Seq::<u64>::empty(), Some(lock_deadline(now, lockout_secs))));
    assert(prune_login(m2, t, window_secs).contains_key(key));
}

/// Once the lock deadline has passed, and with no later failure, the key may
/// attempt a login again.
pub proof fn law_lock_expires(
    m: LoginTable,
    key: Seq<char>,
    now: u64,
    t: u64,
    max_attempts: nat,
    window_secs: u64,
    lockout_secs: u64,
)
    requires
        recent_failures(m, key, now, window_secs).len() + 1 >= max_attempts,
        t >= lock_deadline(now, lockout_secs),
    ensures
        login_check(
            login_record_failure(m, key, now, max_attempts, window_secs, lockout_secs),
            key,
            t,
            window_secs,
        ).1 is None,
{
    let m2 = login_record_failure(m, key, now, max_attempts, window_secs, lockout_secs);
    assert(m2[key] == (Seq::<u64>::empty(), Some(lock_deadline(now, lockout_secs))));
    assert(!prune_login(m2, t, window_secs).contains_key(key));
}

/// A failure that stays below the limit does not lock a key that was not
/// locked.
pub proof fn law_failure_below_limit_keeps_access(
    m: LoginTable,
    key: Seq<char>,
    now: u64,
    max_attempts: nat,
    window_secs: u64,
    lockout_secs: u64,
)
    requires
        recent_failures(m, key, now, window_secs).len() + 1 < max_attempts,
        prune_login(m, now, window_secs).contains_key(key) ==> !locked_at(
            prune_login(m, now, window_secs)[key],
            now,
        ),
    ensures
        login_check(
            login_record_failure(m, key, now, max_attempts, window_secs, lockout_secs),
            key,
            now,
            window_secs,
        ).1 is None,
{
    let m2 = login_record_failure(m, key, now, max_attempts, window_secs, lockout_secs);
    let p2 = prune_login(m2, now, window_secs);
    if p2.contains_key(key) {
        assert(!locked_at(p2[key], now));
    }
}

/// A successful login clears the key: its next check is admitted.
pub proof fn law_success_clears(m: LoginTable, key: Seq<char>, t: u64, window_secs: u64)
    ensures
        login_check(m.remove(key), key, t, window_secs).1 is None,
{
    assert(!prune_login(m.remove(key), t, window_secs).contains_key(key));
}

/// No key holds more than `max_requests` requests.
pub open spec fn public_bounded(m: PublicTable, max_requests: nat) -> bool {
    forall|k: Seq<char>| #[trigger] m.contains_key(k) ==> m[k].len() <= max_requests
}

/// A public request is admitted exactly when fewer than `max_requests`
/// requests of its key fall inside the window, and the table never holds
/// more than `max_requests` requests for a key.
pub proof fn law_public_window_bound(
    m: PublicTable,
    key: Seq<char>,
    now: u64,
    max_requests: nat,
    window_secs: u64,
)
    requires
        public_bounded(m, max_requests),
    ensures
        public_bounded(
            public_check_and_record(m, key, now, max_requests, window_secs).0,
            max_requests,
        ),
        public_check_and_record(m, key, now, max_requests, window_secs).1 is None
            <==> recent_requests(m, key, now, window_secs).len() < max_requests,
{
    let r = public_check_and_record(m, key, now, max_requests, window_secs).0;
    let p = prune_public(m, now, window_secs);
    assert forall|k: Seq<char>| #[trigger] r.contains_key(k) implies r[k].len() <= max_requests by {
        if k != key {
            lemma_recent_len(m[k], now, window_secs);
        } else if p.contains_key(key) {
            lemma_recent_len(m[key], now, window_secs);
        }
    }
}

/// Requests for one key leave the requests recorded for every other key as
/// pruning alone would leave them.
pub proof fn law_public_keys_independent(
    m: PublicTable,
    key: Seq<char>,
    other: Seq<char>,
    now: u64,
    max_requests: nat,
    window_secs: u64,
)
    requires
        other != key,
    ensures
        public_check_and_record(m, key, now, max_requests, window_secs).0.contains_key(other)
            == prune_public(m, now, window_secs).contains_key(other),
        prune_public(m, now, window_secs).contains_key(other) ==> public_check_and_record(
            m,
            key,
            now,
            max_requests,
            window_secs,
        ).0[other] == prune_public(m, now, window_secs)[other],
{
}

/// The requests recorded for a key, none where it has no entry.
pub open spec fn public_entry(m: PublicTable, key: Seq<char>) -> Seq<u64> {
    if m.contains_key(key) {
        m[key]
    } else {
        seq![]
    }
}

/// Public requests for one key at the given instants, one after another:
/// the table after them and how many were admitted.
pub open spec fn public_run(
    m: PublicTable,
    key: Seq<char>,
    times: Seq<u64>,
    max_requests: nat,
    window_secs: u64,
) -> (PublicTable, nat)
    decreases times.len(),
{
    if times.len() == 0 {
        (m, 0)
    } else {
        let prev = public_run(m, key, times.drop_last(), max_requests, window_secs);
        let step = public_check_and_record(prev.0, key, times.last(), max_requests, window_secs);
        (step.0, prev.1 + if step.1 is None {
            1nat
        } else {
            0nat
        })
    }
}

/// How many instants of `s` are at or after `start`.
spec fn count_from(s: Seq<u64>, start: u64) -> nat
    decreases s.len(),
{
    if s.len() == 0 {
        0
    } else {
        count_from(s.drop_last(), start) + if s.last() >= start {
            1nat
        } else {
            0nat
        }
    }
}

proof fn lemma_count_from_len(s: Seq<u64>, start: u64)
    ensures
        count_from(s, start) <= s.len(),
    decreases s.len(),
{
    if s.len() > 0 {
        lemma_count_from_len(s.drop_last(), start);
    }
}

/// Pruning at an instant inside the window that begins at `start` keeps
/// every instant at or after `start`.
proof fn lemma_recent_keeps_from(s: Seq<u64>, now: u64, window_secs: u64, start: u64)
    requires
        start <= now,
        now - start <= window_secs as int * 1_000_000_000,
    ensures
        count_from(recent(s, now, window_secs), start) == count_from(s, start),
    decreases s.len(),
{
    if s.len() > 0 {
        lemma_recent_keeps_from(s.drop_last(), now, window_secs, start);
        let rest = recent(s.drop_last(), now, window_secs);
        if within_window(now, s.last(), window_secs) {
            assert(rest.push(s.last()).drop_last() =~= rest);
        } else {
            assert(s.last() < start);
        }
    }
}

proof fn lemma_public_run_within(
    m: PublicTable,
    key: Seq<char>,
    times: Seq<u64>,
    max_requests: nat,
    window_secs: u64,
    start: u64,
)
    requires
        forall|i: int|
            0 <= i < times.len() ==> start <= #[trigger] times[i] && times[i] - start
                <= window_secs as int * 1_000_000_000,
    ensures
        public_run(m, key, times, max_requests, window_secs).1 <= max_requests,
        public_run(m, key, times, max_requests, window_secs).1 <= count_from(
            public_entry(public_run(m, key, times, max_requests, window_secs).0, key),
            start,
        ),
    decreases times.len(),
{
    if times.len() > 0 {
        let pre = times.drop_last();
        assert forall|i: int| 0 <= i < pre.len() implies start <= #[trigger] pre[i] && pre[i] - start
            <= window_secs as int * 1_000_000_000 by {
            assert(pre[i] == times[i]);
        }
        lemma_public_run_within(m, key, pre, max_requests, window_secs, start);
        let prev = public_run(m, key, pre, max_requests, window_secs);
        let now = times.last();
        assert(now == times[times.len() - 1]);
        let e = recent_requests(prev.0, key, now, window_secs);
        assert(e == recent(public_entry(prev.0, key), now, window_secs));
        lemma_recent_keeps_from(public_entry(prev.0, key), now, window_secs, start);
        lemma_count_from_len(e, start);
        if e.len() < max_requests {
            assert(e.push(now).drop_last() =~= e);
        }
    }
}

/// Of requests for one key whose instants all fall within one window (from
/// `start` to `window_secs` seconds later), at most `max_requests` are
/// admitted, whatever was recorded before them.
pub proof fn law_public_window_admits_at_most_max(
    m: PublicTable,
    key: Seq<char>,
    times: Seq<u64>,
    max_requests: nat,
    window_secs: u64,
    start: u64,
)
    requires
        forall|i: int|
            0 <= i < times.len() ==> start <= #[trigger] times[i] && times[i] - start
                <= window_secs as int * 1_000_000_000,
    ensures
        public_run(m, key, times, max_requests, window_secs).1 <= max_requests,
{
    lemma_public_run_within(m, key, times, max_requests, window_secs, start);
}

/// The failures recorded for a key, none where it has no entry.
pub open spec fn login_entry_failures(m: LoginTable, key: Seq<char>) -> Seq<u64> {
    if m.contains_key(key) {
        m[key].0
    } else {
        seq![]
    }
}

/// Failed logins for one key at the given instants, one after another: the
/// table after them.
pub open spec fn login_failure_run(
    m: LoginTable,
    key: Seq<char>,
    times: Seq<u64>,
    max_attempts: nat,
    window_secs: u64,
    lockout_secs: u64,
) -> LoginTable
    decreases times.len(),
{
    if times.len() == 0 {
        m
    } else {
        login_record_failure(
            login_failure_run(m, key, times.drop_last(), max_attempts, window_secs, lockout_secs),
            key,
            times.last(),
            max_attempts,
            window_secs,
            lockout_secs,
        )
    }
}

/// Some failure of the run locks the key: right after it, the key holds no
/// failures and is locked until the lock deadline of that failure.
pub open spec fn login_run_locks(
    m: LoginTable,
    key: Seq<char>,
    times: Seq<u64>,
    max_attempts: nat,
    window_secs: u64,
    lockout_secs: u64,
) -> bool
    decreases times.len(),
{
    if times.len() == 0 {
        false
    } else {
        login_run_locks(m, key, times.drop_last(), max_attempts, window_secs, lockout_secs)
            || login_failure_run(m, key, times, max_attempts, window_secs, lockout_secs)[key] == (
            Seq::<u64>::empty(),
            Some(lock_deadline(times.last(), lockout_secs)),
        )
    }
}

proof fn lemma_failure_run_counts(
    m: LoginTable,
    key: Seq<char>,
    times: Seq<u64>,
    max_attempts: nat,
    window_secs: u64,
    lockout_secs: u64,
    start: u64,
)
    requires
        forall|i: int|
            0 <= i < times.len() ==> start <= #[trigger] times[i] && times[i] - start
                <= window_secs as int * 1_000_000_000,
    ensures
        !login_run_locks(m, key, times, max_attempts, window_secs, lockout_secs) ==> count_from(
            login_entry_failures(
                login_failure_run(m, key, times, max_attempts, window_secs, lockout_secs),
                key,
            ),
            start,
        ) >= times.len() && (times.len() == 0 || times.len() < max_attempts),
    decreases times.len(),
{
    if times.len() > 0 {
        let pre = times.drop_last();
        assert forall|i: int| 0 <= i < pre.len() implies start <= #[trigger] pre[i] && pre[i] - start
            <= window_secs as int * 1_000_000_000 by {
            assert(pre[i] == times[i]);
        }
        lemma_failure_run_counts(m, key, pre, max_attempts, window_secs, lockout_secs, start);
        let prev = login_failure_run(m, key, pre, max_attempts, window_secs, lockout_secs);
        let now = times.last();
        assert(now == times[times.len() - 1]);
        let old_f = login_entry_failures(prev, key);
        lemma_recent_keeps_from(old_f, now, window_secs, start);
        let rf = recent_failures(prev, key, now, window_secs);
        if prev.contains_key(key) {
            if !prune_login(prev, now, window_secs).contains_key(key) {
                assert(recent(old_f, now, window_secs).len() == 0);
                assert(recent(old_f, now, window_secs) =~= Seq::<u64>::empty());
            }
        } else {
            assert(old_f == Seq::<u64>::empty());
        }
        assert(count_from(rf, start) >= count_from(old_f, start));
        let failures = rf.push(now);
        assert(failures.drop_last() =~= rf);
        lemma_count_from_len(failures, start);
    }
}

/// `max_attempts` (and at least one) failed logins for one key whose
/// instants all fall within one window (from `start` to `window_secs` seconds later) lock the key at
/// one of them, whatever was recorded before.
pub proof fn law_max_failures_in_window_lock(
    m: LoginTable,
    key: Seq<char>,
    times: Seq<u64>,
    max_attempts: nat,
    window_secs: u64,
    lockout_secs: u64,
    start: u64,
)
    requires
        times.len() >= max_attempts,
        times.len() > 0,
        forall|i: int|
            0 <= i < times.len() ==> start <= #[trigger] times[i] && times[i] - start
                <= window_secs as int * 1_000_000_000,
    ensures
        login_run_locks(m, key, times, max_attempts, window_secs, lockout_secs),
{
    lemma_failure_run_counts(m, key, times, max_attempts, window_secs, lockout_secs, start);
}

/// How many admitted requests of the log for `key` fall at an instant from
/// `lo` to `hi`.
pub open spec fn admitted_count(log: Seq<(Seq<char>, u64)>, key: Seq<char>, lo: int, hi: int) -> nat
    decreases log.len(),
{
    if log.len() == 0 {
        0
    } else {
        admitted_count(log.drop_last(), key, lo, hi) + if log.last().0 == key && lo <= log.last().1
            <= hi {
            1nat
        } else {
            0nat
        }
    }
}

/// How many instants of `s` are at or after `lo`.
spec fn count_ge(s: Seq<u64>, lo: int) -> nat
    decreases s.len(),
{
    if s.len() == 0 {
        0
    } else {
        count_ge(s.drop_last(), lo) + if s.last() >= lo {
            1nat
        } else {
            0nat
        }
    }
}

proof fn lemma_count_ge_len(s: Seq<u64>, lo: int)
    ensures
        count_ge(s, lo) <= s.len(),
    decreases s.len(),
{
    if s.len() > 0 {
        lemma_count_ge_len(s.drop_last(), lo);
    }
}

proof fn lemma_recent_keeps_ge(s: Seq<u64>, now: u64, window_secs: u64, lo: int)
    requires
        lo <= now,
        now - lo <= window_secs as int * 1_000_000_000,
    ensures
        count_ge(recent(s, now, window_secs), lo) == count_ge(s, lo),
    decreases s.len(),
{
    if s.len() > 0 {
        lemma_recent_keeps_ge(s.drop_last(), now, window_secs, lo);
        let rest = recent(s.drop_last(), now, window_secs);
        if within_window(now, s.last(), window_secs) {
            assert(rest.push(s.last()).drop_last() =~= rest);
        }
    }
}

proof fn lemma_admitted_narrower(log: Seq<(Seq<char>, u64)>, key: Seq<char>, lo1: int, hi1: int, lo2: int, hi2: int)
    requires
        lo1 <= lo2,
        hi2 <= hi1,
    ensures
        admitted_count(log, key, lo2, hi2) <= admitted_count(log, key, lo1, hi1),
    decreases log.len(),
{
    if log.len() > 0 {
        lemma_admitted_narrower(log.drop_last(), key, lo1, hi1, lo2, hi2);
    }
}

/// With every instant of the log at most `t`, instants past `t` add nothing.
proof fn lemma_admitted_upto(log: Seq<(Seq<char>, u64)>, key: Seq<char>, lo: int, hi: int, t: int)
    requires
        t <= hi,
        forall|i: int| 0 <= i < log.len() ==> #[trigger] log[i].1 <= t,
    ensures
        admitted_count(log, key, lo, hi) == admitted_count(log, key, lo, t),
        lo > t ==> admitted_count(log, key, lo, hi) == 0,
    decreases log.len(),
{
    if log.len() > 0 {
        assert forall|i: int| 0 <= i < log.drop_last().len() implies #[trigger] log.drop_last()[i].1 <= t by {
            assert(log.drop_last()[i] == log[i]);
        }
        lemma_admitted_upto(log.drop_last(), key, lo, hi, t);
        assert(log.last() == log[log.len() - 1]);
    }
}

/// What holds of a public limiter whose instants never went back: every
/// logged admission is no later than `last`; in any span of the window's
/// length a key has at most `max_requests` admissions; and every admission
/// of a key still inside the window at `last` is kept in the key's entry.
spec fn public_window_inv(
    m: PublicTable,
    log: Seq<(Seq<char>, u64)>,
    last: u64,
    max_requests: nat,
    window_secs: u64,
) -> bool {
    &&& forall|i: int| 0 <= i < log.len() ==> #[trigger] log[i].1 <= last
    &&& forall|k: Seq<char>, lo: int, hi: int|
        hi - lo <= window_secs as int * 1_000_000_000 ==> #[trigger] admitted_count(log, k, lo, hi)
            <= max_requests
    &&& forall|k: Seq<char>, lo: int|
        lo >= last - window_secs as int * 1_000_000_000 ==> count_ge(public_entry(m, k), lo)
            >= #[trigger] admitted_count(log, k, lo, last as int)
}

/// A request at an instant no earlier than the last keeps the invariant,
/// the request joining the log when it is admitted.
proof fn lemma_public_step(
    m: PublicTable,
    log: Seq<(Seq<char>, u64)>,
    last: u64,
    key: Seq<char>,
    now: u64,
    max_requests: nat,
    window_secs: u64,
)
    requires
        public_window_inv(m, log, last, max_requests, window_secs),
        now >= last,
    ensures
        public_window_inv(
            public_check_and_record(m, key, now, max_requests, window_secs).0,
            if public_check_and_record(m, key, now, max_requests, window_secs).1 is None {
                log.push((key, now))
            } else {
                log
            },
            now,
            max_requests,
            window_secs,
        ),
{
    let w = window_secs as int * 1_000_000_000;
    let step = public_check_and_record(m, key, now, max_requests, window_secs);
    let admitted = step.1 is None;
    let log2 = if admitted {
        log.push((key, now))
    } else {
        log
    };
    let m2 = step.0;
    let e = recent_requests(m, key, now, window_secs);
    assert(e == recent(public_entry(m, key), now, window_secs));
    assert forall|i: int| 0 <= i < log2.len() implies #[trigger] log2[i].1 <= now by {
        if i < log.len() {
            assert(log2[i] == log[i]);
        }
    }
    // The bound on every span.
    assert forall|k: Seq<char>, lo: int, hi: int|
        hi - lo <= w implies #[trigger] admitted_count(log2, k, lo, hi) <= max_requests by {
        if admitted {
            assert(log2.drop_last() =~= log);
            assert(log2.last() == (key, now));
            if k == key && lo <= now <= hi {
                let lo2 = now - w;
                assert(e.len() < max_requests);
                lemma_admitted_upto(log, key, lo, hi, last as int);
                lemma_admitted_narrower(log, key, lo2, last as int, lo, last as int);
                assert(count_ge(public_entry(m, key), lo2) >= admitted_count(log, key, lo2, last as int));
                lemma_recent_keeps_ge(public_entry(m, key), now, window_secs, lo2);
                lemma_count_ge_len(e, lo2);
            } else {
                assert(admitted_count(log, k, lo, hi) <= max_requests);
            }
        } else {
            assert(admitted_count(log, k, lo, hi) <= max_requests);
        }
    }
    // Every admission inside the window at `now` is kept.
    assert forall|k: Seq<char>, lo: int|
        lo >= now - w implies count_ge(public_entry(m2, k), lo) >= #[trigger] admitted_count(
            log2,
            k,
            lo,
            now as int,
        ) by {
        if lo > now {
            lemma_admitted_upto(log2, k, lo, now as int, now as int);
        } else {
            lemma_admitted_upto(log, k, lo, now as int, last as int);
            assert(count_ge(public_entry(m, k), lo) >= admitted_count(log, k, lo, last as int));
            lemma_recent_keeps_ge(public_entry(m, k), now, window_secs, lo);
            let p = prune_public(m, now, window_secs);
            if k != key {
                assert(public_entry(m2, k) == public_entry(p, k));
                if !p.contains_key(k) {
                    if m.contains_key(k) {
                        assert(recent(m[k], now, window_secs).len() == 0);
                        assert(recent(m[k], now, window_secs) =~= Seq::<u64>::empty());
                    }
                }
                assert(count_ge(public_entry(p, k), lo) == count_ge(recent(public_entry(m, k), now, window_secs), lo));
                if admitted {
                    assert(log2.drop_last() =~= log);
                }
            } else {
                if admitted {
                    assert(public_entry(m2, k) == e.push(now));
                    assert(e.push(now).drop_last() =~= e);
                    assert(log2.drop_last() =~= log);
                } else {
                    assert(public_entry(m2, k) == e);
                }
            }
        }
    }
}

/// Of the requests a public limiter has admitted, as long as it has never
/// handled a request at an instant earlier than one before it (which its
/// clock-reading calls ensure), at most `max_requests` of one key fall in any
/// span of the window's length; a refused request is not counted.
pub proof fn law_public_calls_bounded(lim: &PublicRateLimiter, key: Seq<char>, lo: int, hi: int)
    requires
        lim.wf(),
        lim.steady(),
        hi - lo <= lim.window_secs() as int * 1_000_000_000,
    ensures
        admitted_count(lim.admitted(), key, lo, hi) <= lim.max_requests(),
{
}

/// A refused public request waits at least one second, and no longer than
/// the window.
pub proof fn law_public_retry_bounds(e: Seq<u64>, now: u64, window_secs: u64)
    ensures
        1 <= public_retry_secs(e, now, window_secs),
        public_retry_secs(e, now, window_secs) <= (if window_secs < 1 {
            1
        } else {
            window_secs as int
        }),
{
    if e.len() > 0 {
        let w = window_secs as int * 1_000_000_000;
        let d = sat_sub(w, sat_sub(now as int, e[0] as int));
        assert(d <= w);
        assert(d / 1_000_000_000 <= window_secs) by (nonlinear_arith)
            requires
                d <= w,
                w == window_secs as int * 1_000_000_000,
                d >= 0,
        ;
    }
}

} // verus!
