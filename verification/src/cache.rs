//! The merged-output cache of a subscription group: snapshots, their
//! freshness, and the status the console shows.
use vstd::prelude::*;
use crate::links::{links_of, nonblank_trimmed, text_lines};
use crate::shared::UserCacheStatusResponse;
use crate::text::{
    char_len_utf8, chars_of, lemma_utf8_len_concat, split_chars, split_on, trim_chars, utf8_len,
};

verus! {

/// A merged output kept for a subscription group, with the configuration
/// version it was built from.
#[derive(Clone, Debug)]
pub struct CachedSnapshot {
    pub username: String,
    pub content: String,
    pub line_count: u32,
    pub body_bytes: u64,
    pub generated_at: i64,
    pub expires_at: i64,
    pub source_config_version: i64,
}

impl CachedSnapshot {
    /// The snapshot may still be served at `now`.
    pub fn is_fresh(&self, now: i64) -> (r: bool)
        ensures
            r == (self.expires_at > now),
    {
        self.expires_at > now
    }
}

/// The name of a snapshot's state at `now`.
pub open spec fn snapshot_state_text(expires_at: i64, now: i64) -> Seq<char> {
    if expires_at > now {
        "fresh"@
    } else {
        "expired"@
    }
}

/// `fresh` or `expired`.
pub fn snapshot_state(snapshot: &CachedSnapshot, now: i64) -> (r: &'static str)
    ensures
        r@ == snapshot_state_text(snapshot.expires_at, now),
{
    if snapshot.is_fresh(now) {
        "fresh"
    } else {
        "expired"
    }
}

/// The number of non-blank lines, clamped to `u32`.
pub open spec fn line_count_of(content: Seq<char>) -> u32 {
    let n = links_of(content).len();
    if n > u32::MAX {
        u32::MAX
    } else {
        n as u32
    }
}

/// Counts the non-blank lines of a text.
pub fn count_non_empty_lines(content: &str) -> (r: u32)
    ensures
        r == line_count_of(content@),
{
    let cs = chars_of(content);
    let lines = split_chars(cs.as_slice(), '\n');
    let ghost ls = text_lines(content@);
    let mut n: u64 = 0;
    let mut i: usize = 0;
    while i < lines.len()
        invariant
            cs@ == content@,
            ls == split_on(cs@, '\n'),
            lines@.len() == ls.len(),
            forall|j: int| 0 <= j < lines@.len() ==> #[trigger] lines@[j]@ == ls[j],
            i <= lines@.len(),
            n == nonblank_trimmed(ls.subrange(0, i as int)).len(),
            n <= i,
        decreases lines@.len() - i,
    {
        proof {
            assert(ls.subrange(0, i + 1).drop_last() =~= ls.subrange(0, i as int));
            assert(ls.subrange(0, i + 1).last() == lines@[i as int]@);
        }
        let t = trim_chars(lines[i].as_slice());
        if t.len() > 0 {
            n = n + 1;
        }
        i = i + 1;
    }
    assert(ls.subrange(0, lines@.len() as int) =~= ls);
    if n > u32::MAX as u64 {
        u32::MAX
    } else {
        n as u32
    }
}

/// Number of UTF-8 bytes of a text, clamped to `u64`.
pub open spec fn byte_len_of(s: Seq<char>) -> u64 {
    if utf8_len(s) > u64::MAX {
        u64::MAX
    } else {
        utf8_len(s) as u64
    }
}

/// Number of UTF-8 bytes of a text (what `str::len` returns).
pub fn utf8_byte_len(s: &str) -> (r: u64)
    ensures
        r == byte_len_of(s@),
{
    let cs = chars_of(s);
    let mut n: u128 = 0;
    let mut i: usize = 0;
    while i < cs.len()
        invariant
            cs@ == s@,
            i <= cs@.len(),
            n == utf8_len(cs@.subrange(0, i as int)),
            n <= 4 * i,
        decreases cs@.len() - i,
    {
        proof {
            lemma_utf8_len_concat(cs@.subrange(0, i as int), seq![cs@[i as int]]);
            assert(cs@.subrange(0, i as int) + seq![cs@[i as int]] =~= cs@.subrange(0, i + 1));
            assert(seq![cs@[i as int]].drop_first() =~= Seq::<char>::empty());
            assert(utf8_len(Seq::<char>::empty()) == 0);
            assert(seq![cs@[i as int]][0] == cs@[i as int]);
        }
        n = n + char_len_utf8(cs[i]) as u128;
        i = i + 1;
    }
    assert(cs@.subrange(0, cs@.len() as int) =~= cs@);
    if n > u64::MAX as u128 {
        u64::MAX
    } else {
        n as u64
    }
}

#[verifier::external_type_specification]
#[verifier::external_body]
pub struct ExSystemTime(std::time::SystemTime);

/// `SystemTime::now`: the current wall-clock time.
#[verifier::external_body]
fn system_time_now() -> std::time::SystemTime {
    std::time::SystemTime::now()
}

/// `SystemTime::duration_since(UNIX_EPOCH)`; `None` for a time before the
/// epoch.
#[verifier::external_body]
fn since_unix_epoch(t: &std::time::SystemTime) -> Option<std::time::Duration> {
    t.duration_since(std::time::UNIX_EPOCH).ok()
}

/// `Duration::as_secs`: the whole seconds of a duration.
#[verifier::external_body]
fn duration_secs(d: &std::time::Duration) -> u64 {
    d.as_secs()
}

/// A clock reading in whole seconds since the Unix epoch (`None` for a
/// time before the epoch), clamped to `i64`, zero before the epoch.
pub open spec fn epoch_seconds_spec(since: Option<u64>) -> i64 {
    match since {
        Some(s) => if s > i64::MAX {
            i64::MAX
        } else {
            s as i64
        },
        None => 0,
    }
}

/// Turns a clock reading into epoch seconds (see `epoch_seconds_spec`).
pub fn epoch_seconds(since: Option<u64>) -> (r: i64)
    ensures
        r == epoch_seconds_spec(since),
        r >= 0,
{
    match since {
        Some(s) => if s > i64::MAX as u64 {
            i64::MAX
        } else {
            s as i64
        },
        None => 0,
    }
}

/// Seconds since the Unix epoch by the system clock, clamped to `i64`; zero
/// when the clock is before the epoch.  The reading itself is the clock's.
pub fn now_epoch() -> (r: i64)
    ensures
        r >= 0,
        exists|since: Option<u64>| r == epoch_seconds_spec(since),
{
    let t = system_time_now();
    let since = match since_unix_epoch(&t) {
        Some(d) => Some(duration_secs(&d)),
        None => None,
    };
    epoch_seconds(since)
}

/// The instant a snapshot made at `now` with a lifetime of `ttl_secs`
/// expires: the sum saturated at `i64::MAX`.
pub open spec fn expiry(now: i64, ttl_secs: u64) -> i64 {
    let ttl = if ttl_secs > i64::MAX {
        i64::MAX as int
    } else {
        ttl_secs as int
    };
    if now + ttl > i64::MAX {
        i64::MAX
    } else if now + ttl < i64::MIN {
        i64::MIN
    } else {
        (now + ttl) as i64
    }
}

/// The snapshot to store for a merged output built at `now`.
pub fn build_snapshot(
    username: &str,
    content: &str,
    ttl_secs: u64,
    source_config_version: i64,
    now: i64,
) -> (r: CachedSnapshot)
    ensures
        r.username@ == username@,
        r.content@ == content@,
        r.line_count == line_count_of(content@),
        r.body_bytes == byte_len_of(content@),
        r.generated_at == now,
        r.expires_at == expiry(now, ttl_secs),
        r.source_config_version == source_config_version,
{
    let ttl: i64 = if ttl_secs > i64::MAX as u64 {
        i64::MAX
    } else {
        ttl_secs as i64
    };
    let sum: i128 = now as i128 + ttl as i128;
    let expires_at: i64 = if sum > i64::MAX as i128 {
        i64::MAX
    } else {
        sum as i64
    };
    CachedSnapshot {
        username: String::from_str(username),
        content: String::from_str(content),
        line_count: count_non_empty_lines(content),
        body_bytes: utf8_byte_len(content),
        generated_at: now,
        expires_at,
        source_config_version,
    }
}

/// A snapshot rebuilt from its stored columns; a line count or size that does
/// not fit its type is read as zero.
pub fn snapshot_from_columns(
    username: String,
    content: String,
    line_count: i64,
    body_bytes: i64,
    generated_at: i64,
    expires_at: i64,
    source_config_version: i64,
) -> (r: CachedSnapshot)
    ensures
        r.username@ == username@,
        r.content@ == content@,
        r.line_count == (if 0 <= line_count <= u32::MAX {
            line_count as u32
        } else {
            0u32
        }),
        r.body_bytes == (if 0 <= body_bytes {
            body_bytes as u64
        } else {
            0u64
        }),
        r.generated_at == generated_at,
        r.expires_at == expires_at,
        r.source_config_version == source_config_version,
{
    CachedSnapshot {
        username,
        content,
        line_count: if 0 <= line_count && line_count <= u32::MAX as i64 {
            line_count as u32
        } else {
            0
        },
        body_bytes: if 0 <= body_bytes {
            body_bytes as u64
        } else {
            0
        },
        generated_at,
        expires_at,
        source_config_version,
    }
}

/// The status of a group without a usable snapshot.
pub fn empty_status(username: &str) -> (r: UserCacheStatusResponse)
    ensures
        r.username@ == username@,
        r.state@ == "empty"@,
        r.line_count == 0,
        r.body_bytes == 0,
        r.generated_at is None,
        r.expires_at is None,
{
    UserCacheStatusResponse {
        username: String::from_str(username),
        state: String::from_str("empty"),
        line_count: 0,
        body_bytes: 0,
        generated_at: None,
        expires_at: None,
    }
}

/// The status of a snapshot at `now`: its state, size and times.
pub open spec fn snapshot_status_matches(r: UserCacheStatusResponse, s: CachedSnapshot, now: i64) -> bool {
    &&& r.username@ == s.username@
    &&& r.state@ == snapshot_state_text(s.expires_at, now)
    &&& r.line_count == s.line_count
    &&& r.body_bytes == s.body_bytes
    &&& r.generated_at == Some(s.generated_at)
    &&& r.expires_at == Some(s.expires_at)
}

/// The status of an empty cache.
pub open spec fn empty_status_matches(r: UserCacheStatusResponse, username: Seq<char>) -> bool {
    &&& r.username@ == username
    &&& r.state@ == "empty"@
    &&& r.line_count == 0
    &&& r.body_bytes == 0
    &&& r.generated_at is None
    &&& r.expires_at is None
}

/// The status shown for an optional snapshot, judged at `now`.
pub fn status_from_snapshot_at(username: &str, snapshot: Option<&CachedSnapshot>, now: i64) -> (r:
    UserCacheStatusResponse)
    ensures
        match snapshot {
            Some(s) => snapshot_status_matches(r, *s, now),
            None => empty_status_matches(r, username@),
        },
{
    match snapshot {
        Some(s) => UserCacheStatusResponse {
            username: s.username.clone(),
            state: String::from_str(snapshot_state(s, now)),
            line_count: s.line_count,
            body_bytes: s.body_bytes,
            generated_at: Some(s.generated_at),
            expires_at: Some(s.expires_at),
        },
        None => empty_status(username),
    }
}

/// The status shown for an optional snapshot, judged now.
pub fn status_from_snapshot(username: &str, snapshot: Option<&CachedSnapshot>) -> (r:
    UserCacheStatusResponse)
    ensures
        match snapshot {
            Some(s) => exists|now: i64| #[trigger] snapshot_status_matches(r, *s, now) && now >= 0,
            None => empty_status_matches(r, username@),
        },
{
    let now = now_epoch();
    status_from_snapshot_at(username, snapshot, now)
}

/// The snapshot, if any, that may be used for a group whose current
/// configuration version is `expected`: only one built from that version.
pub open spec fn usable_snapshot(snapshot: Option<CachedSnapshot>, expected: i64) -> Option<
    CachedSnapshot,
> {
    match snapshot {
        Some(s) => if s.source_config_version == expected {
            Some(s)
        } else {
            None
        },
        None => None,
    }
}

/// The snapshot that storing a freshly built one leaves written: it is
/// written only while its group exists (`config_version` is the group's
/// current configuration version, `None` when the group is gone) and that
/// version is still the one the snapshot was built from.
pub open spec fn stored_snapshot(config_version: Option<i64>, snapshot: CachedSnapshot) -> Option<
    CachedSnapshot,
> {
    match config_version {
        Some(v) => if v == snapshot.source_config_version {
            Some(snapshot)
        } else {
            None
        },
        None => None,
    }
}

/// Decides whether a freshly built snapshot is written (see
/// `stored_snapshot`): a refresh built from an older configuration never
/// writes its result back.
pub fn store_snapshot_if_current(config_version: Option<i64>, snapshot: CachedSnapshot) -> (r: Option<
    CachedSnapshot,
>)
    ensures
        r == stored_snapshot(config_version, snapshot),
{
    match config_version {
        Some(v) => if v == snapshot.source_config_version {
            Some(snapshot)
        } else {
            None
        },
        None => None,
    }
}

/// The cache status of a group: the stored snapshot's status when it was
/// built from the current configuration version, else the empty status.
pub fn cache_status_for(
    username: &str,
    snapshot: Option<&CachedSnapshot>,
    expected_config_version: i64,
    now: i64,
) -> (r: UserCacheStatusResponse)
    ensures
        match snapshot {
            Some(s) => if s.source_config_version == expected_config_version {
                snapshot_status_matches(r, *s, now)
            } else {
                empty_status_matches(r, username@)
            },
            None => empty_status_matches(r, username@),
        },
{
    match snapshot {
        Some(s) => {
            if s.source_config_version == expected_config_version {
                status_from_snapshot_at(username, Some(s), now)
            } else {
                empty_status(username)
            }
        },
        None => empty_status(username),
    }
}

/// A snapshot is served at `now` only when it was built from the group's
/// current configuration version and has not expired.
pub open spec fn serves_snapshot(s: CachedSnapshot, expected_config_version: i64, now: i64) -> bool {
    s.source_config_version == expected_config_version && s.expires_at > now
}

/// Decides whether the public route may answer from the stored snapshot.
pub fn snapshot_hit(snapshot: Option<&CachedSnapshot>, expected_config_version: i64, now: i64) -> (r:
    bool)
    ensures
        r == match snapshot {
            Some(s) => serves_snapshot(*s, expected_config_version, now),
            None => false,
        },
{
    match snapshot {
        Some(s) => s.source_config_version == expected_config_version && s.is_fresh(now),
        None => false,
    }
}

/// A snapshot built at `now` with a positive lifetime is fresh at `now` and
/// is served for the version it was built from.
pub proof fn law_new_snapshot_fresh(s: CachedSnapshot, now: i64, ttl_secs: u64, version: i64)
    requires
        ttl_secs > 0,
        now < i64::MAX,
        s.generated_at == now,
        s.expires_at == expiry(now, ttl_secs),
        s.source_config_version == version,
    ensures
        serves_snapshot(s, version, now),
{
}

/// A snapshot built from another configuration version is never served, and
/// the console reports the cache as empty.
pub proof fn law_stale_version_not_served(s: CachedSnapshot, expected: i64, now: i64)
    requires
        s.source_config_version != expected,
    ensures
        !serves_snapshot(s, expected, now),
        usable_snapshot(Some(s), expected) is None,
{
}

/// Freshness is monotone: a snapshot that has expired stays expired.
pub proof fn law_expired_stays_expired(s: CachedSnapshot, now: i64, later: i64)
    requires
        !(s.expires_at > now),
        now <= later,
    ensures
        !(s.expires_at > later),
{
}

/// A refresh built from a configuration version other than the group's
/// current one writes nothing, and what is written is usable for the current
/// version.
pub proof fn law_stale_refresh_not_stored(config_version: i64, snapshot: CachedSnapshot)
    ensures
        snapshot.source_config_version != config_version ==> stored_snapshot(
            Some(config_version),
            snapshot,
        ) is None,
        usable_snapshot(stored_snapshot(Some(config_version), snapshot), config_version)
            == stored_snapshot(Some(config_version), snapshot),
{
}

/// The public route answers from a snapshot only while it is fresh (it
/// expires after `now`) and was built from the current configuration
/// version; every such snapshot is served.
pub proof fn law_served_only_while_fresh(s: CachedSnapshot, expected: i64, now: i64)
    ensures
        serves_snapshot(s, expected, now) ==> s.expires_at > now,
        serves_snapshot(s, expected, now) ==> s.source_config_version == expected,
        s.expires_at > now && s.source_config_version == expected ==> serves_snapshot(s, expected, now),
        s.expires_at <= now ==> !serves_snapshot(s, expected, now),
{
}

} // verus!
