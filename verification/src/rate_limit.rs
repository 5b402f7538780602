//! Sliding-window rate limits kept in Redis: key naming, the per-access-level
//! tag budget, and the verdict drawn from a window's count.

use vstd::prelude::*;
use crate::minecraft::{is_v4_text, new_v4_text};
use crate::text::{chars_of, has_prefix, i64_decimal_chars, push_chars, push_str, signed_decimal, starts_with, string_of, suffix_from};

verus! {

/// Length of the sliding window, in seconds.
pub const WINDOW_SECS: i64 = 300;

/// Seconds a window key outlives its last entry.
pub const WINDOW_TTL_SECS: i64 = 310;

/// Requests per window for a personal API key.
pub const PERSONAL_RATE_LIMIT: i64 = 600;

/// Requests per window for a session.
pub const SESSION_RATE_LIMIT: i64 = 300;

/// Player lookups per window for a session.
pub const SESSION_UUID_BUDGET: i64 = 2000;

/// The prefix shared by every rate-limit key.
pub open spec fn key_prefix() -> Seq<char> {
    seq!['r', 'a', 't', 'e', 'l', 'i', 'm', 'i', 't', ':']
}

/// The verdict on one request.
pub enum RateLimitResult {
    Allowed { remaining: i64 },
    Exceeded,
}

/// How much of a budget a key has used in the current window.
#[derive(Debug, Clone)]
pub struct BudgetUsage {
    pub name: String,
    pub used: i64,
    pub limit: i64,
}

#[verifier::external_type_specification]
#[verifier::external_body]
pub struct ExConnectionManager(redis::aio::ConnectionManager);

/// `ConnectionManager::clone` hands out another handle to the same managed
/// connection; nothing is claimed of the handle.
pub assume_specification[ <redis::aio::ConnectionManager as Clone>::clone ](
    manager: &redis::aio::ConnectionManager,
) -> redis::aio::ConnectionManager;

/// A shared, self-reconnecting Redis connection.
#[derive(Clone)]
pub struct RedisPool {
    pub manager: redis::aio::ConnectionManager,
}

/// Sliding-window rate limiter over a Redis pool.
#[derive(Clone)]
pub struct RateLimiter {
    pool: RedisPool,
}

impl RateLimiter {
    /// The pool the limiter records into.
    pub closed spec fn pool_spec(&self) -> RedisPool {
        self.pool
    }

    pub fn new(pool: RedisPool) -> (r: Self)
        ensures
            r.pool_spec() == pool,
    {
        Self { pool }
    }

    /// The pool the limiter records into.
    pub fn pool(&self) -> (p: &RedisPool)
        ensures
            *p == self.pool_spec(),
    {
        &self.pool
    }
}

/// The Redis key under which the window of `name` is kept.
pub fn key(name: &str) -> (k: String)
    ensures
        k@ == key_prefix() + name@,
{
    let mut out: Vec<char> = Vec::new();
    push_str(&mut out, "ratelimit:");
    proof {
        reveal_strlit("ratelimit:");
        assert(out@ =~= key_prefix());
    }
    push_str(&mut out, name);
    string_of(&out)
}

/// The window name for the tag budget of a Discord user.
pub fn tag_limit_name(discord_id: i64) -> (n: String)
    ensures
        n@ == seq!['t', 'a', 'g', ':'] + signed_decimal(discord_id as int),
{
    let mut out: Vec<char> = Vec::new();
    push_str(&mut out, "tag:");
    proof {
        reveal_strlit("tag:");
    }
    let d = i64_decimal_chars(discord_id);
    push_chars(&mut out, &d);
    string_of(&out)
}

/// Tag submissions allowed per window for an access level; 0 means unlimited.
pub open spec fn tag_limit(access_level: int) -> int {
    if access_level >= 5 {
        0
    } else if access_level >= 3 {
        60
    } else if access_level == 2 {
        30
    } else if access_level == 1 {
        15
    } else {
        10
    }
}

/// Tag submissions allowed per window for an access level; 0 means unlimited.
pub fn tag_limit_for_access(access_level: i16) -> (limit: i64)
    ensures
        limit == tag_limit(access_level as int),
{
    if access_level >= 5 {
        0
    } else if access_level >= 3 {
        60
    } else if access_level == 2 {
        30
    } else if access_level == 1 {
        15
    } else {
        10
    }
}

/// The answer to a tag-limit check that needs no window at all: members whose
/// access level carries no limit are always allowed.
pub fn tag_limit_precheck(access_level: i16) -> (r: Option<RateLimitResult>)
    ensures
        tag_limit(access_level as int) == 0 ==> r == Some(RateLimitResult::Allowed { remaining: i64::MAX }),
        tag_limit(access_level as int) != 0 ==> r.is_none(),
{
    if tag_limit_for_access(access_level) == 0 {
        Some(RateLimitResult::Allowed { remaining: i64::MAX })
    } else {
        None
    }
}

/// How many entries a request of the given weight records; at least one.
pub fn recorded_entries(weight: i64) -> (n: i64)
    ensures
        n == (if weight >= 1 { weight } else { 1 }),
        n >= 1,
{
    if weight >= 1 { weight } else { 1 }
}

/// The verdict once the window holds `count` entries, this request's included.
pub fn verdict(count: i64, limit: i64) -> (r: RateLimitResult)
    requires
        count >= 0,
    ensures
        count > limit ==> r == RateLimitResult::Exceeded,
        count <= limit ==> r == (RateLimitResult::Allowed { remaining: (limit - count) as i64 }),
        r == verdict_of(count as int, limit as int),
{
    if count > limit {
        RateLimitResult::Exceeded
    } else {
        RateLimitResult::Allowed { remaining: limit - count }
    }
}

/// The budget name behind a Redis key: the key without the shared prefix, or
/// the key itself when it lacks it.
pub fn budget_name(redis_key: &str) -> (n: String)
    ensures
        has_prefix(redis_key@, key_prefix()) ==> n@ == redis_key@.skip(key_prefix().len() as int),
        !has_prefix(redis_key@, key_prefix()) ==> n@ == redis_key@,
{
    let s = chars_of(redis_key);
    proof {
        reveal_strlit("ratelimit:");
        assert("ratelimit:"@ =~= key_prefix());
    }
    if starts_with(&s, "ratelimit:") {
        let rest = suffix_from(&s, 10);
        string_of(&rest)
    } else {
        string_of(&s)
    }
}

/// The usage record of one scanned key.
pub fn budget_usage(redis_key: &str, used: i64, limit: i64) -> (u: BudgetUsage)
    ensures
        has_prefix(redis_key@, key_prefix()) ==> u.name@ == redis_key@.skip(key_prefix().len() as int),
        !has_prefix(redis_key@, key_prefix()) ==> u.name@ == redis_key@,
        u.used == used,
        u.limit == limit,
{
    BudgetUsage { name: budget_name(redis_key), used, limit }
}

/// The SCAN pattern that matches every budget whose name starts with `name_prefix`.
pub fn scan_pattern(name_prefix: &str) -> (p: String)
    ensures
        p@ == key_prefix() + name_prefix@ + seq!['*'],
{
    let mut out: Vec<char> = Vec::new();
    push_str(&mut out, "ratelimit:");
    push_str(&mut out, name_prefix);
    out.push('*');
    proof {
        reveal_strlit("ratelimit:");
        assert("ratelimit:"@ =~= key_prefix());
    }
    string_of(&out)
}

/// The member recorded in a window for one request at `now`: the time, a
/// colon, and a fresh random id, so that requests in the same second are
/// counted apart.
pub fn window_entry(now: i64) -> (e: String)
    ensures
        e@.len() > signed_decimal(now as int).len(),
        e@.take(signed_decimal(now as int).len() as int + 1) == signed_decimal(now as int) + seq![':'],
        is_v4_text(e@.skip(signed_decimal(now as int).len() as int + 1)),
{
    let mut out = i64_decimal_chars(now);
    let ghost d = out@;
    out.push(':');
    let id = new_v4_text();
    push_str(&mut out, id.as_str());
    assert(out@.take(d.len() as int + 1) =~= d + seq![':']);
    assert(out@.skip(d.len() as int + 1) =~= id@);
    string_of(&out)
}

/// The budget name read back from the key of a name is that name: scanning
/// the windows finds each under the name it was recorded with.
pub proof fn budget_name_reads_key_back(name: Seq<char>)
    ensures
        has_prefix(key_prefix() + name, key_prefix()),
        (key_prefix() + name).skip(key_prefix().len() as int) == name,
{
    assert((key_prefix() + name).take(key_prefix().len() as int) == key_prefix());
    assert((key_prefix() + name).skip(key_prefix().len() as int) == name);
}

/// A higher access level never has a tighter tag limit: it is unlimited, or
/// the lower level's limit is finite and no larger.
pub proof fn tag_limit_grows_with_access(lower: int, higher: int)
    requires
        lower <= higher,
    ensures
        tag_limit(higher) == 0 || (tag_limit(lower) != 0 && tag_limit(lower) <= tag_limit(higher)),
{
}


/// The window and limit a tag submission is checked against: none for an
/// access level without limit (it is allowed outright), else the user's tag
/// window and the level's limit, checked as any other request.
pub fn tag_limit_request(discord_id: i64, access_level: i16) -> (r: Result<(String, i64), RateLimitResult>)
    ensures
        tag_limit(access_level as int) == 0 ==> r == Err::<(String, i64), RateLimitResult>(RateLimitResult::Allowed { remaining: i64::MAX }),
        tag_limit(access_level as int) != 0 ==> r is Ok
            && r->Ok_0.0@ == seq!['t', 'a', 'g', ':'] + signed_decimal(discord_id as int)
            && r->Ok_0.1 == tag_limit(access_level as int),
{
    let limit = tag_limit_for_access(access_level);
    if limit == 0 {
        Err(RateLimitResult::Allowed { remaining: i64::MAX })
    } else {
        Ok((tag_limit_name(discord_id), limit))
    }
}

/// The score below which (inclusive) a request at `now` drops the window's
/// entries: those older than the window.
pub fn window_cutoff(now: i64) -> (c: i64)
    requires
        now >= i64::MIN + WINDOW_SECS,
    ensures
        c == now - WINDOW_SECS,
{
    now - WINDOW_SECS
}

/// The verdict on a window holding `count` entries.
pub open spec fn verdict_of(count: int, limit: int) -> RateLimitResult {
    if count > limit { RateLimitResult::Exceeded } else { RateLimitResult::Allowed { remaining: (limit - count) as i64 } }
}

/// The entries of a window after a request at `now` of `weight`: those newer
/// than the cutoff stay, and the request's entries are added at `now`.
pub open spec fn window_after(entries: Seq<i64>, now: i64, weight: i64) -> Seq<i64> {
    entries.filter(|e: i64| e > now - WINDOW_SECS)
        + Seq::new((if weight >= 1 { weight } else { 1 }) as nat, |j: int| now)
}

/// The window after the first `k` of the requests made at the times `ts`,
/// each of weight one, starting empty.
pub open spec fn window_of(ts: Seq<i64>, k: int) -> Seq<i64>
    decreases k,
{
    if k <= 0 {
        Seq::empty()
    } else {
        window_after(window_of(ts, k - 1), ts[k - 1], 1)
    }
}

proof fn lemma_filter_keeps_newer(s: Seq<i64>, cut: int)
    requires
        forall|i: int| 0 <= i < s.len() ==> s[i] > cut,
    ensures
        s.filter(|e: i64| e > cut) == s,
    decreases s.len(),
{
    reveal(Seq::filter);
    if s.len() > 0 {
        lemma_filter_keeps_newer(s.drop_last(), cut);
        assert(s[s.len() - 1] > cut);
        assert(s.drop_last().push(s.last()) =~= s);
    }
}

proof fn lemma_window_is_requests(ts: Seq<i64>, k: int)
    requires
        0 <= k <= ts.len(),
        forall|i: int, j: int| 0 <= i <= j < ts.len() ==> ts[i] <= ts[j],
        forall|j: int| 0 <= j < ts.len() ==> #[trigger] ts[j] < ts[0] + WINDOW_SECS,
    ensures
        window_of(ts, k) == ts.take(k),
    decreases k,
{
    if k > 0 {
        lemma_window_is_requests(ts, k - 1);
        let w = ts.take(k - 1);
        let now = ts[k - 1];
        assert forall|i: int| 0 <= i < w.len() implies w[i] > now - WINDOW_SECS by {
            assert(w[i] == ts[i]);
            assert(ts[0] <= ts[i]);
        }
        assert(w.filter(|e: i64| e > now - WINDOW_SECS) == w.filter(|e: i64| e > (now - WINDOW_SECS) as int));
        lemma_filter_keeps_newer(w, (now - WINDOW_SECS) as int);
        assert(Seq::new(1, |j: int| now) =~= seq![now]);
        assert(w + seq![now] =~= ts.take(k));
    }
}

/// Requests made to an empty window within one window's length of the
/// first: the `k`-th finds `k` entries, so it is allowed with `limit - k`
/// left while `k <= limit` and exceeded after, and an exceeded request still
/// counts. At most `limit` requests are allowed per window.
pub proof fn window_allows_at_most_limit(ts: Seq<i64>, k: int, limit: int)
    requires
        1 <= k <= ts.len(),
        0 <= limit <= i64::MAX,
        forall|i: int, j: int| 0 <= i <= j < ts.len() ==> ts[i] <= ts[j],
        forall|j: int| 0 <= j < ts.len() ==> #[trigger] ts[j] < ts[0] + WINDOW_SECS,
    ensures
        window_of(ts, k).len() == k,
        verdict_of(window_of(ts, k).len() as int, limit) == (if k <= limit {
            RateLimitResult::Allowed { remaining: (limit - k) as i64 }
        } else {
            RateLimitResult::Exceeded
        }),
{
    lemma_window_is_requests(ts, k);
}

} // verus!
