//! The sliding-log storage in Redis: one sorted set of request times, scored
//! by the time in milliseconds.
use crate::algorithm::{admits, key_prefix, key_prefix_bytes};
use crate::redis_pipeline::{
    decimal,
    lemma_decimal_injective,
    opened_client,
    open_client,
    expire_command,
    ignore_last,
    is_transaction,
    kept_replies,
    make_atomic,
    new_pipeline,
    queue_expire,
    queue_zadd,
    queue_zcard,
    queue_zrembyscore,
    queued_commands,
    zadd_command,
    zcard_command,
    zremrangebyscore_command,
    QueuedCommand,
};
use crate::time::Duration;
use vstd::prelude::*;

verus! {

/// Sliding logs kept in Redis, reached through one connection.
#[derive(Clone)]
pub struct SlidingLogRedisStorage {
    conn: redis::aio::MultiplexedConnection,
}

impl SlidingLogRedisStorage {
    /// The connection to Redis.
    pub closed spec fn connection(&self) -> redis::aio::MultiplexedConnection {
        self.conn
    }

    /// The client for the Redis server at `conn_url`, to open the storage's
    /// connection with, or the error where the URL is refused: what
    /// `redis::Client::open` gives for the URL. Nothing is opened on the
    /// network here.
    pub fn client(conn_url: &str) -> (client: Result<redis::Client, redis::RedisError>)
        ensures
            client == opened_client(conn_url@),
    {
        open_client(conn_url)
    }

    /// A storage that talks to Redis through `conn`.
    pub fn new(conn: redis::aio::MultiplexedConnection) -> (storage: Self)
        ensures
            storage.connection() == conn,
    {
        SlidingLogRedisStorage { conn }
    }

    /// The connection to Redis, to send commands through.
    pub fn connection_mut(&mut self) -> (conn: &mut redis::aio::MultiplexedConnection)
        ensures
            *conn == old(self).connection(),
            final(self).connection() == *final(conn),
    {
        &mut self.conn
    }
}

/// The key of the log: the bare key prefix.
pub open spec fn sliding_log_key() -> Seq<u8> {
    key_prefix()
}

/// The score below which, inclusive, log entries are dropped when a request
/// is logged at `now` for a window of `size`: `now` less `size`, in
/// milliseconds, as a `u64`.
pub open spec fn log_cutoff(now: Duration, size: Duration) -> nat {
    ((now.total_millis() - size.total_millis()) as u64) as nat
}

/// The score and member under which a request at `now` is logged: its time in
/// milliseconds, as a `u64`.
pub open spec fn log_stamp(now: Duration) -> nat {
    (now.total_millis() as u64) as nat
}

/// Where the time in milliseconds fits a `u64`, a request is logged under its
/// time, and the entries dropped before it are those logged at or before one
/// window earlier: what stays counted is the window that ends at the request.
pub proof fn lemma_log_keeps_last_window(now: Duration, size: Duration)
    requires
        now.total_millis() >= size.total_millis(),
        now.total_millis() <= u64::MAX,
    ensures
        log_stamp(now) == now.total_millis(),
        log_cutoff(now, size) == now.total_millis() - size.total_millis(),
        log_stamp(now) - log_cutoff(now, size) == size.total_millis(),
{
}

/// What trimming leaves of a log of request times: the times above `cutoff`,
/// in order. The log's scores are times since the epoch, so removing the
/// scores from zero to `cutoff`, as ZREMRANGEBYSCORE does, keeps exactly these.
pub open spec fn trim_log(log: Seq<nat>, cutoff: int) -> Seq<nat>
    decreases log.len(),
{
    if log.len() == 0 {
        log
    } else {
        let rest = trim_log(log.drop_last(), cutoff);
        if log.last() > cutoff {
            rest.push(log.last())
        } else {
            rest
        }
    }
}

/// The log after requests at the millisecond `times`, in order, each logged
/// as `record_sliding_log_commands` logs it for a window of `size_millis`:
/// the entries at or before the request's time less the window are dropped,
/// then the request's time is added. Expiry of the log's key is left out; it
/// drops nothing that trimming would keep when the window is a whole number of
/// seconds.
pub open spec fn log_after(times: Seq<nat>, size_millis: nat) -> Seq<nat>
    decreases times.len(),
{
    if times.len() == 0 {
        Seq::empty()
    } else {
        trim_log(log_after(times.drop_last(), size_millis), times.last() - size_millis).push(
            times.last(),
        )
    }
}

/// The count that the request at `times[k]` is told: the length of the log
/// once it is logged, as ZCARD reports it.
pub open spec fn logged_count(times: Seq<nat>, k: int, size_millis: nat) -> nat {
    log_after(times.take(k + 1), size_millis).len()
}

/// Every request comes strictly later than the one before it.
pub open spec fn strictly_increasing(times: Seq<nat>) -> bool {
    forall|i: int, j: int| 0 <= i < j < times.len() ==> times[i] < times[j]
}

/// How many of the first `n` requests are admitted and come in the window
/// from `start` (exclusive) to `start + size_millis` (inclusive).
pub open spec fn admitted_in_window(
    times: Seq<nat>,
    size_millis: nat,
    max_requests: nat,
    start: int,
    n: nat,
) -> nat
    decreases n,
{
    if n == 0 {
        0
    } else {
        let k = n - 1;
        admitted_in_window(times, size_millis, max_requests, start, (n - 1) as nat) + if admits(
            logged_count(times, k, size_millis),
            max_requests,
        ) && start < times[k] <= start + size_millis {
            1nat
        } else {
            0nat
        }
    }
}

/// Trimming at a cutoff, then at a later one, is trimming at the later one.
proof fn lemma_trim_twice(log: Seq<nat>, c1: int, c2: int)
    requires
        c1 <= c2,
    ensures
        trim_log(trim_log(log, c1), c2) == trim_log(log, c2),
    decreases log.len(),
{
    if log.len() > 0 {
        let rest = log.drop_last();
        lemma_trim_twice(rest, c1, c2);
        let t1 = trim_log(rest, c1);
        if log.last() > c1 {
            assert(t1.push(log.last()).drop_last() =~= t1);
        }
    }
}

/// A later cutoff leaves no more entries.
proof fn lemma_trim_later_leaves_fewer(log: Seq<nat>, c1: int, c2: int)
    requires
        c1 <= c2,
    ensures
        trim_log(log, c2).len() <= trim_log(log, c1).len(),
    decreases log.len(),
{
    if log.len() > 0 {
        lemma_trim_later_leaves_fewer(log.drop_last(), c1, c2);
    }
}

/// For requests that come strictly later each, the log after the last one
/// holds the earlier times above the last time less the window, then the last
/// time.
proof fn lemma_log_after_increasing(times: Seq<nat>, size_millis: nat)
    requires
        times.len() > 0,
        strictly_increasing(times),
    ensures
        log_after(times, size_millis) == trim_log(
            times.drop_last(),
            times.last() - size_millis,
        ).push(times.last()),
    decreases times.len(),
{
    let d = times.drop_last();
    let c = times.last() - size_millis;
    if d.len() > 0 {
        assert(strictly_increasing(d));
        lemma_log_after_increasing(d, size_millis);
        let dd = d.drop_last();
        let p = d.last();
        assert(p == times[times.len() - 2]);
        assert(p < times.last());
        lemma_trim_twice(dd, p - size_millis, c);
        let t = trim_log(dd, p - size_millis);
        let x = t.push(p);
        assert(x.drop_last() =~= t);
        assert(x.last() == p);
        assert(log_after(d, size_millis) == x);
        assert(trim_log(x, c) == trim_log(d, c));
    } else {
        assert(log_after(d, size_millis) =~= Seq::<nat>::empty());
        assert(trim_log(d, c) =~= Seq::<nat>::empty());
    }
    assert(log_after(times, size_millis) == trim_log(log_after(d, size_millis), c).push(times.last()));
}

/// The count that the request at `times[k]` is told is one more than the
/// number of earlier requests after its time less the window.
proof fn lemma_logged_count(times: Seq<nat>, k: int, size_millis: nat)
    requires
        0 <= k < times.len(),
        strictly_increasing(times),
    ensures
        logged_count(times, k, size_millis) == trim_log(times.take(k), times[k] - size_millis).len()
            + 1,
{
    let pre = times.take(k + 1);
    assert(strictly_increasing(pre));
    lemma_log_after_increasing(pre, size_millis);
    assert(pre.drop_last() =~= times.take(k));
    assert(pre.last() == times[k]);
}

/// Among the first `n` requests, those admitted in the window are no more than
/// those whose time is after the window's start.
proof fn lemma_admitted_in_window_below_later(
    times: Seq<nat>,
    size_millis: nat,
    max_requests: nat,
    start: int,
    n: nat,
)
    requires
        n <= times.len(),
    ensures
        admitted_in_window(times, size_millis, max_requests, start, n) <= trim_log(
            times.take(n as int),
            start,
        ).len(),
    decreases n,
{
    if n > 0 {
        lemma_admitted_in_window_below_later(times, size_millis, max_requests, start, (n - 1) as nat);
        assert(times.take(n as int).drop_last() =~= times.take(n - 1));
        assert(times.take(n as int).last() == times[n - 1]);
    }
}

/// The sliding-log law: for requests that come strictly later each and are
/// logged as `record_sliding_log_commands` logs them, any window of
/// `size_millis` (from `start`, exclusive, to `start + size_millis`,
/// inclusive) holds at most `max_requests` admitted requests, refused
/// requests being logged too.
pub proof fn lemma_sliding_log_admits_at_most_limit(
    times: Seq<nat>,
    size_millis: nat,
    max_requests: nat,
    start: int,
    n: nat,
)
    requires
        strictly_increasing(times),
        n <= times.len(),
    ensures
        admitted_in_window(times, size_millis, max_requests, start, n) <= max_requests,
    decreases n,
{
    if n > 0 {
        let k = n - 1;
        if admits(logged_count(times, k, size_millis), max_requests) && start < times[k] <= start
            + size_millis {
            lemma_admitted_in_window_below_later(
                times,
                size_millis,
                max_requests,
                start,
                (n - 1) as nat,
            );
            lemma_trim_later_leaves_fewer(times.take(k), times[k] - size_millis, start);
            lemma_logged_count(times, k, size_millis);
        } else {
            lemma_sliding_log_admits_at_most_limit(
                times,
                size_millis,
                max_requests,
                start,
                (n - 1) as nat,
            );
        }
    }
}

/// What logging a request at `now` sends, for a window of `size`: in one
/// transaction, drop the entries scored from zero to the cutoff, add the
/// request's time, count the entries, which is the one reply kept, and let
/// the log expire after the window's whole seconds.
pub open spec fn record_sliding_log_commands(now: Duration, size: Duration) -> Seq<QueuedCommand> {
    let key = sliding_log_key();
    seq![
        (zremrangebyscore_command(key, 0, log_cutoff(now, size)), true),
        (zadd_command(key, log_stamp(now), log_stamp(now)), true),
        (zcard_command(key), false),
        (expire_command(key, (size.whole_secs() as i64) as int), true),
    ]
}

/// Recording a request at `now` sends, in this order: the trim of the log
/// from score zero to `now` less the window, in milliseconds (reply
/// dropped); the request's time in milliseconds as score and member (reply
/// dropped); the count of the log (the reply); and the log's expiry after the
/// window's whole seconds (reply dropped). This holds where the times in
/// milliseconds fit a `u64` and `now` is not earlier than one window after
/// the epoch.
pub proof fn lemma_record_trims_last_window(now: Duration, size: Duration)
    requires
        now.total_millis() >= size.total_millis(),
        now.total_millis() <= u64::MAX,
    ensures
        record_sliding_log_commands(now, size).len() == 4,
        record_sliding_log_commands(now, size)[0] == (
            zremrangebyscore_command(
                key_prefix(),
                0,
                (now.total_millis() - size.total_millis()) as nat,
            ),
            true,
        ),
        record_sliding_log_commands(now, size)[1] == (
            zadd_command(key_prefix(), now.total_millis(), now.total_millis()),
            true,
        ),
        record_sliding_log_commands(now, size)[2] == (zcard_command(key_prefix()), false),
        record_sliding_log_commands(now, size)[3] == (
            expire_command(key_prefix(), (size.whole_secs() as i64) as int),
            true,
        ),
{
}

/// The upper score of the trim that recording at `now` sends: the entries
/// scored from zero to it are dropped.
pub open spec fn sent_cutoff(now: Duration, size: Duration) -> nat {
    choose|c: nat|
        record_sliding_log_commands(now, size)[0].0 == zremrangebyscore_command(
            sliding_log_key(),
            0,
            c,
        )
}

/// The score, and member, under which recording at `now` logs the request.
pub open spec fn sent_stamp(now: Duration, size: Duration) -> nat {
    choose|t: nat|
        record_sliding_log_commands(now, size)[1].0 == zadd_command(sliding_log_key(), t, t)
}

/// The times in milliseconds of the requests at `nows`.
pub open spec fn millis_of(nows: Seq<Duration>) -> Seq<nat> {
    Seq::new(nows.len(), |i: int| nows[i].total_millis())
}

/// The log after requests at `nows`, in order, each recorded by the commands
/// that `record_sliding_log_pipeline` sends for it: the entries up to the sent
/// cutoff are dropped, then the sent time is added.
pub open spec fn sent_log_after(nows: Seq<Duration>, size: Duration) -> Seq<nat>
    decreases nows.len(),
{
    if nows.len() == 0 {
        Seq::empty()
    } else {
        trim_log(sent_log_after(nows.drop_last(), size), sent_cutoff(nows.last(), size) as int).push(
            sent_stamp(nows.last(), size),
        )
    }
}

/// How many of the first `n` requests at `nows` are admitted, on the count
/// that the sent commands leave in the log, and come in the window from
/// `start` (exclusive) to `start` plus the window's milliseconds (inclusive).
pub open spec fn sent_admitted_in_window(
    nows: Seq<Duration>,
    size: Duration,
    max_requests: nat,
    start: int,
    n: nat,
) -> nat
    decreases n,
{
    if n == 0 {
        0
    } else {
        let k = n - 1;
        sent_admitted_in_window(nows, size, max_requests, start, (n - 1) as nat) + if admits(
            sent_log_after(nows.take(k + 1), size).len(),
            max_requests,
        ) && start < nows[k].total_millis() <= start + size.total_millis() {
            1nat
        } else {
            0nat
        }
    }
}

/// Every request time is at least one window after the epoch and fits a
/// `u64` in milliseconds.
pub open spec fn recordable_times(nows: Seq<Duration>, size: Duration) -> bool {
    forall|i: int|
        0 <= i < nows.len() ==> size.total_millis() <= #[trigger] nows[i].total_millis()
            <= u64::MAX
}

/// The sent cutoff is the request's time less the window, and the sent score
/// is the request's time, in milliseconds.
pub proof fn lemma_sent_cutoff_and_stamp(now: Duration, size: Duration)
    requires
        now.total_millis() >= size.total_millis(),
        now.total_millis() <= u64::MAX,
    ensures
        sent_cutoff(now, size) == now.total_millis() - size.total_millis(),
        sent_stamp(now, size) == now.total_millis(),
{
    let cmds = record_sliding_log_commands(now, size);
    let c0 = log_cutoff(now, size);
    let t0 = log_stamp(now);
    assert(cmds[0].0 == zremrangebyscore_command(sliding_log_key(), 0, c0));
    let c = sent_cutoff(now, size);
    assert(zremrangebyscore_command(sliding_log_key(), 0, c)[3] == decimal(c));
    assert(zremrangebyscore_command(sliding_log_key(), 0, c0)[3] == decimal(c0));
    lemma_decimal_injective(c, c0);
    assert(cmds[1].0 == zadd_command(sliding_log_key(), t0, t0));
    let t = sent_stamp(now, size);
    assert(zadd_command(sliding_log_key(), t, t)[2] == decimal(t));
    assert(zadd_command(sliding_log_key(), t0, t0)[2] == decimal(t0));
    lemma_decimal_injective(t, t0);
}

/// The log that the sent commands leave is the log model over the requests'
/// times in milliseconds.
proof fn lemma_sent_log_is_model(nows: Seq<Duration>, size: Duration)
    requires
        recordable_times(nows, size),
    ensures
        sent_log_after(nows, size) == log_after(millis_of(nows), size.total_millis()),
    decreases nows.len(),
{
    if nows.len() > 0 {
        let d = nows.drop_last();
        assert(recordable_times(d, size)) by {
            assert forall|i: int| 0 <= i < d.len() implies size.total_millis()
                <= #[trigger] d[i].total_millis() <= u64::MAX by {
                assert(d[i] == nows[i]);
            }
        }
        lemma_sent_log_is_model(d, size);
        assert(nows.last() == nows[nows.len() - 1]);
        lemma_sent_cutoff_and_stamp(nows.last(), size);
        assert(millis_of(nows).drop_last() =~= millis_of(d));
        assert(millis_of(nows).last() == nows.last().total_millis());
    }
}

/// Counting over the sent commands is counting over the log model.
proof fn lemma_sent_admitted_is_model(
    nows: Seq<Duration>,
    size: Duration,
    max_requests: nat,
    start: int,
    n: nat,
)
    requires
        recordable_times(nows, size),
        n <= nows.len(),
    ensures
        sent_admitted_in_window(nows, size, max_requests, start, n) == admitted_in_window(
            millis_of(nows),
            size.total_millis(),
            max_requests,
            start,
            n,
        ),
    decreases n,
{
    if n > 0 {
        let k = n - 1;
        lemma_sent_admitted_is_model(nows, size, max_requests, start, (n - 1) as nat);
        let pre = nows.take(k + 1);
        assert(recordable_times(pre, size)) by {
            assert forall|i: int| 0 <= i < pre.len() implies size.total_millis()
                <= #[trigger] pre[i].total_millis() <= u64::MAX by {
                assert(pre[i] == nows[i]);
            }
        }
        lemma_sent_log_is_model(pre, size);
        assert(millis_of(pre) =~= millis_of(nows).take(k + 1));
        assert(millis_of(nows)[k] == nows[k].total_millis());
    }
}

/// The sliding-log law, of the commands that recording sends: for requests
/// that come strictly later each (in milliseconds), each recorded by the
/// pipeline of `record_sliding_log_pipeline` and counted by the log it
/// leaves, any window of the window's length (from `start`, exclusive, to
/// `start` plus the window's milliseconds, inclusive) holds at most
/// `max_requests` admitted requests, refused requests being logged too.
pub proof fn lemma_sent_log_admits_at_most_limit(
    nows: Seq<Duration>,
    size: Duration,
    max_requests: nat,
    start: int,
)
    requires
        strictly_increasing(millis_of(nows)),
        recordable_times(nows, size),
    ensures
        sent_admitted_in_window(nows, size, max_requests, start, nows.len()) <= max_requests,
{
    lemma_sent_admitted_is_model(nows, size, max_requests, start, nows.len());
    lemma_sliding_log_admits_at_most_limit(
        millis_of(nows),
        size.total_millis(),
        max_requests,
        start,
        nows.len(),
    );
}

/// The key of the log; the key that `fetch_sliding_log` counts.
pub fn sliding_log_fetch_key() -> (key: Vec<u8>)
    ensures
        key@ == sliding_log_key(),
{
    key_prefix_bytes()
}

/// The pipeline that logs a request at `now`, for a window of `size`; the
/// pipeline that `record_sliding_log` sends, whose one kept reply is the
/// number of logged requests after this one. `now` is not earlier than `size`
/// after the epoch.
pub fn record_sliding_log_pipeline(now: Duration, size: Duration) -> (pipeline: redis::Pipeline)
    requires
        now.total_millis() >= size.total_millis(),
    ensures
        is_transaction(pipeline),
        queued_commands(pipeline) == record_sliding_log_commands(now, size),
        kept_replies(queued_commands(pipeline)) == 1,
{
    let key = sliding_log_fetch_key();
    let now_millis = now.as_millis();
    let cutoff = (now_millis - size.as_millis()) as u64;
    let stamp = now_millis as u64;
    let mut pipeline = new_pipeline();
    make_atomic(&mut pipeline);
    queue_zrembyscore(&mut pipeline, &key, 0, cutoff);
    ignore_last(&mut pipeline);
    queue_zadd(&mut pipeline, &key, stamp, stamp);
    ignore_last(&mut pipeline);
    queue_zcard(&mut pipeline, &key);
    queue_expire(&mut pipeline, &key, size.as_secs() as i64);
    ignore_last(&mut pipeline);
    proof {
        let cmds = queued_commands(pipeline);
        assert(cmds =~= record_sliding_log_commands(now, size));
        reveal_with_fuel(kept_replies, 5);
    }
    pipeline
}

} // verus!
