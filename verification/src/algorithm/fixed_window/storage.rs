//! The fixed-window storage in Redis: one counter per window, under a key
//! that names the window's start.
use crate::algorithm::{key_prefix, key_prefix_bytes};
use crate::redis_pipeline::{
    opened_client,
    open_client,
    decimal,
    decimal_bytes,
    lemma_decimal_injective,
    expire_command,
    incrby_command,
    is_transaction,
    kept_replies,
    make_atomic,
    new_pipeline,
    queue_expire,
    queue_incr,
    ignore_last,
    queued_commands,
    QueuedCommand,
};
use crate::time::Duration;
use vstd::prelude::*;

verus! {

/// Fixed-window counters kept in Redis, reached through one connection.
#[derive(Clone)]
pub struct FixedWindowRedisStorage {
    conn: redis::aio::MultiplexedConnection,
}

impl FixedWindowRedisStorage {
    /// The connection to Redis.
    pub closed spec fn connection(&self) -> redis::aio::MultiplexedConnection {
        self.conn
    }

    /// The client for the Redis server at `conn_url`, to open the storage's
    /// connection with, or the error where the URL is refused: what
    /// `redis::Client::open` gives for the URL. Nothing is opened on the
    /// network here.
    pub fn client(conn_url: &str) -> (client: Result<redis::Client, redis::RedisError>)
        ensures
            client == opened_client(conn_url@),
    {
        open_client(conn_url)
    }

    /// A storage that talks to Redis through `conn`.
    pub fn new(conn: redis::aio::MultiplexedConnection) -> (storage: Self)
        ensures
            storage.connection() == conn,
    {
        FixedWindowRedisStorage { conn }
    }

    /// The connection to Redis, to send commands through.
    pub fn connection_mut(&mut self) -> (conn: &mut redis::aio::MultiplexedConnection)
        ensures
            *conn == old(self).connection(),
            final(self).connection() == *final(conn),
    {
        &mut self.conn
    }
}

/// The start, in seconds, of the window of `size_secs` seconds that holds the
/// time `now_secs`: windows start at the multiples of their size.
pub open spec fn window_start(now_secs: nat, size_secs: nat) -> nat {
    (now_secs / size_secs) * size_secs
}

/// The key of the counter of the window that starts at `window`:
/// `key:` followed by the start in decimal.
pub open spec fn window_key(window: nat) -> Seq<u8> {
    key_prefix().push((':' as u8)) + decimal(window)
}

/// The key of the window that holds `now`, for windows of `size`.
pub open spec fn fixed_window_key(now: Duration, size: Duration) -> Seq<u8> {
    window_key(window_start(now.whole_secs() as nat, size.whole_secs() as nat))
}

/// What recording a request at `now` sends, for windows of `size`: in one
/// transaction, add one to the window's counter, whose new value is the one
/// reply kept, and let the counter expire after the window's whole seconds.
pub open spec fn record_fixed_window_commands(now: Duration, size: Duration) -> Seq<QueuedCommand> {
    let key = fixed_window_key(now, size);
    seq![
        (incrby_command(key, 1), false),
        (expire_command(key, (size.whole_secs() as i64) as int), true),
    ]
}

/// The window that holds a time starts at a multiple of the window's size,
/// not after the time, and less than one window before it.
pub proof fn lemma_window_holds_time(now_secs: nat, size_secs: nat)
    requires
        size_secs > 0,
    ensures
        window_start(now_secs, size_secs) <= now_secs,
        now_secs < window_start(now_secs, size_secs) + size_secs,
        window_start(now_secs, size_secs) % size_secs == 0,
{
    let q = now_secs / size_secs;
    assert(q * size_secs <= now_secs < q * size_secs + size_secs) by (nonlinear_arith)
        requires
            size_secs > 0,
            q == now_secs / size_secs,
    ;
    assert((q * size_secs) % size_secs == 0) by (nonlinear_arith)
        requires
            size_secs > 0,
    ;
}

/// Two windows share a counter key exactly when they start at the same time.
pub proof fn lemma_window_key_identifies_window(a: nat, b: nat)
    ensures
        window_key(a) == window_key(b) <==> a == b,
{
    let p = key_prefix().push((':' as u8));
    if window_key(a) == window_key(b) {
        assert(window_key(a).subrange(p.len() as int, window_key(a).len() as int) =~= decimal(a));
        assert(window_key(b).subrange(p.len() as int, window_key(b).len() as int) =~= decimal(b));
        lemma_decimal_injective(a, b);
    }
}

/// Two requests count against the same counter exactly when their times fall
/// in the same window.
pub proof fn lemma_same_counter_iff_same_window(t1: Duration, t2: Duration, size: Duration)
    requires
        size.whole_secs() > 0,
    ensures
        fixed_window_key(t1, size) == fixed_window_key(t2, size) <==> window_start(
            t1.whole_secs() as nat,
            size.whole_secs() as nat,
        ) == window_start(t2.whole_secs() as nat, size.whole_secs() as nat),
{
    lemma_window_key_identifies_window(
        window_start(t1.whole_secs() as nat, size.whole_secs() as nat),
        window_start(t2.whole_secs() as nat, size.whole_secs() as nat),
    );
}

/// A counter that a request records is set to expire no earlier than the end
/// of the request's window, for windows of at most `i64::MAX` seconds (a
/// larger size wraps to a negative expiry).
pub proof fn lemma_counter_outlives_window(now: Duration, size: Duration)
    requires
        size.whole_secs() > 0,
        size.whole_secs() <= i64::MAX,
    ensures
        record_fixed_window_commands(now, size)[1].0 == expire_command(
            fixed_window_key(now, size),
            size.whole_secs() as int,
        ),
        window_start(now.whole_secs() as nat, size.whole_secs() as nat) + size.whole_secs()
            <= now.whole_secs() + size.whole_secs(),
{
    lemma_window_holds_time(now.whole_secs() as nat, size.whole_secs() as nat);
}

/// The one window of `size_secs` seconds that holds `now_secs` is the one
/// starting at `window_start`: a multiple of the size not after the time and
/// less than one size before it is that start.
pub proof fn lemma_window_start_unique(now_secs: nat, size_secs: nat, w: nat)
    requires
        size_secs > 0,
        w % size_secs == 0,
        w <= now_secs < w + size_secs,
    ensures
        w == window_start(now_secs, size_secs),
{
    let q = w / size_secs;
    assert(w == q * size_secs) by (nonlinear_arith)
        requires
            size_secs > 0,
            w % size_secs == 0,
            q == w / size_secs,
    ;
    assert(now_secs / size_secs == q) by (nonlinear_arith)
        requires
            size_secs > 0,
            q * size_secs <= now_secs < q * size_secs + size_secs,
    ;
}

/// Recording a request counts it in its own window: for the window of `size`
/// that holds `now` (its start `w` a multiple of the size, with `w` not after
/// `now` and `now` before `w + size`), the transaction adds one to the counter
/// `key:w`, whose new value is the reply, and sets that same counter to expire
/// after the window's whole seconds; and `key:w` is the counter that fetching
/// at `now` reads.
pub proof fn lemma_record_counts_in_own_window(now: Duration, size: Duration, w: nat)
    requires
        size.whole_secs() > 0,
        w % (size.whole_secs() as nat) == 0,
        w <= now.whole_secs() < w + size.whole_secs(),
    ensures
        record_fixed_window_commands(now, size).len() == 2,
        record_fixed_window_commands(now, size)[0] == (
            incrby_command(key_prefix().push((':' as u8)) + decimal(w), 1),
            false,
        ),
        record_fixed_window_commands(now, size)[1] == (
            expire_command(
                key_prefix().push((':' as u8)) + decimal(w),
                (size.whole_secs() as i64) as int,
            ),
            true,
        ),
        fixed_window_key(now, size) == key_prefix().push((':' as u8)) + decimal(w),
{
    lemma_window_start_unique(now.whole_secs() as nat, size.whole_secs() as nat, w);
}

/// The start of the window of `size_secs` seconds that holds `now_secs`.
pub fn current_window(now_secs: u64, size_secs: u64) -> (start: u64)
    requires
        size_secs > 0,
    ensures
        start == window_start(now_secs as nat, size_secs as nat),
{
    assert((now_secs / size_secs) * size_secs <= now_secs) by (nonlinear_arith)
        requires
            size_secs > 0,
    ;
    now_secs / size_secs * size_secs
}

/// The key of the counter of the window that starts at `window`.
pub fn window_key_bytes(window: u64) -> (key: Vec<u8>)
    ensures
        key@ == window_key(window as nat),
{
    let mut key = key_prefix_bytes();
    key.push(':' as u8);
    let mut digits = decimal_bytes(window);
    key.append(&mut digits);
    key
}

/// The key of the window that holds `now`, for windows of `size`; the key
/// that `fetch_fixed_window` reads.
pub fn fixed_window_fetch_key(now: Duration, size: Duration) -> (key: Vec<u8>)
    requires
        size.whole_secs() > 0,
    ensures
        key@ == fixed_window_key(now, size),
{
    let window = current_window(now.as_secs(), size.as_secs());
    window_key_bytes(window)
}

/// The pipeline that records a request at `now`, for windows of `size`; the
/// pipeline that `record_fixed_window` sends, whose one kept reply is the
/// window's count after this request.
pub fn record_fixed_window_pipeline(now: Duration, size: Duration) -> (pipeline: redis::Pipeline)
    requires
        size.whole_secs() > 0,
    ensures
        is_transaction(pipeline),
        queued_commands(pipeline) == record_fixed_window_commands(now, size),
        kept_replies(queued_commands(pipeline)) == 1,
{
    let key = fixed_window_fetch_key(now, size);
    let mut pipeline = new_pipeline();
    make_atomic(&mut pipeline);
    queue_incr(&mut pipeline, &key, 1);
    queue_expire(&mut pipeline, &key, size.as_secs() as i64);
    ignore_last(&mut pipeline);
    proof {
        let cmds = queued_commands(pipeline);
        assert(cmds =~= record_fixed_window_commands(now, size));
        reveal_with_fuel(kept_replies, 3);
    }
    pipeline
}

} // verus!
