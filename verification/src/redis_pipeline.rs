//! The Redis commands that the storages send, and the pipelines that carry
//! them.
//!
//! A pipeline of the `redis` crate is opaque here; what it holds is named by
//! `queued_commands` (each queued command as its list of arguments, the
//! command's name first, each argument as the bytes written on the wire, with
//! whether its reply is dropped) and `is_transaction` (whether it is sent
//! wrapped in MULTI/EXEC). The wrappers below state what each pipeline method
//! does to those.
use vstd::prelude::*;

verus! {

/// The ASCII digit for `d`, which is below ten.
pub open spec fn ascii_digit(d: nat) -> u8 {
    (48 + d) as u8
}

/// The decimal digits of `n` in ASCII, most significant first, without
/// leading zeros (zero is the one digit `0`).
pub open spec fn decimal(n: nat) -> Seq<u8>
    decreases n,
{
    if n < 10 {
        seq![ascii_digit(n)]
    } else {
        decimal(n / 10).push(ascii_digit(n % 10))
    }
}

/// The decimal form of a signed integer: a minus sign before the digits of a
/// negative value.
pub open spec fn signed_decimal(v: int) -> Seq<u8> {
    if v < 0 {
        seq![('-' as u8)] + decimal((-v) as nat)
    } else {
        decimal(v as nat)
    }
}

/// The decimal digits of `n` in ASCII.
pub fn decimal_bytes(n: u64) -> (digits: Vec<u8>)
    ensures
        digits@ == decimal(n as nat),
    decreases n,
{
    if n < 10 {
        let mut digits: Vec<u8> = Vec::new();
        digits.push(48 + n as u8);
        digits
    } else {
        let mut digits = decimal_bytes(n / 10);
        digits.push(48 + (n % 10) as u8);
        digits
    }
}

/// Every number has at least one digit, and numbers from ten on have at
/// least two.
pub proof fn lemma_decimal_len(n: nat)
    ensures
        decimal(n).len() >= 1,
        n >= 10 ==> decimal(n).len() >= 2,
    decreases n,
{
    if n >= 10 {
        lemma_decimal_len(n / 10);
    }
}

/// Distinct numbers have distinct decimal forms.
pub proof fn lemma_decimal_injective(a: nat, b: nat)
    ensures
        decimal(a) == decimal(b) <==> a == b,
    decreases a,
{
    if decimal(a) == decimal(b) {
        lemma_decimal_len(a);
        lemma_decimal_len(b);
        if a < 10 && b < 10 {
            assert(decimal(a)[0] == decimal(b)[0]);
        } else if a >= 10 && b >= 10 {
            let da = decimal(a);
            let db = decimal(b);
            assert(da.drop_last() =~= decimal(a / 10));
            assert(db.drop_last() =~= decimal(b / 10));
            assert(da.last() == db.last());
            lemma_decimal_injective(a / 10, b / 10);
        } else {
            assert(decimal(a).len() != decimal(b).len());
        }
    }
}

/// The number that a string of ASCII decimal digits stands for, most
/// significant digit first.
pub open spec fn digits_value(digits: Seq<u8>) -> nat
    decreases digits.len(),
{
    if digits.len() == 0 {
        0
    } else {
        digits_value(digits.drop_last()) * 10 + (digits.last() - 48) as nat
    }
}

/// The decimal form of a number is made of ASCII digits, starts with a
/// non-zero digit unless the number is zero, and reads back as the number.
pub proof fn lemma_decimal_reads_back(n: nat)
    ensures
        forall|i: int| 0 <= i < decimal(n).len() ==> 48 <= #[trigger] decimal(n)[i] <= 57,
        n > 0 ==> decimal(n)[0] != 48,
        digits_value(decimal(n)) == n,
    decreases n,
{
    if n >= 10 {
        lemma_decimal_reads_back(n / 10);
        lemma_decimal_len(n / 10);
        let d = decimal(n);
        assert(d.drop_last() =~= decimal(n / 10));
        assert forall|i: int| 0 <= i < d.len() implies 48 <= #[trigger] d[i] <= 57 by {
            if i < d.len() - 1 {
                assert(d[i] == decimal(n / 10)[i]);
            }
        }
        assert(d[0] == decimal(n / 10)[0]);
        assert(ascii_digit(n % 10) == 48 + n % 10);
        assert(d.last() == ascii_digit(n % 10));
        assert((n / 10) * 10 + n % 10 == n);
    } else {
        assert(ascii_digit(n) == 48 + n);
        assert(decimal(n).drop_last() =~= Seq::<u8>::empty());
        assert(digits_value(Seq::<u8>::empty()) == 0);
    }
}

/// A queued command: its arguments, the command's name first, and whether its
/// reply is dropped from the pipeline's result.
pub type QueuedCommand = (Seq<Seq<u8>>, bool);

/// The name of the INCRBY command.
pub open spec fn incrby_name() -> Seq<u8> {
    seq![('I' as u8), ('N' as u8), ('C' as u8), ('R' as u8), ('B' as u8), ('Y' as u8)]
}

/// The name of the EXPIRE command.
pub open spec fn expire_name() -> Seq<u8> {
    seq![('E' as u8), ('X' as u8), ('P' as u8), ('I' as u8), ('R' as u8), ('E' as u8)]
}

/// The name of the ZREMRANGEBYSCORE command.
pub open spec fn zremrangebyscore_name() -> Seq<u8> {
    seq![
        ('Z' as u8),
        ('R' as u8),
        ('E' as u8),
        ('M' as u8),
        ('R' as u8),
        ('A' as u8),
        ('N' as u8),
        ('G' as u8),
        ('E' as u8),
        ('B' as u8),
        ('Y' as u8),
        ('S' as u8),
        ('C' as u8),
        ('O' as u8),
        ('R' as u8),
        ('E' as u8),
    ]
}

/// The name of the ZADD command.
pub open spec fn zadd_name() -> Seq<u8> {
    seq![('Z' as u8), ('A' as u8), ('D' as u8), ('D' as u8)]
}

/// The name of the ZCARD command.
pub open spec fn zcard_name() -> Seq<u8> {
    seq![('Z' as u8), ('C' as u8), ('A' as u8), ('R' as u8), ('D' as u8)]
}

/// `INCRBY key delta`: adds `delta` to the integer stored at `key`.
pub open spec fn incrby_command(key: Seq<u8>, delta: int) -> Seq<Seq<u8>> {
    seq![incrby_name(), key, signed_decimal(delta)]
}

/// `EXPIRE key seconds`: lets `key` expire after `seconds`.
pub open spec fn expire_command(key: Seq<u8>, seconds: int) -> Seq<Seq<u8>> {
    seq![expire_name(), key, signed_decimal(seconds)]
}

/// `ZREMRANGEBYSCORE key min max`: removes the members of the sorted set at
/// `key` whose score lies in `min..=max`.
pub open spec fn zremrangebyscore_command(key: Seq<u8>, min: nat, max: nat) -> Seq<Seq<u8>> {
    seq![zremrangebyscore_name(), key, decimal(min), decimal(max)]
}

/// `ZADD key score member`: adds `member` with `score` to the sorted set at
/// `key`.
pub open spec fn zadd_command(key: Seq<u8>, score: nat, member: nat) -> Seq<Seq<u8>> {
    seq![zadd_name(), key, decimal(score), decimal(member)]
}

/// `ZCARD key`: the number of members of the sorted set at `key`.
pub open spec fn zcard_command(key: Seq<u8>) -> Seq<Seq<u8>> {
    seq![zcard_name(), key]
}

/// The number of queued commands whose reply is kept in the result.
pub open spec fn kept_replies(cmds: Seq<QueuedCommand>) -> nat
    decreases cmds.len(),
{
    if cmds.len() == 0 {
        0
    } else {
        kept_replies(cmds.drop_last()) + if cmds.last().1 {
            0nat
        } else {
            1nat
        }
    }
}

#[verifier::external_type_specification]
#[verifier::external_body]
pub struct ExPipeline(redis::Pipeline);

#[verifier::external_type_specification]
#[verifier::external_body]
pub struct ExMultiplexedConnection(redis::aio::MultiplexedConnection);

#[verifier::external_type_specification]
#[verifier::external_body]
pub struct ExClient(redis::Client);

#[verifier::external_type_specification]
#[verifier::external_body]
pub struct ExRedisError(redis::RedisError);

/// What `redis::Client::open` gives for a connection URL: a client holding
/// the connection details that the URL describes, or an error where the URL
/// does not parse as a URL with a Redis scheme or describes no server. It
/// depends on the URL alone.
pub uninterp spec fn opened_client(url: Seq<char>) -> Result<redis::Client, redis::RedisError>;

/// `redis::Client::open` on a URL: the client for the server that the URL
/// names, or the error where the URL is refused, both as named by
/// `opened_client`. Nothing is opened on the network.
#[verifier::external_body]
pub(crate) fn open_client(conn_url: &str) -> (client: Result<redis::Client, redis::RedisError>)
    ensures
        client == opened_client(conn_url@),
{
    redis::Client::open(conn_url)
}

/// `MultiplexedConnection::clone`: another handle to the same connection;
/// nothing is stated of it.
pub assume_specification[ <redis::aio::MultiplexedConnection as Clone>::clone ](
    conn: &redis::aio::MultiplexedConnection,
) -> redis::aio::MultiplexedConnection;

/// The commands queued in a pipeline, in order, each with whether its reply
/// is dropped.
pub uninterp spec fn queued_commands(p: redis::Pipeline) -> Seq<QueuedCommand>;

/// Whether the pipeline is sent as one transaction, wrapped in MULTI and EXEC.
pub uninterp spec fn is_transaction(p: redis::Pipeline) -> bool;

/// `redis::pipe`: a new pipeline holds no command and is not a transaction.
#[verifier::external_body]
pub(crate) fn new_pipeline() -> (p: redis::Pipeline)
    ensures
        queued_commands(p) == Seq::<QueuedCommand>::empty(),
        !is_transaction(p),
{
    redis::pipe()
}

/// `Pipeline::atomic`: marks the pipeline as a transaction and leaves its
/// commands as they are.
#[verifier::external_body]
pub(crate) fn make_atomic(p: &mut redis::Pipeline)
    ensures
        queued_commands(*final(p)) == queued_commands(*old(p)),
        is_transaction(*final(p)),
{
    p.atomic();
}

/// `Pipeline::ignore`: drops the reply of the last queued command; on an
/// empty pipeline it does nothing.
#[verifier::external_body]
pub(crate) fn ignore_last(p: &mut redis::Pipeline)
    ensures
        is_transaction(*final(p)) == is_transaction(*old(p)),
        queued_commands(*old(p)).len() == 0 ==> queued_commands(*final(p)) == queued_commands(
            *old(p),
        ),
        queued_commands(*old(p)).len() > 0 ==> queued_commands(*final(p)) == queued_commands(
            *old(p),
        ).update(
            queued_commands(*old(p)).len() - 1,
            (queued_commands(*old(p)).last().0, true),
        ),
{
    p.ignore();
}

/// `Pipeline::incr` with an integer delta: queues `INCRBY key delta`, its
/// reply kept.
#[verifier::external_body]
pub(crate) fn queue_incr(p: &mut redis::Pipeline, key: &Vec<u8>, delta: i64)
    ensures
        is_transaction(*final(p)) == is_transaction(*old(p)),
        queued_commands(*final(p)) == queued_commands(*old(p)).push(
            (incrby_command(key@, delta as int), false),
        ),
{
    p.incr(key, delta);
}

/// `Pipeline::expire`: queues `EXPIRE key seconds`, its reply kept.
#[verifier::external_body]
pub(crate) fn queue_expire(p: &mut redis::Pipeline, key: &Vec<u8>, seconds: i64)
    ensures
        is_transaction(*final(p)) == is_transaction(*old(p)),
        queued_commands(*final(p)) == queued_commands(*old(p)).push(
            (expire_command(key@, seconds as int), false),
        ),
{
    p.expire(key, seconds);
}

/// `Pipeline::zrembyscore` with integer bounds: queues
/// `ZREMRANGEBYSCORE key min max`, its reply kept.
#[verifier::external_body]
pub(crate) fn queue_zrembyscore(p: &mut redis::Pipeline, key: &Vec<u8>, min: u64, max: u64)
    ensures
        is_transaction(*final(p)) == is_transaction(*old(p)),
        queued_commands(*final(p)) == queued_commands(*old(p)).push(
            (zremrangebyscore_command(key@, min as nat, max as nat), false),
        ),
{
    p.zrembyscore(key, min, max);
}

/// `Pipeline::zadd` with an integer member and score: queues
/// `ZADD key score member`, its reply kept.
#[verifier::external_body]
pub(crate) fn queue_zadd(p: &mut redis::Pipeline, key: &Vec<u8>, member: u64, score: u64)
    ensures
        is_transaction(*final(p)) == is_transaction(*old(p)),
        queued_commands(*final(p)) == queued_commands(*old(p)).push(
            (zadd_command(key@, score as nat, member as nat), false),
        ),
{
    p.zadd(key, member, score);
}

/// `Pipeline::zcard`: queues `ZCARD key`, its reply kept.
#[verifier::external_body]
pub(crate) fn queue_zcard(p: &mut redis::Pipeline, key: &Vec<u8>)
    ensures
        is_transaction(*final(p)) == is_transaction(*old(p)),
        queued_commands(*final(p)) == queued_commands(*old(p)).push((zcard_command(key@), false)),
{
    p.zcard(key);
}

} // verus!
