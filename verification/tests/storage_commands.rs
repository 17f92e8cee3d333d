use tower_rate_limiter_redis::algorithm::fixed_window::storage::{
    current_window, fixed_window_fetch_key, record_fixed_window_pipeline, window_key_bytes,
    FixedWindowRedisStorage,
};
use tower_rate_limiter_redis::algorithm::key_prefix_bytes;
use tower_rate_limiter_redis::algorithm::sliding_log::storage::{
    record_sliding_log_pipeline, sliding_log_fetch_key, SlidingLogRedisStorage,
};
use tower_rate_limiter_redis::redis_pipeline::decimal_bytes;
use tower_rate_limiter_redis::time::Duration;

fn commands(pipeline: &redis::Pipeline) -> Vec<Vec<Vec<u8>>> {
    pipeline
        .cmd_iter()
        .map(|cmd| {
            cmd.args_iter()
                .map(|arg| match arg {
                    redis::Arg::Simple(bytes) => bytes.to_vec(),
                    redis::Arg::Cursor => panic!("unexpected cursor argument"),
                })
                .collect()
        })
        .collect()
}

fn args(words: &[&str]) -> Vec<Vec<u8>> {
    words.iter().map(|w| w.as_bytes().to_vec()).collect()
}

#[test]
fn decimal_digits_of_numbers() {
    assert_eq!(decimal_bytes(0), b"0".to_vec());
    assert_eq!(decimal_bytes(7), b"7".to_vec());
    assert_eq!(decimal_bytes(10), b"10".to_vec());
    assert_eq!(decimal_bytes(1234567), b"1234567".to_vec());
    assert_eq!(decimal_bytes(u64::MAX), b"18446744073709551615".to_vec());
}

#[test]
fn key_prefix_is_key() {
    assert_eq!(key_prefix_bytes(), b"key".to_vec());
}

#[test]
fn window_starts_at_multiple_of_size() {
    assert_eq!(current_window(125, 60), 120);
    assert_eq!(current_window(120, 60), 120);
    assert_eq!(current_window(119, 60), 60);
    assert_eq!(current_window(59, 60), 0);
    assert_eq!(current_window(1_700_000_007, 10), 1_700_000_000);
    assert_eq!(current_window(u64::MAX, 1), u64::MAX);
}

#[test]
fn window_holds_its_time() {
    for now in 0u64..200 {
        for size in 1u64..30 {
            let start = current_window(now, size);
            assert!(start <= now && now < start + size && start % size == 0);
        }
    }
}

#[test]
fn window_key_names_window_start() {
    assert_eq!(window_key_bytes(120), b"key:120".to_vec());
    assert_eq!(window_key_bytes(0), b"key:0".to_vec());
}

#[test]
fn same_window_same_counter_key() {
    let size = Duration::from_secs(10);
    let a = fixed_window_fetch_key(Duration::new(1_700_000_003, 5), size);
    let b = fixed_window_fetch_key(Duration::from_secs(1_700_000_009), size);
    let c = fixed_window_fetch_key(Duration::from_secs(1_700_000_010), size);
    assert_eq!(a, b"key:1700000000".to_vec());
    assert_eq!(a, b);
    assert_ne!(a, c);
    assert_eq!(c, b"key:1700000010".to_vec());
}

#[test]
fn fixed_window_record_pipeline_commands() {
    let pipeline = record_fixed_window_pipeline(Duration::from_secs(125), Duration::from_secs(60));
    assert_eq!(
        commands(&pipeline),
        vec![args(&["INCRBY", "key:120", "1"]), args(&["EXPIRE", "key:120", "60"])]
    );
    let packed = pipeline.get_packed_pipeline();
    assert!(packed.starts_with(b"*1\r\n$5\r\nMULTI\r\n"));
    assert!(packed.ends_with(b"*1\r\n$4\r\nEXEC\r\n"));
}

#[test]
fn fixed_window_expiry_wraps_like_a_signed_cast() {
    let pipeline = record_fixed_window_pipeline(Duration::from_secs(5), Duration::from_secs(u64::MAX));
    assert_eq!(
        commands(&pipeline),
        vec![args(&["INCRBY", "key:0", "1"]), args(&["EXPIRE", "key:0", "-1"])]
    );
}

#[test]
fn sliding_log_key_is_prefix() {
    assert_eq!(sliding_log_fetch_key(), b"key".to_vec());
}

#[test]
fn sliding_log_record_pipeline_commands() {
    let now = Duration::new(1_700_000_000, 123_456_789);
    let size = Duration::new(5, 0);
    let pipeline = record_sliding_log_pipeline(now, size);
    assert_eq!(
        commands(&pipeline),
        vec![
            args(&["ZREMRANGEBYSCORE", "key", "0", "1699999995123"]),
            args(&["ZADD", "key", "1700000000123", "1700000000123"]),
            args(&["ZCARD", "key"]),
            args(&["EXPIRE", "key", "5"]),
        ]
    );
    let packed = pipeline.get_packed_pipeline();
    assert!(packed.starts_with(b"*1\r\n$5\r\nMULTI\r\n"));
}

#[test]
fn sliding_log_window_of_whole_past() {
    let now = Duration::new(2, 500_000_000);
    let pipeline = record_sliding_log_pipeline(now, now);
    assert_eq!(
        commands(&pipeline),
        vec![
            args(&["ZREMRANGEBYSCORE", "key", "0", "0"]),
            args(&["ZADD", "key", "2500", "2500"]),
            args(&["ZCARD", "key"]),
            args(&["EXPIRE", "key", "2"]),
        ]
    );
}

#[test]
fn redis_urls_are_checked() {
    assert!(FixedWindowRedisStorage::client("redis://127.0.0.1:6379/").is_ok());
    assert!(SlidingLogRedisStorage::client("redis://127.0.0.1:6379/").is_ok());
    assert!(FixedWindowRedisStorage::client("http://127.0.0.1/").is_err());
    assert!(SlidingLogRedisStorage::client("not a url").is_err());
}

#[test]
fn client_is_for_the_url_server() {
    let client = FixedWindowRedisStorage::client("redis://10.9.8.7:6380/3").unwrap();
    let info = client.get_connection_info();
    assert_eq!(info.addr, redis::ConnectionAddr::Tcp("10.9.8.7".to_string(), 6380));
    assert_eq!(info.redis.db, 3);
    let client = SlidingLogRedisStorage::client("redis://127.0.0.1:6379/").unwrap();
    let info = client.get_connection_info();
    assert_eq!(info.addr, redis::ConnectionAddr::Tcp("127.0.0.1".to_string(), 6379));
    assert_eq!(info.redis.db, 0);
}
