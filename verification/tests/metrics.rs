use std::sync::atomic::Ordering;
use std::time::Duration;
use voidweb::metrics::{low_u64, prometheus_text_of, Counters, MetricsSnapshot};

#[test]
fn counters_start_at_zero() {
    let c = Counters::new();
    assert_eq!(c.requests_total.load(Ordering::Relaxed), 0);
    assert_eq!(c.ttft_count.load(Ordering::Relaxed), 0);
    assert_eq!(c.cache_blocks_total.load(Ordering::Relaxed), 0);
}

#[test]
fn recording_latencies_adds_microseconds() {
    let c = Counters::new();
    c.record_ttft(Duration::from_micros(1500));
    c.record_ttft(Duration::from_millis(2));
    assert_eq!(c.ttft_sum_us.load(Ordering::Relaxed), 3500);
    assert_eq!(c.ttft_count.load(Ordering::Relaxed), 2);
    c.record_itl(Duration::from_nanos(2999));
    assert_eq!(c.itl_sum_us.load(Ordering::Relaxed), 2);
    assert_eq!(c.itl_count.load(Ordering::Relaxed), 1);
}

#[test]
fn low_bits() {
    assert_eq!(low_u64(5), 5);
    assert_eq!(low_u64((1u128 << 64) + 7), 7);
    assert_eq!(low_u64(u128::MAX), u64::MAX);
}

#[test]
fn prometheus_page() {
    let s = MetricsSnapshot {
        requests_total: 12,
        requests_active: 3,
        tokens_generated: 4567,
        ttft_ms: "1.500".to_string(),
        itl_ms: "0.250".to_string(),
        cache_hit_rate: "0.7500".to_string(),
        cache_blocks_used: 0,
    };
    let want = format!(
        "# HELP oracle_requests_total Total inference requests received\n# TYPE oracle_requests_total counter\noracle_requests_total {}\n\n# HELP oracle_requests_active Requests currently being processed\n# TYPE oracle_requests_active gauge\noracle_requests_active {}\n\n# HELP oracle_tokens_generated_total Total tokens generated\n# TYPE oracle_tokens_generated_total counter\noracle_tokens_generated_total {}\n\n# HELP oracle_ttft_ms_mean Mean time-to-first-token in milliseconds\n# TYPE oracle_ttft_ms_mean gauge\noracle_ttft_ms_mean {}\n\n# HELP oracle_itl_ms_mean Mean inter-token latency in milliseconds\n# TYPE oracle_itl_ms_mean gauge\noracle_itl_ms_mean {}\n\n# HELP oracle_cache_hit_rate Radix KV-cache prefix hit rate (0.0\u{2013}1.0)\n# TYPE oracle_cache_hit_rate gauge\noracle_cache_hit_rate {}\n\n# HELP oracle_cache_blocks_used KV-cache blocks currently in use\n# TYPE oracle_cache_blocks_used gauge\noracle_cache_blocks_used {}\n",
        12, 3, 4567, "1.500", "0.250", "0.7500", 0
    );
    assert_eq!(prometheus_text_of(&s), want);
}
