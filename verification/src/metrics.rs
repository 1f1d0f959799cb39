//! Serving metrics: shared atomic counters and their Prometheus text.

use vstd::prelude::*;
use std::sync::atomic::{AtomicU64, AtomicUsize, Ordering};
use std::time::Duration;
use crate::text::decimal;

verus! {

/// Counters shared by the serving threads. Each is a std atomic; adding
/// wraps around on overflow.
pub struct Counters {
    pub requests_total: AtomicU64,
    pub requests_active: AtomicUsize,
    pub requests_queued: AtomicUsize,
    pub tokens_generated: AtomicU64,
    pub tokens_prefill: AtomicU64,
    /// Sum of time-to-first-token measurements, in microseconds.
    pub ttft_sum_us: AtomicU64,
    pub ttft_count: AtomicU64,
    /// Sum of inter-token latency measurements, in microseconds.
    pub itl_sum_us: AtomicU64,
    pub itl_count: AtomicU64,
    pub cache_hits: AtomicU64,
    pub cache_misses: AtomicU64,
    pub cache_blocks_used: AtomicUsize,
    pub cache_blocks_total: AtomicUsize,
}

/// `Duration::as_micros`: the whole microseconds of `d`. `Duration` is
/// opaque here, so nothing is stated of the value.
#[verifier::external_body]
fn duration_micros(d: &Duration) -> u128 {
    d.as_micros()
}

/// The low 64 bits of `x`, as `x as u64` keeps them.
pub fn low_u64(x: u128) -> (r: u64)
    ensures
        r == x % 0x1_0000_0000_0000_0000,
{
    let r = x as u64;
    assert(r == x % 0x1_0000_0000_0000_0000) by (bit_vector)
        requires
            r == x as u64,
    ;
    r
}

impl Counters {
    /// All counters at zero.
    pub fn new() -> (r: Self) {
        Counters {
            requests_total: AtomicU64::new(0),
            requests_active: AtomicUsize::new(0),
            requests_queued: AtomicUsize::new(0),
            tokens_generated: AtomicU64::new(0),
            tokens_prefill: AtomicU64::new(0),
            ttft_sum_us: AtomicU64::new(0),
            ttft_count: AtomicU64::new(0),
            itl_sum_us: AtomicU64::new(0),
            itl_count: AtomicU64::new(0),
            cache_hits: AtomicU64::new(0),
            cache_misses: AtomicU64::new(0),
            cache_blocks_used: AtomicUsize::new(0),
            cache_blocks_total: AtomicUsize::new(0),
        }
    }

    /// Add a time-to-first-token measurement: its microseconds (the low 64
    /// bits) to the sum, one to the count.
    pub fn record_ttft(&self, dur: Duration) {
        let us = low_u64(duration_micros(&dur));
        self.ttft_sum_us.fetch_add(us, Ordering::Relaxed);
        self.ttft_count.fetch_add(1, Ordering::Relaxed);
    }

    /// Add an inter-token latency measurement: its microseconds (the low 64
    /// bits) to the sum, one to the count.
    pub fn record_itl(&self, dur: Duration) {
        let us = low_u64(duration_micros(&dur));
        self.itl_sum_us.fetch_add(us, Ordering::Relaxed);
        self.itl_count.fetch_add(1, Ordering::Relaxed);
    }
}

/// The values the Prometheus page shows; the means and the hit rate come
/// already formatted.
pub struct MetricsSnapshot {
    pub requests_total: u64,
    pub requests_active: u64,
    pub tokens_generated: u64,
    /// Mean time to first token in milliseconds, three decimals.
    pub ttft_ms: String,
    /// Mean inter-token latency in milliseconds, three decimals.
    pub itl_ms: String,
    /// Cache hit rate, four decimals.
    pub cache_hit_rate: String,
    pub cache_blocks_used: u64,
}

/// The Prometheus text exposition of a snapshot.
pub open spec fn prometheus_page(s: MetricsSnapshot) -> Seq<char> {
    "# HELP oracle_requests_total Total inference requests received\n# TYPE oracle_requests_total counter\noracle_requests_total "@
        + decimal(s.requests_total as nat)
        + "\n\n# HELP oracle_requests_active Requests currently being processed\n# TYPE oracle_requests_active gauge\noracle_requests_active "@
        + decimal(s.requests_active as nat)
        + "\n\n# HELP oracle_tokens_generated_total Total tokens generated\n# TYPE oracle_tokens_generated_total counter\noracle_tokens_generated_total "@
        + decimal(s.tokens_generated as nat)
        + "\n\n# HELP oracle_ttft_ms_mean Mean time-to-first-token in milliseconds\n# TYPE oracle_ttft_ms_mean gauge\noracle_ttft_ms_mean "@
        + s.ttft_ms@
        + "\n\n# HELP oracle_itl_ms_mean Mean inter-token latency in milliseconds\n# TYPE oracle_itl_ms_mean gauge\noracle_itl_ms_mean "@
        + s.itl_ms@
        + "\n\n# HELP oracle_cache_hit_rate Radix KV-cache prefix hit rate (0.0\u{2013}1.0)\n# TYPE oracle_cache_hit_rate gauge\noracle_cache_hit_rate "@
        + s.cache_hit_rate@
        + "\n\n# HELP oracle_cache_blocks_used KV-cache blocks currently in use\n# TYPE oracle_cache_blocks_used gauge\noracle_cache_blocks_used "@
        + decimal(s.cache_blocks_used as nat) + "\n"@
}

/// `line` occurs in `page`.
pub open spec fn shows(page: Seq<char>, line: Seq<char>) -> bool {
    exists|p: int| 0 <= p && p + line.len() <= page.len() && #[trigger] page.subrange(p, p + line.len()) == line
}

proof fn lemma_prefix_extend(x: Seq<char>, y: Seq<char>, z: Seq<char>)
    requires
        y.len() >= x.len(),
        y.take(x.len() as int) == x,
    ensures
        (y + z).len() >= x.len(),
        (y + z).take(x.len() as int) == x,
{
    assert((y + z).take(x.len() as int) =~= y.take(x.len() as int));
}

proof fn lemma_suffix_extend(n: Seq<char>, y: Seq<char>, l: Seq<char>)
    requires
        l.len() >= n.len(),
        l.skip(l.len() - n.len()) == n,
    ensures
        (y + l).len() >= n.len(),
        (y + l).skip((y + l).len() - n.len()) == n,
{
    assert((y + l).skip((y + l).len() - n.len()) =~= l.skip(l.len() - n.len()));
}

proof fn lemma_needle(page: Seq<char>, b: Seq<char>, c: Seq<char>, d: Seq<char>, n: Seq<char>)
    requires
        b.len() >= n.len(),
        b.skip(b.len() - n.len()) == n,
        d.len() >= 1,
        d[0] == '\n',
        page.len() >= ((b + c) + d).len(),
        page.take(((b + c) + d).len() as int) == (b + c) + d,
    ensures
        shows(page, n + c + "\n"@),
{
    reveal_strlit("\n");
    let line = n + c + "\n"@;
    let p = b.len() - n.len();
    assert forall|j: int| 0 <= j < line.len() implies #[trigger] page.subrange(p, p + line.len())[j] == line[j] by {
        assert(page[p + j] == page.take(((b + c) + d).len() as int)[p + j]);
        if j < n.len() {
            assert(b.skip(b.len() - n.len())[j] == b[p + j]);
        }
    }
    assert(page.subrange(p, p + line.len()) =~= line);
}

proof fn lemma_metric_literal_0()
    ensures
        "# HELP oracle_requests_total Total inference requests received\n# TYPE oracle_requests_total counter\noracle_requests_total "@.len() >= "\noracle_requests_total "@.len(),
        "# HELP oracle_requests_total Total inference requests received\n# TYPE oracle_requests_total counter\noracle_requests_total "@.skip("# HELP oracle_requests_total Total inference requests received\n# TYPE oracle_requests_total counter\noracle_requests_total "@.len() - "\noracle_requests_total "@.len()) == "\noracle_requests_total "@,
{
    reveal_strlit("# HELP oracle_requests_total Total inference requests received\n# TYPE oracle_requests_total counter\noracle_requests_total ");
    reveal_strlit("\noracle_requests_total ");
    assert("# HELP oracle_requests_total Total inference requests received\n# TYPE oracle_requests_total counter\noracle_requests_total "@.skip("# HELP oracle_requests_total Total inference requests received\n# TYPE oracle_requests_total counter\noracle_requests_total "@.len() - "\noracle_requests_total "@.len()) =~= "\noracle_requests_total "@);
}

proof fn lemma_metric_literal_1()
    ensures
        "\n\n# HELP oracle_requests_active Requests currently being processed\n# TYPE oracle_requests_active gauge\noracle_requests_active "@.len() >= "\noracle_requests_active "@.len(),
        "\n\n# HELP oracle_requests_active Requests currently being processed\n# TYPE oracle_requests_active gauge\noracle_requests_active "@.skip("\n\n# HELP oracle_requests_active Requests currently being processed\n# TYPE oracle_requests_active gauge\noracle_requests_active "@.len() - "\noracle_requests_active "@.len()) == "\noracle_requests_active "@,
        "\n\n# HELP oracle_requests_active Requests currently being processed\n# TYPE oracle_requests_active gauge\noracle_requests_active "@.len() >= 1,
        "\n\n# HELP oracle_requests_active Requests currently being processed\n# TYPE oracle_requests_active gauge\noracle_requests_active "@[0] == '\n',
{
    reveal_strlit("\n\n# HELP oracle_requests_active Requests currently being processed\n# TYPE oracle_requests_active gauge\noracle_requests_active ");
    reveal_strlit("\noracle_requests_active ");
    assert("\n\n# HELP oracle_requests_active Requests currently being processed\n# TYPE oracle_requests_active gauge\noracle_requests_active "@.skip("\n\n# HELP oracle_requests_active Requests currently being processed\n# TYPE oracle_requests_active gauge\noracle_requests_active "@.len() - "\noracle_requests_active "@.len()) =~= "\noracle_requests_active "@);
}

proof fn lemma_metric_literal_2()
    ensures
        "\n\n# HELP oracle_tokens_generated_total Total tokens generated\n# TYPE oracle_tokens_generated_total counter\noracle_tokens_generated_total "@.len() >= "\noracle_tokens_generated_total "@.len(),
        "\n\n# HELP oracle_tokens_generated_total Total tokens generated\n# TYPE oracle_tokens_generated_total counter\noracle_tokens_generated_total "@.skip("\n\n# HELP oracle_tokens_generated_total Total tokens generated\n# TYPE oracle_tokens_generated_total counter\noracle_tokens_generated_total "@.len() - "\noracle_tokens_generated_total "@.len()) == "\noracle_tokens_generated_total "@,
        "\n\n# HELP oracle_tokens_generated_total Total tokens generated\n# TYPE oracle_tokens_generated_total counter\noracle_tokens_generated_total "@.len() >= 1,
        "\n\n# HELP oracle_tokens_generated_total Total tokens generated\n# TYPE oracle_tokens_generated_total counter\noracle_tokens_generated_total "@[0] == '\n',
{
    reveal_strlit("\n\n# HELP oracle_tokens_generated_total Total tokens generated\n# TYPE oracle_tokens_generated_total counter\noracle_tokens_generated_total ");
    reveal_strlit("\noracle_tokens_generated_total ");
    assert("\n\n# HELP oracle_tokens_generated_total Total tokens generated\n# TYPE oracle_tokens_generated_total counter\noracle_tokens_generated_total "@.skip("\n\n# HELP oracle_tokens_generated_total Total tokens generated\n# TYPE oracle_tokens_generated_total counter\noracle_tokens_generated_total "@.len() - "\noracle_tokens_generated_total "@.len()) =~= "\noracle_tokens_generated_total "@);
}

proof fn lemma_metric_literal_3()
    ensures
        "\n\n# HELP oracle_ttft_ms_mean Mean time-to-first-token in milliseconds\n# TYPE oracle_ttft_ms_mean gauge\noracle_ttft_ms_mean "@.len() >= "\noracle_ttft_ms_mean "@.len(),
        "\n\n# HELP oracle_ttft_ms_mean Mean time-to-first-token in milliseconds\n# TYPE oracle_ttft_ms_mean gauge\noracle_ttft_ms_mean "@.skip("\n\n# HELP oracle_ttft_ms_mean Mean time-to-first-token in milliseconds\n# TYPE oracle_ttft_ms_mean gauge\noracle_ttft_ms_mean "@.len() - "\noracle_ttft_ms_mean "@.len()) == "\noracle_ttft_ms_mean "@,
        "\n\n# HELP oracle_ttft_ms_mean Mean time-to-first-token in milliseconds\n# TYPE oracle_ttft_ms_mean gauge\noracle_ttft_ms_mean "@.len() >= 1,
        "\n\n# HELP oracle_ttft_ms_mean Mean time-to-first-token in milliseconds\n# TYPE oracle_ttft_ms_mean gauge\noracle_ttft_ms_mean "@[0] == '\n',
{
    reveal_strlit("\n\n# HELP oracle_ttft_ms_mean Mean time-to-first-token in milliseconds\n# TYPE oracle_ttft_ms_mean gauge\noracle_ttft_ms_mean ");
    reveal_strlit("\noracle_ttft_ms_mean ");
    assert("\n\n# HELP oracle_ttft_ms_mean Mean time-to-first-token in milliseconds\n# TYPE oracle_ttft_ms_mean gauge\noracle_ttft_ms_mean "@.skip("\n\n# HELP oracle_ttft_ms_mean Mean time-to-first-token in milliseconds\n# TYPE oracle_ttft_ms_mean gauge\noracle_ttft_ms_mean "@.len() - "\noracle_ttft_ms_mean "@.len()) =~= "\noracle_ttft_ms_mean "@);
}

proof fn lemma_metric_literal_4()
    ensures
        "\n\n# HELP oracle_itl_ms_mean Mean inter-token latency in milliseconds\n# TYPE oracle_itl_ms_mean gauge\noracle_itl_ms_mean "@.len() >= "\noracle_itl_ms_mean "@.len(),
        "\n\n# HELP oracle_itl_ms_mean Mean inter-token latency in milliseconds\n# TYPE oracle_itl_ms_mean gauge\noracle_itl_ms_mean "@.skip("\n\n# HELP oracle_itl_ms_mean Mean inter-token latency in milliseconds\n# TYPE oracle_itl_ms_mean gauge\noracle_itl_ms_mean "@.len() - "\noracle_itl_ms_mean "@.len()) == "\noracle_itl_ms_mean "@,
        "\n\n# HELP oracle_itl_ms_mean Mean inter-token latency in milliseconds\n# TYPE oracle_itl_ms_mean gauge\noracle_itl_ms_mean "@.len() >= 1,
        "\n\n# HELP oracle_itl_ms_mean Mean inter-token latency in milliseconds\n# TYPE oracle_itl_ms_mean gauge\noracle_itl_ms_mean "@[0] == '\n',
{
    reveal_strlit("\n\n# HELP oracle_itl_ms_mean Mean inter-token latency in milliseconds\n# TYPE oracle_itl_ms_mean gauge\noracle_itl_ms_mean ");
    reveal_strlit("\noracle_itl_ms_mean ");
    assert("\n\n# HELP oracle_itl_ms_mean Mean inter-token latency in milliseconds\n# TYPE oracle_itl_ms_mean gauge\noracle_itl_ms_mean "@.skip("\n\n# HELP oracle_itl_ms_mean Mean inter-token latency in milliseconds\n# TYPE oracle_itl_ms_mean gauge\noracle_itl_ms_mean "@.len() - "\noracle_itl_ms_mean "@.len()) =~= "\noracle_itl_ms_mean "@);
}

proof fn lemma_metric_literal_5()
    ensures
        "\n\n# HELP oracle_cache_hit_rate Radix KV-cache prefix hit rate (0.0\u{2013}1.0)\n# TYPE oracle_cache_hit_rate gauge\noracle_cache_hit_rate "@.len() >= "\noracle_cache_hit_rate "@.len(),
        "\n\n# HELP oracle_cache_hit_rate Radix KV-cache prefix hit rate (0.0\u{2013}1.0)\n# TYPE oracle_cache_hit_rate gauge\noracle_cache_hit_rate "@.skip("\n\n# HELP oracle_cache_hit_rate Radix KV-cache prefix hit rate (0.0\u{2013}1.0)\n# TYPE oracle_cache_hit_rate gauge\noracle_cache_hit_rate "@.len() - "\noracle_cache_hit_rate "@.len()) == "\noracle_cache_hit_rate "@,
        "\n\n# HELP oracle_cache_hit_rate Radix KV-cache prefix hit rate (0.0\u{2013}1.0)\n# TYPE oracle_cache_hit_rate gauge\noracle_cache_hit_rate "@.len() >= 1,
        "\n\n# HELP oracle_cache_hit_rate Radix KV-cache prefix hit rate (0.0\u{2013}1.0)\n# TYPE oracle_cache_hit_rate gauge\noracle_cache_hit_rate "@[0] == '\n',
{
    reveal_strlit("\n\n# HELP oracle_cache_hit_rate Radix KV-cache prefix hit rate (0.0\u{2013}1.0)\n# TYPE oracle_cache_hit_rate gauge\noracle_cache_hit_rate ");
    reveal_strlit("\noracle_cache_hit_rate ");
    assert("\n\n# HELP oracle_cache_hit_rate Radix KV-cache prefix hit rate (0.0\u{2013}1.0)\n# TYPE oracle_cache_hit_rate gauge\noracle_cache_hit_rate "@.skip("\n\n# HELP oracle_cache_hit_rate Radix KV-cache prefix hit rate (0.0\u{2013}1.0)\n# TYPE oracle_cache_hit_rate gauge\noracle_cache_hit_rate "@.len() - "\noracle_cache_hit_rate "@.len()) =~= "\noracle_cache_hit_rate "@);
}

proof fn lemma_metric_literal_6()
    ensures
        "\n\n# HELP oracle_cache_blocks_used KV-cache blocks currently in use\n# TYPE oracle_cache_blocks_used gauge\noracle_cache_blocks_used "@.len() >= "\noracle_cache_blocks_used "@.len(),
        "\n\n# HELP oracle_cache_blocks_used KV-cache blocks currently in use\n# TYPE oracle_cache_blocks_used gauge\noracle_cache_blocks_used "@.skip("\n\n# HELP oracle_cache_blocks_used KV-cache blocks currently in use\n# TYPE oracle_cache_blocks_used gauge\noracle_cache_blocks_used "@.len() - "\noracle_cache_blocks_used "@.len()) == "\noracle_cache_blocks_used "@,
        "\n\n# HELP oracle_cache_blocks_used KV-cache blocks currently in use\n# TYPE oracle_cache_blocks_used gauge\noracle_cache_blocks_used "@.len() >= 1,
        "\n\n# HELP oracle_cache_blocks_used KV-cache blocks currently in use\n# TYPE oracle_cache_blocks_used gauge\noracle_cache_blocks_used "@[0] == '\n',
{
    reveal_strlit("\n\n# HELP oracle_cache_blocks_used KV-cache blocks currently in use\n# TYPE oracle_cache_blocks_used gauge\noracle_cache_blocks_used ");
    reveal_strlit("\noracle_cache_blocks_used ");
    assert("\n\n# HELP oracle_cache_blocks_used KV-cache blocks currently in use\n# TYPE oracle_cache_blocks_used gauge\noracle_cache_blocks_used "@.skip("\n\n# HELP oracle_cache_blocks_used KV-cache blocks currently in use\n# TYPE oracle_cache_blocks_used gauge\noracle_cache_blocks_used "@.len() - "\noracle_cache_blocks_used "@.len()) =~= "\noracle_cache_blocks_used "@);
}

proof fn lemma_metric_literal_7()
    ensures
        "\n"@.len() >= 1,
        "\n"@[0] == '\n',
{
    reveal_strlit("\n");
}

/// Every metric line of the page carries its snapshot value exactly: the
/// metric's name, a space, the value (the counters as decimals, the means
/// and the hit rate as given) and a line break, on a line of its own; the
/// page ends with the blocks-in-use line.
pub proof fn page_shows_every_value(s: MetricsSnapshot)
    ensures
        shows(prometheus_page(s), "\noracle_requests_total "@ + decimal(s.requests_total as nat) + "\n"@),
        shows(prometheus_page(s), "\noracle_requests_active "@ + decimal(s.requests_active as nat) + "\n"@),
        shows(prometheus_page(s), "\noracle_tokens_generated_total "@ + decimal(s.tokens_generated as nat) + "\n"@),
        shows(prometheus_page(s), "\noracle_ttft_ms_mean "@ + s.ttft_ms@ + "\n"@),
        shows(prometheus_page(s), "\noracle_itl_ms_mean "@ + s.itl_ms@ + "\n"@),
        shows(prometheus_page(s), "\noracle_cache_hit_rate "@ + s.cache_hit_rate@ + "\n"@),
        shows(prometheus_page(s), "\noracle_cache_blocks_used "@ + decimal(s.cache_blocks_used as nat) + "\n"@),
        prometheus_page(s).len() >= ("\noracle_cache_blocks_used "@ + decimal(s.cache_blocks_used as nat) + "\n"@).len(),
        prometheus_page(s).skip(prometheus_page(s).len() - ("\noracle_cache_blocks_used "@ + decimal(s.cache_blocks_used as nat) + "\n"@).len()) == "\noracle_cache_blocks_used "@ + decimal(s.cache_blocks_used as nat) + "\n"@,
{
    lemma_metric_literal_0();
    lemma_metric_literal_1();
    lemma_metric_literal_2();
    lemma_metric_literal_3();
    lemma_metric_literal_4();
    lemma_metric_literal_5();
    lemma_metric_literal_6();
    lemma_metric_literal_7();
    assert(shows(prometheus_page(s), "\noracle_requests_total "@ + decimal(s.requests_total as nat) + "\n"@)) by {
        assert((("# HELP oracle_requests_total Total inference requests received\n# TYPE oracle_requests_total counter\noracle_requests_total "@ + decimal(s.requests_total as nat)) + "\n\n# HELP oracle_requests_active Requests currently being processed\n# TYPE oracle_requests_active gauge\noracle_requests_active "@).take((("# HELP oracle_requests_total Total inference requests received\n# TYPE oracle_requests_total counter\noracle_requests_total "@ + decimal(s.requests_total as nat)) + "\n\n# HELP oracle_requests_active Requests currently being processed\n# TYPE oracle_requests_active gauge\noracle_requests_active "@).len() as int) =~= (("# HELP oracle_requests_total Total inference requests received\n# TYPE oracle_requests_total counter\noracle_requests_total "@ + decimal(s.requests_total as nat)) + "\n\n# HELP oracle_requests_active Requests currently being processed\n# TYPE oracle_requests_active gauge\noracle_requests_active "@));
        lemma_prefix_extend((("# HELP oracle_requests_total Total inference requests received\n# TYPE oracle_requests_total counter\noracle_requests_total "@ + decimal(s.requests_total as nat)) + "\n\n# HELP oracle_requests_active Requests currently being processed\n# TYPE oracle_requests_active gauge\noracle_requests_active "@), (("# HELP oracle_requests_total Total inference requests received\n# TYPE oracle_requests_total counter\noracle_requests_total "@ + decimal(s.requests_total as nat)) + "\n\n# HELP oracle_requests_active Requests currently being processed\n# TYPE oracle_requests_active gauge\noracle_requests_active "@), decimal(s.requests_active as nat));
        lemma_prefix_extend((("# HELP oracle_requests_total Total inference requests received\n# TYPE oracle_requests_total counter\noracle_requests_total "@ + decimal(s.requests_total as nat)) + "\n\n# HELP oracle_requests_active Requests currently being processed\n# TYPE oracle_requests_active gauge\noracle_requests_active "@), ((("# HELP oracle_requests_total Total inference requests received\n# TYPE oracle_requests_total counter\noracle_requests_total "@ + decimal(s.requests_total as nat)) + "\n\n# HELP oracle_requests_active Requests currently being processed\n# TYPE oracle_requests_active gauge\noracle_requests_active "@) + decimal(s.requests_active as nat)), "\n\n# HELP oracle_tokens_generated_total Total tokens generated\n# TYPE oracle_tokens_generated_total counter\noracle_tokens_generated_total "@);
        lemma_prefix_extend((("# HELP oracle_requests_total Total inference requests received\n# TYPE oracle_requests_total counter\noracle_requests_total "@ + decimal(s.requests_total as nat)) + "\n\n# HELP oracle_requests_active Requests currently being processed\n# TYPE oracle_requests_active gauge\noracle_requests_active "@), (((("# HELP oracle_requests_total Total inference requests received\n# TYPE oracle_requests_total counter\noracle_requests_total "@ + decimal(s.requests_total as nat)) + "\n\n# HELP oracle_requests_active Requests currently being processed\n# TYPE oracle_requests_active gauge\noracle_requests_active "@) + decimal(s.requests_active as nat)) + "\n\n# HELP oracle_tokens_generated_total Total tokens generated\n# TYPE oracle_tokens_generated_total counter\noracle_tokens_generated_total "@), decimal(s.tokens_generated as nat));
        lemma_prefix_extend((("# HELP oracle_requests_total Total inference requests received\n# TYPE oracle_requests_total counter\noracle_requests_total "@ + decimal(s.requests_total as nat)) + "\n\n# HELP oracle_requests_active Requests currently being processed\n# TYPE oracle_requests_active gauge\noracle_requests_active "@), ((((("# HELP oracle_requests_total Total inference requests received\n# TYPE oracle_requests_total counter\noracle_requests_total "@ + decimal(s.requests_total as nat)) + "\n\n# HELP oracle_requests_active Requests currently being processed\n# TYPE oracle_requests_active gauge\noracle_requests_active "@) + decimal(s.requests_active as nat)) + "\n\n# HELP oracle_tokens_generated_total Total tokens generated\n# TYPE oracle_tokens_generated_total counter\noracle_tokens_generated_total "@) + decimal(s.tokens_generated as nat)), "\n\n# HELP oracle_ttft_ms_mean Mean time-to-first-token in milliseconds\n# TYPE oracle_ttft_ms_mean gauge\noracle_ttft_ms_mean "@);
        lemma_prefix_extend((("# HELP oracle_requests_total Total inference requests received\n# TYPE oracle_requests_total counter\noracle_requests_total "@ + decimal(s.requests_total as nat)) + "\n\n# HELP oracle_requests_active Requests currently being processed\n# TYPE oracle_requests_active gauge\noracle_requests_active "@), (((((("# HELP oracle_requests_total Total inference requests received\n# TYPE oracle_requests_total counter\noracle_requests_total "@ + decimal(s.requests_total as nat)) + "\n\n# HELP oracle_requests_active Requests currently being processed\n# TYPE oracle_requests_active gauge\noracle_requests_active "@) + decimal(s.requests_active as nat)) + "\n\n# HELP oracle_tokens_generated_total Total tokens generated\n# TYPE oracle_tokens_generated_total counter\noracle_tokens_generated_total "@) + decimal(s.tokens_generated as nat)) + "\n\n# HELP oracle_ttft_ms_mean Mean time-to-first-token in milliseconds\n# TYPE oracle_ttft_ms_mean gauge\noracle_ttft_ms_mean "@), s.ttft_ms@);
        lemma_prefix_extend((("# HELP oracle_requests_total Total inference requests received\n# TYPE oracle_requests_total counter\noracle_requests_total "@ + decimal(s.requests_total as nat)) + "\n\n# HELP oracle_requests_active Requests currently being processed\n# TYPE oracle_requests_active gauge\noracle_requests_active "@), ((((((("# HELP oracle_requests_total Total inference requests received\n# TYPE oracle_requests_total counter\noracle_requests_total "@ + decimal(s.requests_total as nat)) + "\n\n# HELP oracle_requests_active Requests currently being processed\n# TYPE oracle_requests_active gauge\noracle_requests_active "@) + decimal(s.requests_active as nat)) + "\n\n# HELP oracle_tokens_generated_total Total tokens generated\n# TYPE oracle_tokens_generated_total counter\noracle_tokens_generated_total "@) + decimal(s.tokens_generated as nat)) + "\n\n# HELP oracle_ttft_ms_mean Mean time-to-first-token in milliseconds\n# TYPE oracle_ttft_ms_mean gauge\noracle_ttft_ms_mean "@) + s.ttft_ms@), "\n\n# HELP oracle_itl_ms_mean Mean inter-token latency in milliseconds\n# TYPE oracle_itl_ms_mean gauge\noracle_itl_ms_mean "@);
        lemma_prefix_extend((("# HELP oracle_requests_total Total inference requests received\n# TYPE oracle_requests_total counter\noracle_requests_total "@ + decimal(s.requests_total as nat)) + "\n\n# HELP oracle_requests_active Requests currently being processed\n# TYPE oracle_requests_active gauge\noracle_requests_active "@), (((((((("# HELP oracle_requests_total Total inference requests received\n# TYPE oracle_requests_total counter\noracle_requests_total "@ + decimal(s.requests_total as nat)) + "\n\n# HELP oracle_requests_active Requests currently being processed\n# TYPE oracle_requests_active gauge\noracle_requests_active "@) + decimal(s.requests_active as nat)) + "\n\n# HELP oracle_tokens_generated_total Total tokens generated\n# TYPE oracle_tokens_generated_total counter\noracle_tokens_generated_total "@) + decimal(s.tokens_generated as nat)) + "\n\n# HELP oracle_ttft_ms_mean Mean time-to-first-token in milliseconds\n# TYPE oracle_ttft_ms_mean gauge\noracle_ttft_ms_mean "@) + s.ttft_ms@) + "\n\n# HELP oracle_itl_ms_mean Mean inter-token latency in milliseconds\n# TYPE oracle_itl_ms_mean gauge\noracle_itl_ms_mean "@), s.itl_ms@);
        lemma_prefix_extend((("# HELP oracle_requests_total Total inference requests received\n# TYPE oracle_requests_total counter\noracle_requests_total "@ + decimal(s.requests_total as nat)) + "\n\n# HELP oracle_requests_active Requests currently being processed\n# TYPE oracle_requests_active gauge\noracle_requests_active "@), ((((((((("# HELP oracle_requests_total Total inference requests received\n# TYPE oracle_requests_total counter\noracle_requests_total "@ + decimal(s.requests_total as nat)) + "\n\n# HELP oracle_requests_active Requests currently being processed\n# TYPE oracle_requests_active gauge\noracle_requests_active "@) + decimal(s.requests_active as nat)) + "\n\n# HELP oracle_tokens_generated_total Total tokens generated\n# TYPE oracle_tokens_generated_total counter\noracle_tokens_generated_total "@) + decimal(s.tokens_generated as nat)) + "\n\n# HELP oracle_ttft_ms_mean Mean time-to-first-token in milliseconds\n# TYPE oracle_ttft_ms_mean gauge\noracle_ttft_ms_mean "@) + s.ttft_ms@) + "\n\n# HELP oracle_itl_ms_mean Mean inter-token latency in milliseconds\n# TYPE oracle_itl_ms_mean gauge\noracle_itl_ms_mean "@) + s.itl_ms@), "\n\n# HELP oracle_cache_hit_rate Radix KV-cache prefix hit rate (0.0\u{2013}1.0)\n# TYPE oracle_cache_hit_rate gauge\noracle_cache_hit_rate "@);
        lemma_prefix_extend((("# HELP oracle_requests_total Total inference requests received\n# TYPE oracle_requests_total counter\noracle_requests_total "@ + decimal(s.requests_total as nat)) + "\n\n# HELP oracle_requests_active Requests currently being processed\n# TYPE oracle_requests_active gauge\noracle_requests_active "@), (((((((((("# HELP oracle_requests_total Total inference requests received\n# TYPE oracle_requests_total counter\noracle_requests_total "@ + decimal(s.requests_total as nat)) + "\n\n# HELP oracle_requests_active Requests currently being processed\n# TYPE oracle_requests_active gauge\noracle_requests_active "@) + decimal(s.requests_active as nat)) + "\n\n# HELP oracle_tokens_generated_total Total tokens generated\n# TYPE oracle_tokens_generated_total counter\noracle_tokens_generated_total "@) + decimal(s.tokens_generated as nat)) + "\n\n# HELP oracle_ttft_ms_mean Mean time-to-first-token in milliseconds\n# TYPE oracle_ttft_ms_mean gauge\noracle_ttft_ms_mean "@) + s.ttft_ms@) + "\n\n# HELP oracle_itl_ms_mean Mean inter-token latency in milliseconds\n# TYPE oracle_itl_ms_mean gauge\noracle_itl_ms_mean "@) + s.itl_ms@) + "\n\n# HELP oracle_cache_hit_rate Radix KV-cache prefix hit rate (0.0\u{2013}1.0)\n# TYPE oracle_cache_hit_rate gauge\noracle_cache_hit_rate "@), s.cache_hit_rate@);
        lemma_prefix_extend((("# HELP oracle_requests_total Total inference requests received\n# TYPE oracle_requests_total counter\noracle_requests_total "@ + decimal(s.requests_total as nat)) + "\n\n# HELP oracle_requests_active Requests currently being processed\n# TYPE oracle_requests_active gauge\noracle_requests_active "@), ((((((((((("# HELP oracle_requests_total Total inference requests received\n# TYPE oracle_requests_total counter\noracle_requests_total "@ + decimal(s.requests_total as nat)) + "\n\n# HELP oracle_requests_active Requests currently being processed\n# TYPE oracle_requests_active gauge\noracle_requests_active "@) + decimal(s.requests_active as nat)) + "\n\n# HELP oracle_tokens_generated_total Total tokens generated\n# TYPE oracle_tokens_generated_total counter\noracle_tokens_generated_total "@) + decimal(s.tokens_generated as nat)) + "\n\n# HELP oracle_ttft_ms_mean Mean time-to-first-token in milliseconds\n# TYPE oracle_ttft_ms_mean gauge\noracle_ttft_ms_mean "@) + s.ttft_ms@) + "\n\n# HELP oracle_itl_ms_mean Mean inter-token latency in milliseconds\n# TYPE oracle_itl_ms_mean gauge\noracle_itl_ms_mean "@) + s.itl_ms@) + "\n\n# HELP oracle_cache_hit_rate Radix KV-cache prefix hit rate (0.0\u{2013}1.0)\n# TYPE oracle_cache_hit_rate gauge\noracle_cache_hit_rate "@) + s.cache_hit_rate@), "\n\n# HELP oracle_cache_blocks_used KV-cache blocks currently in use\n# TYPE oracle_cache_blocks_used gauge\noracle_cache_blocks_used "@);
        lemma_prefix_extend((("# HELP oracle_requests_total Total inference requests received\n# TYPE oracle_requests_total counter\noracle_requests_total "@ + decimal(s.requests_total as nat)) + "\n\n# HELP oracle_requests_active Requests currently being processed\n# TYPE oracle_requests_active gauge\noracle_requests_active "@), (((((((((((("# HELP oracle_requests_total Total inference requests received\n# TYPE oracle_requests_total counter\noracle_requests_total "@ + decimal(s.requests_total as nat)) + "\n\n# HELP oracle_requests_active Requests currently being processed\n# TYPE oracle_requests_active gauge\noracle_requests_active "@) + decimal(s.requests_active as nat)) + "\n\n# HELP oracle_tokens_generated_total Total tokens generated\n# TYPE oracle_tokens_generated_total counter\noracle_tokens_generated_total "@) + decimal(s.tokens_generated as nat)) + "\n\n# HELP oracle_ttft_ms_mean Mean time-to-first-token in milliseconds\n# TYPE oracle_ttft_ms_mean gauge\noracle_ttft_ms_mean "@) + s.ttft_ms@) + "\n\n# HELP oracle_itl_ms_mean Mean inter-token latency in milliseconds\n# TYPE oracle_itl_ms_mean gauge\noracle_itl_ms_mean "@) + s.itl_ms@) + "\n\n# HELP oracle_cache_hit_rate Radix KV-cache prefix hit rate (0.0\u{2013}1.0)\n# TYPE oracle_cache_hit_rate gauge\noracle_cache_hit_rate "@) + s.cache_hit_rate@) + "\n\n# HELP oracle_cache_blocks_used KV-cache blocks currently in use\n# TYPE oracle_cache_blocks_used gauge\noracle_cache_blocks_used "@), decimal(s.cache_blocks_used as nat));
        lemma_prefix_extend((("# HELP oracle_requests_total Total inference requests received\n# TYPE oracle_requests_total counter\noracle_requests_total "@ + decimal(s.requests_total as nat)) + "\n\n# HELP oracle_requests_active Requests currently being processed\n# TYPE oracle_requests_active gauge\noracle_requests_active "@), ((((((((((((("# HELP oracle_requests_total Total inference requests received\n# TYPE oracle_requests_total counter\noracle_requests_total "@ + decimal(s.requests_total as nat)) + "\n\n# HELP oracle_requests_active Requests currently being processed\n# TYPE oracle_requests_active gauge\noracle_requests_active "@) + decimal(s.requests_active as nat)) + "\n\n# HELP oracle_tokens_generated_total Total tokens generated\n# TYPE oracle_tokens_generated_total counter\noracle_tokens_generated_total "@) + decimal(s.tokens_generated as nat)) + "\n\n# HELP oracle_ttft_ms_mean Mean time-to-first-token in milliseconds\n# TYPE oracle_ttft_ms_mean gauge\noracle_ttft_ms_mean "@) + s.ttft_ms@) + "\n\n# HELP oracle_itl_ms_mean Mean inter-token latency in milliseconds\n# TYPE oracle_itl_ms_mean gauge\noracle_itl_ms_mean "@) + s.itl_ms@) + "\n\n# HELP oracle_cache_hit_rate Radix KV-cache prefix hit rate (0.0\u{2013}1.0)\n# TYPE oracle_cache_hit_rate gauge\noracle_cache_hit_rate "@) + s.cache_hit_rate@) + "\n\n# HELP oracle_cache_blocks_used KV-cache blocks currently in use\n# TYPE oracle_cache_blocks_used gauge\noracle_cache_blocks_used "@) + decimal(s.cache_blocks_used as nat)), "\n"@);
        lemma_needle(prometheus_page(s), "# HELP oracle_requests_total Total inference requests received\n# TYPE oracle_requests_total counter\noracle_requests_total "@, decimal(s.requests_total as nat), "\n\n# HELP oracle_requests_active Requests currently being processed\n# TYPE oracle_requests_active gauge\noracle_requests_active "@, "\noracle_requests_total "@);
    }
    assert(shows(prometheus_page(s), "\noracle_requests_active "@ + decimal(s.requests_active as nat) + "\n"@)) by {
        lemma_suffix_extend("\noracle_requests_active "@, ("# HELP oracle_requests_total Total inference requests received\n# TYPE oracle_requests_total counter\noracle_requests_total "@ + decimal(s.requests_total as nat)), "\n\n# HELP oracle_requests_active Requests currently being processed\n# TYPE oracle_requests_active gauge\noracle_requests_active "@);
        assert((((("# HELP oracle_requests_total Total inference requests received\n# TYPE oracle_requests_total counter\noracle_requests_total "@ + decimal(s.requests_total as nat)) + "\n\n# HELP oracle_requests_active Requests currently being processed\n# TYPE oracle_requests_active gauge\noracle_requests_active "@) + decimal(s.requests_active as nat)) + "\n\n# HELP oracle_tokens_generated_total Total tokens generated\n# TYPE oracle_tokens_generated_total counter\noracle_tokens_generated_total "@).take((((("# HELP oracle_requests_total Total inference requests received\n# TYPE oracle_requests_total counter\noracle_requests_total "@ + decimal(s.requests_total as nat)) + "\n\n# HELP oracle_requests_active Requests currently being processed\n# TYPE oracle_requests_active gauge\noracle_requests_active "@) + decimal(s.requests_active as nat)) + "\n\n# HELP oracle_tokens_generated_total Total tokens generated\n# TYPE oracle_tokens_generated_total counter\noracle_tokens_generated_total "@).len() as int) =~= (((("# HELP oracle_requests_total Total inference requests received\n# TYPE oracle_requests_total counter\noracle_requests_total "@ + decimal(s.requests_total as nat)) + "\n\n# HELP oracle_requests_active Requests currently being processed\n# TYPE oracle_requests_active gauge\noracle_requests_active "@) + decimal(s.requests_active as nat)) + "\n\n# HELP oracle_tokens_generated_total Total tokens generated\n# TYPE oracle_tokens_generated_total counter\noracle_tokens_generated_total "@));
        lemma_prefix_extend((((("# HELP oracle_requests_total Total inference requests received\n# TYPE oracle_requests_total counter\noracle_requests_total "@ + decimal(s.requests_total as nat)) + "\n\n# HELP oracle_requests_active Requests currently being processed\n# TYPE oracle_requests_active gauge\noracle_requests_active "@) + decimal(s.requests_active as nat)) + "\n\n# HELP oracle_tokens_generated_total Total tokens generated\n# TYPE oracle_tokens_generated_total counter\noracle_tokens_generated_total "@), (((("# HELP oracle_requests_total Total inference requests received\n# TYPE oracle_requests_total counter\noracle_requests_total "@ + decimal(s.requests_total as nat)) + "\n\n# HELP oracle_requests_active Requests currently being processed\n# TYPE oracle_requests_active gauge\noracle_requests_active "@) + decimal(s.requests_active as nat)) + "\n\n# HELP oracle_tokens_generated_total Total tokens generated\n# TYPE oracle_tokens_generated_total counter\noracle_tokens_generated_total "@), decimal(s.tokens_generated as nat));
        lemma_prefix_extend((((("# HELP oracle_requests_total Total inference requests received\n# TYPE oracle_requests_total counter\noracle_requests_total "@ + decimal(s.requests_total as nat)) + "\n\n# HELP oracle_requests_active Requests currently being processed\n# TYPE oracle_requests_active gauge\noracle_requests_active "@) + decimal(s.requests_active as nat)) + "\n\n# HELP oracle_tokens_generated_total Total tokens generated\n# TYPE oracle_tokens_generated_total counter\noracle_tokens_generated_total "@), ((((("# HELP oracle_requests_total Total inference requests received\n# TYPE oracle_requests_total counter\noracle_requests_total "@ + decimal(s.requests_total as nat)) + "\n\n# HELP oracle_requests_active Requests currently being processed\n# TYPE oracle_requests_active gauge\noracle_requests_active "@) + decimal(s.requests_active as nat)) + "\n\n# HELP oracle_tokens_generated_total Total tokens generated\n# TYPE oracle_tokens_generated_total counter\noracle_tokens_generated_total "@) + decimal(s.tokens_generated as nat)), "\n\n# HELP oracle_ttft_ms_mean Mean time-to-first-token in milliseconds\n# TYPE oracle_ttft_ms_mean gauge\noracle_ttft_ms_mean "@);
        lemma_prefix_extend((((("# HELP oracle_requests_total Total inference requests received\n# TYPE oracle_requests_total counter\noracle_requests_total "@ + decimal(s.requests_total as nat)) + "\n\n# HELP oracle_requests_active Requests currently being processed\n# TYPE oracle_requests_active gauge\noracle_requests_active "@) + decimal(s.requests_active as nat)) + "\n\n# HELP oracle_tokens_generated_total Total tokens generated\n# TYPE oracle_tokens_generated_total counter\noracle_tokens_generated_total "@), (((((("# HELP oracle_requests_total Total inference requests received\n# TYPE oracle_requests_total counter\noracle_requests_total "@ + decimal(s.requests_total as nat)) + "\n\n# HELP oracle_requests_active Requests currently being processed\n# TYPE oracle_requests_active gauge\noracle_requests_active "@) + decimal(s.requests_active as nat)) + "\n\n# HELP oracle_tokens_generated_total Total tokens generated\n# TYPE oracle_tokens_generated_total counter\noracle_tokens_generated_total "@) + decimal(s.tokens_generated as nat)) + "\n\n# HELP oracle_ttft_ms_mean Mean time-to-first-token in milliseconds\n# TYPE oracle_ttft_ms_mean gauge\noracle_ttft_ms_mean "@), s.ttft_ms@);
        lemma_prefix_extend((((("# HELP oracle_requests_total Total inference requests received\n# TYPE oracle_requests_total counter\noracle_requests_total "@ + decimal(s.requests_total as nat)) + "\n\n# HELP oracle_requests_active Requests currently being processed\n# TYPE oracle_requests_active gauge\noracle_requests_active "@) + decimal(s.requests_active as nat)) + "\n\n# HELP oracle_tokens_generated_total Total tokens generated\n# TYPE oracle_tokens_generated_total counter\noracle_tokens_generated_total "@), ((((((("# HELP oracle_requests_total Total inference requests received\n# TYPE oracle_requests_total counter\noracle_requests_total "@ + decimal(s.requests_total as nat)) + "\n\n# HELP oracle_requests_active Requests currently being processed\n# TYPE oracle_requests_active gauge\noracle_requests_active "@) + decimal(s.requests_active as nat)) + "\n\n# HELP oracle_tokens_generated_total Total tokens generated\n# TYPE oracle_tokens_generated_total counter\noracle_tokens_generated_total "@) + decimal(s.tokens_generated as nat)) + "\n\n# HELP oracle_ttft_ms_mean Mean time-to-first-token in milliseconds\n# TYPE oracle_ttft_ms_mean gauge\noracle_ttft_ms_mean "@) + s.ttft_ms@), "\n\n# HELP oracle_itl_ms_mean Mean inter-token latency in milliseconds\n# TYPE oracle_itl_ms_mean gauge\noracle_itl_ms_mean "@);
        lemma_prefix_extend((((("# HELP oracle_requests_total Total inference requests received\n# TYPE oracle_requests_total counter\noracle_requests_total "@ + decimal(s.requests_total as nat)) + "\n\n# HELP oracle_requests_active Requests currently being processed\n# TYPE oracle_requests_active gauge\noracle_requests_active "@) + decimal(s.requests_active as nat)) + "\n\n# HELP oracle_tokens_generated_total Total tokens generated\n# TYPE oracle_tokens_generated_total counter\noracle_tokens_generated_total "@), (((((((("# HELP oracle_requests_total Total inference requests received\n# TYPE oracle_requests_total counter\noracle_requests_total "@ + decimal(s.requests_total as nat)) + "\n\n# HELP oracle_requests_active Requests currently being processed\n# TYPE oracle_requests_active gauge\noracle_requests_active "@) + decimal(s.requests_active as nat)) + "\n\n# HELP oracle_tokens_generated_total Total tokens generated\n# TYPE oracle_tokens_generated_total counter\noracle_tokens_generated_total "@) + decimal(s.tokens_generated as nat)) + "\n\n# HELP oracle_ttft_ms_mean Mean time-to-first-token in milliseconds\n# TYPE oracle_ttft_ms_mean gauge\noracle_ttft_ms_mean "@) + s.ttft_ms@) + "\n\n# HELP oracle_itl_ms_mean Mean inter-token latency in milliseconds\n# TYPE oracle_itl_ms_mean gauge\noracle_itl_ms_mean "@), s.itl_ms@);
        lemma_prefix_extend((((("# HELP oracle_requests_total Total inference requests received\n# TYPE oracle_requests_total counter\noracle_requests_total "@ + decimal(s.requests_total as nat)) + "\n\n# HELP oracle_requests_active Requests currently being processed\n# TYPE oracle_requests_active gauge\noracle_requests_active "@) + decimal(s.requests_active as nat)) + "\n\n# HELP oracle_tokens_generated_total Total tokens generated\n# TYPE oracle_tokens_generated_total counter\noracle_tokens_generated_total "@), ((((((((("# HELP oracle_requests_total Total inference requests received\n# TYPE oracle_requests_total counter\noracle_requests_total "@ + decimal(s.requests_total as nat)) + "\n\n# HELP oracle_requests_active Requests currently being processed\n# TYPE oracle_requests_active gauge\noracle_requests_active "@) + decimal(s.requests_active as nat)) + "\n\n# HELP oracle_tokens_generated_total Total tokens generated\n# TYPE oracle_tokens_generated_total counter\noracle_tokens_generated_total "@) + decimal(s.tokens_generated as nat)) + "\n\n# HELP oracle_ttft_ms_mean Mean time-to-first-token in milliseconds\n# TYPE oracle_ttft_ms_mean gauge\noracle_ttft_ms_mean "@) + s.ttft_ms@) + "\n\n# HELP oracle_itl_ms_mean Mean inter-token latency in milliseconds\n# TYPE oracle_itl_ms_mean gauge\noracle_itl_ms_mean "@) + s.itl_ms@), "\n\n# HELP oracle_cache_hit_rate Radix KV-cache prefix hit rate (0.0\u{2013}1.0)\n# TYPE oracle_cache_hit_rate gauge\noracle_cache_hit_rate "@);
        lemma_prefix_extend((((("# HELP oracle_requests_total Total inference requests received\n# TYPE oracle_requests_total counter\noracle_requests_total "@ + decimal(s.requests_total as nat)) + "\n\n# HELP oracle_requests_active Requests currently being processed\n# TYPE oracle_requests_active gauge\noracle_requests_active "@) + decimal(s.requests_active as nat)) + "\n\n# HELP oracle_tokens_generated_total Total tokens generated\n# TYPE oracle_tokens_generated_total counter\noracle_tokens_generated_total "@), (((((((((("# HELP oracle_requests_total Total inference requests received\n# TYPE oracle_requests_total counter\noracle_requests_total "@ + decimal(s.requests_total as nat)) + "\n\n# HELP oracle_requests_active Requests currently being processed\n# TYPE oracle_requests_active gauge\noracle_requests_active "@) + decimal(s.requests_active as nat)) + "\n\n# HELP oracle_tokens_generated_total Total tokens generated\n# TYPE oracle_tokens_generated_total counter\noracle_tokens_generated_total "@) + decimal(s.tokens_generated as nat)) + "\n\n# HELP oracle_ttft_ms_mean Mean time-to-first-token in milliseconds\n# TYPE oracle_ttft_ms_mean gauge\noracle_ttft_ms_mean "@) + s.ttft_ms@) + "\n\n# HELP oracle_itl_ms_mean Mean inter-token latency in milliseconds\n# TYPE oracle_itl_ms_mean gauge\noracle_itl_ms_mean "@) + s.itl_ms@) + "\n\n# HELP oracle_cache_hit_rate Radix KV-cache prefix hit rate (0.0\u{2013}1.0)\n# TYPE oracle_cache_hit_rate gauge\noracle_cache_hit_rate "@), s.cache_hit_rate@);
        lemma_prefix_extend((((("# HELP oracle_requests_total Total inference requests received\n# TYPE oracle_requests_total counter\noracle_requests_total "@ + decimal(s.requests_total as nat)) + "\n\n# HELP oracle_requests_active Requests currently being processed\n# TYPE oracle_requests_active gauge\noracle_requests_active "@) + decimal(s.requests_active as nat)) + "\n\n# HELP oracle_tokens_generated_total Total tokens generated\n# TYPE oracle_tokens_generated_total counter\noracle_tokens_generated_total "@), ((((((((((("# HELP oracle_requests_total Total inference requests received\n# TYPE oracle_requests_total counter\noracle_requests_total "@ + decimal(s.requests_total as nat)) + "\n\n# HELP oracle_requests_active Requests currently being processed\n# TYPE oracle_requests_active gauge\noracle_requests_active "@) + decimal(s.requests_active as nat)) + "\n\n# HELP oracle_tokens_generated_total Total tokens generated\n# TYPE oracle_tokens_generated_total counter\noracle_tokens_generated_total "@) + decimal(s.tokens_generated as nat)) + "\n\n# HELP oracle_ttft_ms_mean Mean time-to-first-token in milliseconds\n# TYPE oracle_ttft_ms_mean gauge\noracle_ttft_ms_mean "@) + s.ttft_ms@) + "\n\n# HELP oracle_itl_ms_mean Mean inter-token latency in milliseconds\n# TYPE oracle_itl_ms_mean gauge\noracle_itl_ms_mean "@) + s.itl_ms@) + "\n\n# HELP oracle_cache_hit_rate Radix KV-cache prefix hit rate (0.0\u{2013}1.0)\n# TYPE oracle_cache_hit_rate gauge\noracle_cache_hit_rate "@) + s.cache_hit_rate@), "\n\n# HELP oracle_cache_blocks_used KV-cache blocks currently in use\n# TYPE oracle_cache_blocks_used gauge\noracle_cache_blocks_used "@);
        lemma_prefix_extend((((("# HELP oracle_requests_total Total inference requests received\n# TYPE oracle_requests_total counter\noracle_requests_total "@ + decimal(s.requests_total as nat)) + "\n\n# HELP oracle_requests_active Requests currently being processed\n# TYPE oracle_requests_active gauge\noracle_requests_active "@) + decimal(s.requests_active as nat)) + "\n\n# HELP oracle_tokens_generated_total Total tokens generated\n# TYPE oracle_tokens_generated_total counter\noracle_tokens_generated_total "@), (((((((((((("# HELP oracle_requests_total Total inference requests received\n# TYPE oracle_requests_total counter\noracle_requests_total "@ + decimal(s.requests_total as nat)) + "\n\n# HELP oracle_requests_active Requests currently being processed\n# TYPE oracle_requests_active gauge\noracle_requests_active "@) + decimal(s.requests_active as nat)) + "\n\n# HELP oracle_tokens_generated_total Total tokens generated\n# TYPE oracle_tokens_generated_total counter\noracle_tokens_generated_total "@) + decimal(s.tokens_generated as nat)) + "\n\n# HELP oracle_ttft_ms_mean Mean time-to-first-token in milliseconds\n# TYPE oracle_ttft_ms_mean gauge\noracle_ttft_ms_mean "@) + s.ttft_ms@) + "\n\n# HELP oracle_itl_ms_mean Mean inter-token latency in milliseconds\n# TYPE oracle_itl_ms_mean gauge\noracle_itl_ms_mean "@) + s.itl_ms@) + "\n\n# HELP oracle_cache_hit_rate Radix KV-cache prefix hit rate (0.0\u{2013}1.0)\n# TYPE oracle_cache_hit_rate gauge\noracle_cache_hit_rate "@) + s.cache_hit_rate@) + "\n\n# HELP oracle_cache_blocks_used KV-cache blocks currently in use\n# TYPE oracle_cache_blocks_used gauge\noracle_cache_blocks_used "@), decimal(s.cache_blocks_used as nat));
        lemma_prefix_extend((((("# HELP oracle_requests_total Total inference requests received\n# TYPE oracle_requests_total counter\noracle_requests_total "@ + decimal(s.requests_total as nat)) + "\n\n# HELP oracle_requests_active Requests currently being processed\n# TYPE oracle_requests_active gauge\noracle_requests_active "@) + decimal(s.requests_active as nat)) + "\n\n# HELP oracle_tokens_generated_total Total tokens generated\n# TYPE oracle_tokens_generated_total counter\noracle_tokens_generated_total "@), ((((((((((((("# HELP oracle_requests_total Total inference requests received\n# TYPE oracle_requests_total counter\noracle_requests_total "@ + decimal(s.requests_total as nat)) + "\n\n# HELP oracle_requests_active Requests currently being processed\n# TYPE oracle_requests_active gauge\noracle_requests_active "@) + decimal(s.requests_active as nat)) + "\n\n# HELP oracle_tokens_generated_total Total tokens generated\n# TYPE oracle_tokens_generated_total counter\noracle_tokens_generated_total "@) + decimal(s.tokens_generated as nat)) + "\n\n# HELP oracle_ttft_ms_mean Mean time-to-first-token in milliseconds\n# TYPE oracle_ttft_ms_mean gauge\noracle_ttft_ms_mean "@) + s.ttft_ms@) + "\n\n# HELP oracle_itl_ms_mean Mean inter-token latency in milliseconds\n# TYPE oracle_itl_ms_mean gauge\noracle_itl_ms_mean "@) + s.itl_ms@) + "\n\n# HELP oracle_cache_hit_rate Radix KV-cache prefix hit rate (0.0\u{2013}1.0)\n# TYPE oracle_cache_hit_rate gauge\noracle_cache_hit_rate "@) + s.cache_hit_rate@) + "\n\n# HELP oracle_cache_blocks_used KV-cache blocks currently in use\n# TYPE oracle_cache_blocks_used gauge\noracle_cache_blocks_used "@) + decimal(s.cache_blocks_used as nat)), "\n"@);
        lemma_needle(prometheus_page(s), (("# HELP oracle_requests_total Total inference requests received\n# TYPE oracle_requests_total counter\noracle_requests_total "@ + decimal(s.requests_total as nat)) + "\n\n# HELP oracle_requests_active Requests currently being processed\n# TYPE oracle_requests_active gauge\noracle_requests_active "@), decimal(s.requests_active as nat), "\n\n# HELP oracle_tokens_generated_total Total tokens generated\n# TYPE oracle_tokens_generated_total counter\noracle_tokens_generated_total "@, "\noracle_requests_active "@);
    }
    assert(shows(prometheus_page(s), "\noracle_tokens_generated_total "@ + decimal(s.tokens_generated as nat) + "\n"@)) by {
        lemma_suffix_extend("\noracle_tokens_generated_total "@, ((("# HELP oracle_requests_total Total inference requests received\n# TYPE oracle_requests_total counter\noracle_requests_total "@ + decimal(s.requests_total as nat)) + "\n\n# HELP oracle_requests_active Requests currently being processed\n# TYPE oracle_requests_active gauge\noracle_requests_active "@) + decimal(s.requests_active as nat)), "\n\n# HELP oracle_tokens_generated_total Total tokens generated\n# TYPE oracle_tokens_generated_total counter\noracle_tokens_generated_total "@);
        assert((((((("# HELP oracle_requests_total Total inference requests received\n# TYPE oracle_requests_total counter\noracle_requests_total "@ + decimal(s.requests_total as nat)) + "\n\n# HELP oracle_requests_active Requests currently being processed\n# TYPE oracle_requests_active gauge\noracle_requests_active "@) + decimal(s.requests_active as nat)) + "\n\n# HELP oracle_tokens_generated_total Total tokens generated\n# TYPE oracle_tokens_generated_total counter\noracle_tokens_generated_total "@) + decimal(s.tokens_generated as nat)) + "\n\n# HELP oracle_ttft_ms_mean Mean time-to-first-token in milliseconds\n# TYPE oracle_ttft_ms_mean gauge\noracle_ttft_ms_mean "@).take((((((("# HELP oracle_requests_total Total inference requests received\n# TYPE oracle_requests_total counter\noracle_requests_total "@ + decimal(s.requests_total as nat)) + "\n\n# HELP oracle_requests_active Requests currently being processed\n# TYPE oracle_requests_active gauge\noracle_requests_active "@) + decimal(s.requests_active as nat)) + "\n\n# HELP oracle_tokens_generated_total Total tokens generated\n# TYPE oracle_tokens_generated_total counter\noracle_tokens_generated_total "@) + decimal(s.tokens_generated as nat)) + "\n\n# HELP oracle_ttft_ms_mean Mean time-to-first-token in milliseconds\n# TYPE oracle_ttft_ms_mean gauge\noracle_ttft_ms_mean "@).len() as int) =~= (((((("# HELP oracle_requests_total Total inference requests received\n# TYPE oracle_requests_total counter\noracle_requests_total "@ + decimal(s.requests_total as nat)) + "\n\n# HELP oracle_requests_active Requests currently being processed\n# TYPE oracle_requests_active gauge\noracle_requests_active "@) + decimal(s.requests_active as nat)) + "\n\n# HELP oracle_tokens_generated_total Total tokens generated\n# TYPE oracle_tokens_generated_total counter\noracle_tokens_generated_total "@) + decimal(s.tokens_generated as nat)) + "\n\n# HELP oracle_ttft_ms_mean Mean time-to-first-token in milliseconds\n# TYPE oracle_ttft_ms_mean gauge\noracle_ttft_ms_mean "@));
        lemma_prefix_extend((((((("# HELP oracle_requests_total Total inference requests received\n# TYPE oracle_requests_total counter\noracle_requests_total "@ + decimal(s.requests_total as nat)) + "\n\n# HELP oracle_requests_active Requests currently being processed\n# TYPE oracle_requests_active gauge\noracle_requests_active "@) + decimal(s.requests_active as nat)) + "\n\n# HELP oracle_tokens_generated_total Total tokens generated\n# TYPE oracle_tokens_generated_total counter\noracle_tokens_generated_total "@) + decimal(s.tokens_generated as nat)) + "\n\n# HELP oracle_ttft_ms_mean Mean time-to-first-token in milliseconds\n# TYPE oracle_ttft_ms_mean gauge\noracle_ttft_ms_mean "@), (((((("# HELP oracle_requests_total Total inference requests received\n# TYPE oracle_requests_total counter\noracle_requests_total "@ + decimal(s.requests_total as nat)) + "\n\n# HELP oracle_requests_active Requests currently being processed\n# TYPE oracle_requests_active gauge\noracle_requests_active "@) + decimal(s.requests_active as nat)) + "\n\n# HELP oracle_tokens_generated_total Total tokens generated\n# TYPE oracle_tokens_generated_total counter\noracle_tokens_generated_total "@) + decimal(s.tokens_generated as nat)) + "\n\n# HELP oracle_ttft_ms_mean Mean time-to-first-token in milliseconds\n# TYPE oracle_ttft_ms_mean gauge\noracle_ttft_ms_mean "@), s.ttft_ms@);
        lemma_prefix_extend((((((("# HELP oracle_requests_total Total inference requests received\n# TYPE oracle_requests_total counter\noracle_requests_total "@ + decimal(s.requests_total as nat)) + "\n\n# HELP oracle_requests_active Requests currently being processed\n# TYPE oracle_requests_active gauge\noracle_requests_active "@) + decimal(s.requests_active as nat)) + "\n\n# HELP oracle_tokens_generated_total Total tokens generated\n# TYPE oracle_tokens_generated_total counter\noracle_tokens_generated_total "@) + decimal(s.tokens_generated as nat)) + "\n\n# HELP oracle_ttft_ms_mean Mean time-to-first-token in milliseconds\n# TYPE oracle_ttft_ms_mean gauge\noracle_ttft_ms_mean "@), ((((((("# HELP oracle_requests_total Total inference requests received\n# TYPE oracle_requests_total counter\noracle_requests_total "@ + decimal(s.requests_total as nat)) + "\n\n# HELP oracle_requests_active Requests currently being processed\n# TYPE oracle_requests_active gauge\noracle_requests_active "@) + decimal(s.requests_active as nat)) + "\n\n# HELP oracle_tokens_generated_total Total tokens generated\n# TYPE oracle_tokens_generated_total counter\noracle_tokens_generated_total "@) + decimal(s.tokens_generated as nat)) + "\n\n# HELP oracle_ttft_ms_mean Mean time-to-first-token in milliseconds\n# TYPE oracle_ttft_ms_mean gauge\noracle_ttft_ms_mean "@) + s.ttft_ms@), "\n\n# HELP oracle_itl_ms_mean Mean inter-token latency in milliseconds\n# TYPE oracle_itl_ms_mean gauge\noracle_itl_ms_mean "@);
        lemma_prefix_extend((((((("# HELP oracle_requests_total Total inference requests received\n# TYPE oracle_requests_total counter\noracle_requests_total "@ + decimal(s.requests_total as nat)) + "\n\n# HELP oracle_requests_active Requests currently being processed\n# TYPE oracle_requests_active gauge\noracle_requests_active "@) + decimal(s.requests_active as nat)) + "\n\n# HELP oracle_tokens_generated_total Total tokens generated\n# TYPE oracle_tokens_generated_total counter\noracle_tokens_generated_total "@) + decimal(s.tokens_generated as nat)) + "\n\n# HELP oracle_ttft_ms_mean Mean time-to-first-token in milliseconds\n# TYPE oracle_ttft_ms_mean gauge\noracle_ttft_ms_mean "@), (((((((("# HELP oracle_requests_total Total inference requests received\n# TYPE oracle_requests_total counter\noracle_requests_total "@ + decimal(s.requests_total as nat)) + "\n\n# HELP oracle_requests_active Requests currently being processed\n# TYPE oracle_requests_active gauge\noracle_requests_active "@) + decimal(s.requests_active as nat)) + "\n\n# HELP oracle_tokens_generated_total Total tokens generated\n# TYPE oracle_tokens_generated_total counter\noracle_tokens_generated_total "@) + decimal(s.tokens_generated as nat)) + "\n\n# HELP oracle_ttft_ms_mean Mean time-to-first-token in milliseconds\n# TYPE oracle_ttft_ms_mean gauge\noracle_ttft_ms_mean "@) + s.ttft_ms@) + "\n\n# HELP oracle_itl_ms_mean Mean inter-token latency in milliseconds\n# TYPE oracle_itl_ms_mean gauge\noracle_itl_ms_mean "@), s.itl_ms@);
        lemma_prefix_extend((((((("# HELP oracle_requests_total Total inference requests received\n# TYPE oracle_requests_total counter\noracle_requests_total "@ + decimal(s.requests_total as nat)) + "\n\n# HELP oracle_requests_active Requests currently being processed\n# TYPE oracle_requests_active gauge\noracle_requests_active "@) + decimal(s.requests_active as nat)) + "\n\n# HELP oracle_tokens_generated_total Total tokens generated\n# TYPE oracle_tokens_generated_total counter\noracle_tokens_generated_total "@) + decimal(s.tokens_generated as nat)) + "\n\n# HELP oracle_ttft_ms_mean Mean time-to-first-token in milliseconds\n# TYPE oracle_ttft_ms_mean gauge\noracle_ttft_ms_mean "@), ((((((((("# HELP oracle_requests_total Total inference requests received\n# TYPE oracle_requests_total counter\noracle_requests_total "@ + decimal(s.requests_total as nat)) + "\n\n# HELP oracle_requests_active Requests currently being processed\n# TYPE oracle_requests_active gauge\noracle_requests_active "@) + decimal(s.requests_active as nat)) + "\n\n# HELP oracle_tokens_generated_total Total tokens generated\n# TYPE oracle_tokens_generated_total counter\noracle_tokens_generated_total "@) + decimal(s.tokens_generated as nat)) + "\n\n# HELP oracle_ttft_ms_mean Mean time-to-first-token in milliseconds\n# TYPE oracle_ttft_ms_mean gauge\noracle_ttft_ms_mean "@) + s.ttft_ms@) + "\n\n# HELP oracle_itl_ms_mean Mean inter-token latency in milliseconds\n# TYPE oracle_itl_ms_mean gauge\noracle_itl_ms_mean "@) + s.itl_ms@), "\n\n# HELP oracle_cache_hit_rate Radix KV-cache prefix hit rate (0.0\u{2013}1.0)\n# TYPE oracle_cache_hit_rate gauge\noracle_cache_hit_rate "@);
        lemma_prefix_extend((((((("# HELP oracle_requests_total Total inference requests received\n# TYPE oracle_requests_total counter\noracle_requests_total "@ + decimal(s.requests_total as nat)) + "\n\n# HELP oracle_requests_active Requests currently being processed\n# TYPE oracle_requests_active gauge\noracle_requests_active "@) + decimal(s.requests_active as nat)) + "\n\n# HELP oracle_tokens_generated_total Total tokens generated\n# TYPE oracle_tokens_generated_total counter\noracle_tokens_generated_total "@) + decimal(s.tokens_generated as nat)) + "\n\n# HELP oracle_ttft_ms_mean Mean time-to-first-token in milliseconds\n# TYPE oracle_ttft_ms_mean gauge\noracle_ttft_ms_mean "@), (((((((((("# HELP oracle_requests_total Total inference requests received\n# TYPE oracle_requests_total counter\noracle_requests_total "@ + decimal(s.requests_total as nat)) + "\n\n# HELP oracle_requests_active Requests currently being processed\n# TYPE oracle_requests_active gauge\noracle_requests_active "@) + decimal(s.requests_active as nat)) + "\n\n# HELP oracle_tokens_generated_total Total tokens generated\n# TYPE oracle_tokens_generated_total counter\noracle_tokens_generated_total "@) + decimal(s.tokens_generated as nat)) + "\n\n# HELP oracle_ttft_ms_mean Mean time-to-first-token in milliseconds\n# TYPE oracle_ttft_ms_mean gauge\noracle_ttft_ms_mean "@) + s.ttft_ms@) + "\n\n# HELP oracle_itl_ms_mean Mean inter-token latency in milliseconds\n# TYPE oracle_itl_ms_mean gauge\noracle_itl_ms_mean "@) + s.itl_ms@) + "\n\n# HELP oracle_cache_hit_rate Radix KV-cache prefix hit rate (0.0\u{2013}1.0)\n# TYPE oracle_cache_hit_rate gauge\noracle_cache_hit_rate "@), s.cache_hit_rate@);
        lemma_prefix_extend((((((("# HELP oracle_requests_total Total inference requests received\n# TYPE oracle_requests_total counter\noracle_requests_total "@ + decimal(s.requests_total as nat)) + "\n\n# HELP oracle_requests_active Requests currently being processed\n# TYPE oracle_requests_active gauge\noracle_requests_active "@) + decimal(s.requests_active as nat)) + "\n\n# HELP oracle_tokens_generated_total Total tokens generated\n# TYPE oracle_tokens_generated_total counter\noracle_tokens_generated_total "@) + decimal(s.tokens_generated as nat)) + "\n\n# HELP oracle_ttft_ms_mean Mean time-to-first-token in milliseconds\n# TYPE oracle_ttft_ms_mean gauge\noracle_ttft_ms_mean "@), ((((((((((("# HELP oracle_requests_total Total inference requests received\n# TYPE oracle_requests_total counter\noracle_requests_total "@ + decimal(s.requests_total as nat)) + "\n\n# HELP oracle_requests_active Requests currently being processed\n# TYPE oracle_requests_active gauge\noracle_requests_active "@) + decimal(s.requests_active as nat)) + "\n\n# HELP oracle_tokens_generated_total Total tokens generated\n# TYPE oracle_tokens_generated_total counter\noracle_tokens_generated_total "@) + decimal(s.tokens_generated as nat)) + "\n\n# HELP oracle_ttft_ms_mean Mean time-to-first-token in milliseconds\n# TYPE oracle_ttft_ms_mean gauge\noracle_ttft_ms_mean "@) + s.ttft_ms@) + "\n\n# HELP oracle_itl_ms_mean Mean inter-token latency in milliseconds\n# TYPE oracle_itl_ms_mean gauge\noracle_itl_ms_mean "@) + s.itl_ms@) + "\n\n# HELP oracle_cache_hit_rate Radix KV-cache prefix hit rate (0.0\u{2013}1.0)\n# TYPE oracle_cache_hit_rate gauge\noracle_cache_hit_rate "@) + s.cache_hit_rate@), "\n\n# HELP oracle_cache_blocks_used KV-cache blocks currently in use\n# TYPE oracle_cache_blocks_used gauge\noracle_cache_blocks_used "@);
        lemma_prefix_extend((((((("# HELP oracle_requests_total Total inference requests received\n# TYPE oracle_requests_total counter\noracle_requests_total "@ + decimal(s.requests_total as nat)) + "\n\n# HELP oracle_requests_active Requests currently being processed\n# TYPE oracle_requests_active gauge\noracle_requests_active "@) + decimal(s.requests_active as nat)) + "\n\n# HELP oracle_tokens_generated_total Total tokens generated\n# TYPE oracle_tokens_generated_total counter\noracle_tokens_generated_total "@) + decimal(s.tokens_generated as nat)) + "\n\n# HELP oracle_ttft_ms_mean Mean time-to-first-token in milliseconds\n# TYPE oracle_ttft_ms_mean gauge\noracle_ttft_ms_mean "@), (((((((((((("# HELP oracle_requests_total Total inference requests received\n# TYPE oracle_requests_total counter\noracle_requests_total "@ + decimal(s.requests_total as nat)) + "\n\n# HELP oracle_requests_active Requests currently being processed\n# TYPE oracle_requests_active gauge\noracle_requests_active "@) + decimal(s.requests_active as nat)) + "\n\n# HELP oracle_tokens_generated_total Total tokens generated\n# TYPE oracle_tokens_generated_total counter\noracle_tokens_generated_total "@) + decimal(s.tokens_generated as nat)) + "\n\n# HELP oracle_ttft_ms_mean Mean time-to-first-token in milliseconds\n# TYPE oracle_ttft_ms_mean gauge\noracle_ttft_ms_mean "@) + s.ttft_ms@) + "\n\n# HELP oracle_itl_ms_mean Mean inter-token latency in milliseconds\n# TYPE oracle_itl_ms_mean gauge\noracle_itl_ms_mean "@) + s.itl_ms@) + "\n\n# HELP oracle_cache_hit_rate Radix KV-cache prefix hit rate (0.0\u{2013}1.0)\n# TYPE oracle_cache_hit_rate gauge\noracle_cache_hit_rate "@) + s.cache_hit_rate@) + "\n\n# HELP oracle_cache_blocks_used KV-cache blocks currently in use\n# TYPE oracle_cache_blocks_used gauge\noracle_cache_blocks_used "@), decimal(s.cache_blocks_used as nat));
        lemma_prefix_extend((((((("# HELP oracle_requests_total Total inference requests received\n# TYPE oracle_requests_total counter\noracle_requests_total "@ + decimal(s.requests_total as nat)) + "\n\n# HELP oracle_requests_active Requests currently being processed\n# TYPE oracle_requests_active gauge\noracle_requests_active "@) + decimal(s.requests_active as nat)) + "\n\n# HELP oracle_tokens_generated_total Total tokens generated\n# TYPE oracle_tokens_generated_total counter\noracle_tokens_generated_total "@) + decimal(s.tokens_generated as nat)) + "\n\n# HELP oracle_ttft_ms_mean Mean time-to-first-token in milliseconds\n# TYPE oracle_ttft_ms_mean gauge\noracle_ttft_ms_mean "@), ((((((((((((("# HELP oracle_requests_total Total inference requests received\n# TYPE oracle_requests_total counter\noracle_requests_total "@ + decimal(s.requests_total as nat)) + "\n\n# HELP oracle_requests_active Requests currently being processed\n# TYPE oracle_requests_active gauge\noracle_requests_active "@) + decimal(s.requests_active as nat)) + "\n\n# HELP oracle_tokens_generated_total Total tokens generated\n# TYPE oracle_tokens_generated_total counter\noracle_tokens_generated_total "@) + decimal(s.tokens_generated as nat)) + "\n\n# HELP oracle_ttft_ms_mean Mean time-to-first-token in milliseconds\n# TYPE oracle_ttft_ms_mean gauge\noracle_ttft_ms_mean "@) + s.ttft_ms@) + "\n\n# HELP oracle_itl_ms_mean Mean inter-token latency in milliseconds\n# TYPE oracle_itl_ms_mean gauge\noracle_itl_ms_mean "@) + s.itl_ms@) + "\n\n# HELP oracle_cache_hit_rate Radix KV-cache prefix hit rate (0.0\u{2013}1.0)\n# TYPE oracle_cache_hit_rate gauge\noracle_cache_hit_rate "@) + s.cache_hit_rate@) + "\n\n# HELP oracle_cache_blocks_used KV-cache blocks currently in use\n# TYPE oracle_cache_blocks_used gauge\noracle_cache_blocks_used "@) + decimal(s.cache_blocks_used as nat)), "\n"@);
        lemma_needle(prometheus_page(s), (((("# HELP oracle_requests_total Total inference requests received\n# TYPE oracle_requests_total counter\noracle_requests_total "@ + decimal(s.requests_total as nat)) + "\n\n# HELP oracle_requests_active Requests currently being processed\n# TYPE oracle_requests_active gauge\noracle_requests_active "@) + decimal(s.requests_active as nat)) + "\n\n# HELP oracle_tokens_generated_total Total tokens generated\n# TYPE oracle_tokens_generated_total counter\noracle_tokens_generated_total "@), decimal(s.tokens_generated as nat), "\n\n# HELP oracle_ttft_ms_mean Mean time-to-first-token in milliseconds\n# TYPE oracle_ttft_ms_mean gauge\noracle_ttft_ms_mean "@, "\noracle_tokens_generated_total "@);
    }
    assert(shows(prometheus_page(s), "\noracle_ttft_ms_mean "@ + s.ttft_ms@ + "\n"@)) by {
        lemma_suffix_extend("\noracle_ttft_ms_mean "@, ((((("# HELP oracle_requests_total Total inference requests received\n# TYPE oracle_requests_total counter\noracle_requests_total "@ + decimal(s.requests_total as nat)) + "\n\n# HELP oracle_requests_active Requests currently being processed\n# TYPE oracle_requests_active gauge\noracle_requests_active "@) + decimal(s.requests_active as nat)) + "\n\n# HELP oracle_tokens_generated_total Total tokens generated\n# TYPE oracle_tokens_generated_total counter\noracle_tokens_generated_total "@) + decimal(s.tokens_generated as nat)), "\n\n# HELP oracle_ttft_ms_mean Mean time-to-first-token in milliseconds\n# TYPE oracle_ttft_ms_mean gauge\noracle_ttft_ms_mean "@);
        assert((((((((("# HELP oracle_requests_total Total inference requests received\n# TYPE oracle_requests_total counter\noracle_requests_total "@ + decimal(s.requests_total as nat)) + "\n\n# HELP oracle_requests_active Requests currently being processed\n# TYPE oracle_requests_active gauge\noracle_requests_active "@) + decimal(s.requests_active as nat)) + "\n\n# HELP oracle_tokens_generated_total Total tokens generated\n# TYPE oracle_tokens_generated_total counter\noracle_tokens_generated_total "@) + decimal(s.tokens_generated as nat)) + "\n\n# HELP oracle_ttft_ms_mean Mean time-to-first-token in milliseconds\n# TYPE oracle_ttft_ms_mean gauge\noracle_ttft_ms_mean "@) + s.ttft_ms@) + "\n\n# HELP oracle_itl_ms_mean Mean inter-token latency in milliseconds\n# TYPE oracle_itl_ms_mean gauge\noracle_itl_ms_mean "@).take((((((((("# HELP oracle_requests_total Total inference requests received\n# TYPE oracle_requests_total counter\noracle_requests_total "@ + decimal(s.requests_total as nat)) + "\n\n# HELP oracle_requests_active Requests currently being processed\n# TYPE oracle_requests_active gauge\noracle_requests_active "@) + decimal(s.requests_active as nat)) + "\n\n# HELP oracle_tokens_generated_total Total tokens generated\n# TYPE oracle_tokens_generated_total counter\noracle_tokens_generated_total "@) + decimal(s.tokens_generated as nat)) + "\n\n# HELP oracle_ttft_ms_mean Mean time-to-first-token in milliseconds\n# TYPE oracle_ttft_ms_mean gauge\noracle_ttft_ms_mean "@) + s.ttft_ms@) + "\n\n# HELP oracle_itl_ms_mean Mean inter-token latency in milliseconds\n# TYPE oracle_itl_ms_mean gauge\noracle_itl_ms_mean "@).len() as int) =~= (((((((("# HELP oracle_requests_total Total inference requests received\n# TYPE oracle_requests_total counter\noracle_requests_total "@ + decimal(s.requests_total as nat)) + "\n\n# HELP oracle_requests_active Requests currently being processed\n# TYPE oracle_requests_active gauge\noracle_requests_active "@) + decimal(s.requests_active as nat)) + "\n\n# HELP oracle_tokens_generated_total Total tokens generated\n# TYPE oracle_tokens_generated_total counter\noracle_tokens_generated_total "@) + decimal(s.tokens_generated as nat)) + "\n\n# HELP oracle_ttft_ms_mean Mean time-to-first-token in milliseconds\n# TYPE oracle_ttft_ms_mean gauge\noracle_ttft_ms_mean "@) + s.ttft_ms@) + "\n\n# HELP oracle_itl_ms_mean Mean inter-token latency in milliseconds\n# TYPE oracle_itl_ms_mean gauge\noracle_itl_ms_mean "@));
        lemma_prefix_extend((((((((("# HELP oracle_requests_total Total inference requests received\n# TYPE oracle_requests_total counter\noracle_requests_total "@ + decimal(s.requests_total as nat)) + "\n\n# HELP oracle_requests_active Requests currently being processed\n# TYPE oracle_requests_active gauge\noracle_requests_active "@) + decimal(s.requests_active as nat)) + "\n\n# HELP oracle_tokens_generated_total Total tokens generated\n# TYPE oracle_tokens_generated_total counter\noracle_tokens_generated_total "@) + decimal(s.tokens_generated as nat)) + "\n\n# HELP oracle_ttft_ms_mean Mean time-to-first-token in milliseconds\n# TYPE oracle_ttft_ms_mean gauge\noracle_ttft_ms_mean "@) + s.ttft_ms@) + "\n\n# HELP oracle_itl_ms_mean Mean inter-token latency in milliseconds\n# TYPE oracle_itl_ms_mean gauge\noracle_itl_ms_mean "@), (((((((("# HELP oracle_requests_total Total inference requests received\n# TYPE oracle_requests_total counter\noracle_requests_total "@ + decimal(s.requests_total as nat)) + "\n\n# HELP oracle_requests_active Requests currently being processed\n# TYPE oracle_requests_active gauge\noracle_requests_active "@) + decimal(s.requests_active as nat)) + "\n\n# HELP oracle_tokens_generated_total Total tokens generated\n# TYPE oracle_tokens_generated_total counter\noracle_tokens_generated_total "@) + decimal(s.tokens_generated as nat)) + "\n\n# HELP oracle_ttft_ms_mean Mean time-to-first-token in milliseconds\n# TYPE oracle_ttft_ms_mean gauge\noracle_ttft_ms_mean "@) + s.ttft_ms@) + "\n\n# HELP oracle_itl_ms_mean Mean inter-token latency in milliseconds\n# TYPE oracle_itl_ms_mean gauge\noracle_itl_ms_mean "@), s.itl_ms@);
        lemma_prefix_extend((((((((("# HELP oracle_requests_total Total inference requests received\n# TYPE oracle_requests_total counter\noracle_requests_total "@ + decimal(s.requests_total as nat)) + "\n\n# HELP oracle_requests_active Requests currently being processed\n# TYPE oracle_requests_active gauge\noracle_requests_active "@) + decimal(s.requests_active as nat)) + "\n\n# HELP oracle_tokens_generated_total Total tokens generated\n# TYPE oracle_tokens_generated_total counter\noracle_tokens_generated_total "@) + decimal(s.tokens_generated as nat)) + "\n\n# HELP oracle_ttft_ms_mean Mean time-to-first-token in milliseconds\n# TYPE oracle_ttft_ms_mean gauge\noracle_ttft_ms_mean "@) + s.ttft_ms@) + "\n\n# HELP oracle_itl_ms_mean Mean inter-token latency in milliseconds\n# TYPE oracle_itl_ms_mean gauge\noracle_itl_ms_mean "@), ((((((((("# HELP oracle_requests_total Total inference requests received\n# TYPE oracle_requests_total counter\noracle_requests_total "@ + decimal(s.requests_total as nat)) + "\n\n# HELP oracle_requests_active Requests currently being processed\n# TYPE oracle_requests_active gauge\noracle_requests_active "@) + decimal(s.requests_active as nat)) + "\n\n# HELP oracle_tokens_generated_total Total tokens generated\n# TYPE oracle_tokens_generated_total counter\noracle_tokens_generated_total "@) + decimal(s.tokens_generated as nat)) + "\n\n# HELP oracle_ttft_ms_mean Mean time-to-first-token in milliseconds\n# TYPE oracle_ttft_ms_mean gauge\noracle_ttft_ms_mean "@) + s.ttft_ms@) + "\n\n# HELP oracle_itl_ms_mean Mean inter-token latency in milliseconds\n# TYPE oracle_itl_ms_mean gauge\noracle_itl_ms_mean "@) + s.itl_ms@), "\n\n# HELP oracle_cache_hit_rate Radix KV-cache prefix hit rate (0.0\u{2013}1.0)\n# TYPE oracle_cache_hit_rate gauge\noracle_cache_hit_rate "@);
        lemma_prefix_extend((((((((("# HELP oracle_requests_total Total inference requests received\n# TYPE oracle_requests_total counter\noracle_requests_total "@ + decimal(s.requests_total as nat)) + "\n\n# HELP oracle_requests_active Requests currently being processed\n# TYPE oracle_requests_active gauge\noracle_requests_active "@) + decimal(s.requests_active as nat)) + "\n\n# HELP oracle_tokens_generated_total Total tokens generated\n# TYPE oracle_tokens_generated_total counter\noracle_tokens_generated_total "@) + decimal(s.tokens_generated as nat)) + "\n\n# HELP oracle_ttft_ms_mean Mean time-to-first-token in milliseconds\n# TYPE oracle_ttft_ms_mean gauge\noracle_ttft_ms_mean "@) + s.ttft_ms@) + "\n\n# HELP oracle_itl_ms_mean Mean inter-token latency in milliseconds\n# TYPE oracle_itl_ms_mean gauge\noracle_itl_ms_mean "@), (((((((((("# HELP oracle_requests_total Total inference requests received\n# TYPE oracle_requests_total counter\noracle_requests_total "@ + decimal(s.requests_total as nat)) + "\n\n# HELP oracle_requests_active Requests currently being processed\n# TYPE oracle_requests_active gauge\noracle_requests_active "@) + decimal(s.requests_active as nat)) + "\n\n# HELP oracle_tokens_generated_total Total tokens generated\n# TYPE oracle_tokens_generated_total counter\noracle_tokens_generated_total "@) + decimal(s.tokens_generated as nat)) + "\n\n# HELP oracle_ttft_ms_mean Mean time-to-first-token in milliseconds\n# TYPE oracle_ttft_ms_mean gauge\noracle_ttft_ms_mean "@) + s.ttft_ms@) + "\n\n# HELP oracle_itl_ms_mean Mean inter-token latency in milliseconds\n# TYPE oracle_itl_ms_mean gauge\noracle_itl_ms_mean "@) + s.itl_ms@) + "\n\n# HELP oracle_cache_hit_rate Radix KV-cache prefix hit rate (0.0\u{2013}1.0)\n# TYPE oracle_cache_hit_rate gauge\noracle_cache_hit_rate "@), s.cache_hit_rate@);
        lemma_prefix_extend((((((((("# HELP oracle_requests_total Total inference requests received\n# TYPE oracle_requests_total counter\noracle_requests_total "@ + decimal(s.requests_total as nat)) + "\n\n# HELP oracle_requests_active Requests currently being processed\n# TYPE oracle_requests_active gauge\noracle_requests_active "@) + decimal(s.requests_active as nat)) + "\n\n# HELP oracle_tokens_generated_total Total tokens generated\n# TYPE oracle_tokens_generated_total counter\noracle_tokens_generated_total "@) + decimal(s.tokens_generated as nat)) + "\n\n# HELP oracle_ttft_ms_mean Mean time-to-first-token in milliseconds\n# TYPE oracle_ttft_ms_mean gauge\noracle_ttft_ms_mean "@) + s.ttft_ms@) + "\n\n# HELP oracle_itl_ms_mean Mean inter-token latency in milliseconds\n# TYPE oracle_itl_ms_mean gauge\noracle_itl_ms_mean "@), ((((((((((("# HELP oracle_requests_total Total inference requests received\n# TYPE oracle_requests_total counter\noracle_requests_total "@ + decimal(s.requests_total as nat)) + "\n\n# HELP oracle_requests_active Requests currently being processed\n# TYPE oracle_requests_active gauge\noracle_requests_active "@) + decimal(s.requests_active as nat)) + "\n\n# HELP oracle_tokens_generated_total Total tokens generated\n# TYPE oracle_tokens_generated_total counter\noracle_tokens_generated_total "@) + decimal(s.tokens_generated as nat)) + "\n\n# HELP oracle_ttft_ms_mean Mean time-to-first-token in milliseconds\n# TYPE oracle_ttft_ms_mean gauge\noracle_ttft_ms_mean "@) + s.ttft_ms@) + "\n\n# HELP oracle_itl_ms_mean Mean inter-token latency in milliseconds\n# TYPE oracle_itl_ms_mean gauge\noracle_itl_ms_mean "@) + s.itl_ms@) + "\n\n# HELP oracle_cache_hit_rate Radix KV-cache prefix hit rate (0.0\u{2013}1.0)\n# TYPE oracle_cache_hit_rate gauge\noracle_cache_hit_rate "@) + s.cache_hit_rate@), "\n\n# HELP oracle_cache_blocks_used KV-cache blocks currently in use\n# TYPE oracle_cache_blocks_used gauge\noracle_cache_blocks_used "@);
        lemma_prefix_extend((((((((("# HELP oracle_requests_total Total inference requests received\n# TYPE oracle_requests_total counter\noracle_requests_total "@ + decimal(s.requests_total as nat)) + "\n\n# HELP oracle_requests_active Requests currently being processed\n# TYPE oracle_requests_active gauge\noracle_requests_active "@) + decimal(s.requests_active as nat)) + "\n\n# HELP oracle_tokens_generated_total Total tokens generated\n# TYPE oracle_tokens_generated_total counter\noracle_tokens_generated_total "@) + decimal(s.tokens_generated as nat)) + "\n\n# HELP oracle_ttft_ms_mean Mean time-to-first-token in milliseconds\n# TYPE oracle_ttft_ms_mean gauge\noracle_ttft_ms_mean "@) + s.ttft_ms@) + "\n\n# HELP oracle_itl_ms_mean Mean inter-token latency in milliseconds\n# TYPE oracle_itl_ms_mean gauge\noracle_itl_ms_mean "@), (((((((((((("# HELP oracle_requests_total Total inference requests received\n# TYPE oracle_requests_total counter\noracle_requests_total "@ + decimal(s.requests_total as nat)) + "\n\n# HELP oracle_requests_active Requests currently being processed\n# TYPE oracle_requests_active gauge\noracle_requests_active "@) + decimal(s.requests_active as nat)) + "\n\n# HELP oracle_tokens_generated_total Total tokens generated\n# TYPE oracle_tokens_generated_total counter\noracle_tokens_generated_total "@) + decimal(s.tokens_generated as nat)) + "\n\n# HELP oracle_ttft_ms_mean Mean time-to-first-token in milliseconds\n# TYPE oracle_ttft_ms_mean gauge\noracle_ttft_ms_mean "@) + s.ttft_ms@) + "\n\n# HELP oracle_itl_ms_mean Mean inter-token latency in milliseconds\n# TYPE oracle_itl_ms_mean gauge\noracle_itl_ms_mean "@) + s.itl_ms@) + "\n\n# HELP oracle_cache_hit_rate Radix KV-cache prefix hit rate (0.0\u{2013}1.0)\n# TYPE oracle_cache_hit_rate gauge\noracle_cache_hit_rate "@) + s.cache_hit_rate@) + "\n\n# HELP oracle_cache_blocks_used KV-cache blocks currently in use\n# TYPE oracle_cache_blocks_used gauge\noracle_cache_blocks_used "@), decimal(s.cache_blocks_used as nat));
        lemma_prefix_extend((((((((("# HELP oracle_requests_total Total inference requests received\n# TYPE oracle_requests_total counter\noracle_requests_total "@ + decimal(s.requests_total as nat)) + "\n\n# HELP oracle_requests_active Requests currently being processed\n# TYPE oracle_requests_active gauge\noracle_requests_active "@) + decimal(s.requests_active as nat)) + "\n\n# HELP oracle_tokens_generated_total Total tokens generated\n# TYPE oracle_tokens_generated_total counter\noracle_tokens_generated_total "@) + decimal(s.tokens_generated as nat)) + "\n\n# HELP oracle_ttft_ms_mean Mean time-to-first-token in milliseconds\n# TYPE oracle_ttft_ms_mean gauge\noracle_ttft_ms_mean "@) + s.ttft_ms@) + "\n\n# HELP oracle_itl_ms_mean Mean inter-token latency in milliseconds\n# TYPE oracle_itl_ms_mean gauge\noracle_itl_ms_mean "@), ((((((((((((("# HELP oracle_requests_total Total inference requests received\n# TYPE oracle_requests_total counter\noracle_requests_total "@ + decimal(s.requests_total as nat)) + "\n\n# HELP oracle_requests_active Requests currently being processed\n# TYPE oracle_requests_active gauge\noracle_requests_active "@) + decimal(s.requests_active as nat)) + "\n\n# HELP oracle_tokens_generated_total Total tokens generated\n# TYPE oracle_tokens_generated_total counter\noracle_tokens_generated_total "@) + decimal(s.tokens_generated as nat)) + "\n\n# HELP oracle_ttft_ms_mean Mean time-to-first-token in milliseconds\n# TYPE oracle_ttft_ms_mean gauge\noracle_ttft_ms_mean "@) + s.ttft_ms@) + "\n\n# HELP oracle_itl_ms_mean Mean inter-token latency in milliseconds\n# TYPE oracle_itl_ms_mean gauge\noracle_itl_ms_mean "@) + s.itl_ms@) + "\n\n# HELP oracle_cache_hit_rate Radix KV-cache prefix hit rate (0.0\u{2013}1.0)\n# TYPE oracle_cache_hit_rate gauge\noracle_cache_hit_rate "@) + s.cache_hit_rate@) + "\n\n# HELP oracle_cache_blocks_used KV-cache blocks currently in use\n# TYPE oracle_cache_blocks_used gauge\noracle_cache_blocks_used "@) + decimal(s.cache_blocks_used as nat)), "\n"@);
        lemma_needle(prometheus_page(s), (((((("# HELP oracle_requests_total Total inference requests received\n# TYPE oracle_requests_total counter\noracle_requests_total "@ + decimal(s.requests_total as nat)) + "\n\n# HELP oracle_requests_active Requests currently being processed\n# TYPE oracle_requests_active gauge\noracle_requests_active "@) + decimal(s.requests_active as nat)) + "\n\n# HELP oracle_tokens_generated_total Total tokens generated\n# TYPE oracle_tokens_generated_total counter\noracle_tokens_generated_total "@) + decimal(s.tokens_generated as nat)) + "\n\n# HELP oracle_ttft_ms_mean Mean time-to-first-token in milliseconds\n# TYPE oracle_ttft_ms_mean gauge\noracle_ttft_ms_mean "@), s.ttft_ms@, "\n\n# HELP oracle_itl_ms_mean Mean inter-token latency in milliseconds\n# TYPE oracle_itl_ms_mean gauge\noracle_itl_ms_mean "@, "\noracle_ttft_ms_mean "@);
    }
    assert(shows(prometheus_page(s), "\noracle_itl_ms_mean "@ + s.itl_ms@ + "\n"@)) by {
        lemma_suffix_extend("\noracle_itl_ms_mean "@, ((((((("# HELP oracle_requests_total Total inference requests received\n# TYPE oracle_requests_total counter\noracle_requests_total "@ + decimal(s.requests_total as nat)) + "\n\n# HELP oracle_requests_active Requests currently being processed\n# TYPE oracle_requests_active gauge\noracle_requests_active "@) + decimal(s.requests_active as nat)) + "\n\n# HELP oracle_tokens_generated_total Total tokens generated\n# TYPE oracle_tokens_generated_total counter\noracle_tokens_generated_total "@) + decimal(s.tokens_generated as nat)) + "\n\n# HELP oracle_ttft_ms_mean Mean time-to-first-token in milliseconds\n# TYPE oracle_ttft_ms_mean gauge\noracle_ttft_ms_mean "@) + s.ttft_ms@), "\n\n# HELP oracle_itl_ms_mean Mean inter-token latency in milliseconds\n# TYPE oracle_itl_ms_mean gauge\noracle_itl_ms_mean "@);
        assert((((((((((("# HELP oracle_requests_total Total inference requests received\n# TYPE oracle_requests_total counter\noracle_requests_total "@ + decimal(s.requests_total as nat)) + "\n\n# HELP oracle_requests_active Requests currently being processed\n# TYPE oracle_requests_active gauge\noracle_requests_active "@) + decimal(s.requests_active as nat)) + "\n\n# HELP oracle_tokens_generated_total Total tokens generated\n# TYPE oracle_tokens_generated_total counter\noracle_tokens_generated_total "@) + decimal(s.tokens_generated as nat)) + "\n\n# HELP oracle_ttft_ms_mean Mean time-to-first-token in milliseconds\n# TYPE oracle_ttft_ms_mean gauge\noracle_ttft_ms_mean "@) + s.ttft_ms@) + "\n\n# HELP oracle_itl_ms_mean Mean inter-token latency in milliseconds\n# TYPE oracle_itl_ms_mean gauge\noracle_itl_ms_mean "@) + s.itl_ms@) + "\n\n# HELP oracle_cache_hit_rate Radix KV-cache prefix hit rate (0.0\u{2013}1.0)\n# TYPE oracle_cache_hit_rate gauge\noracle_cache_hit_rate "@).take((((((((((("# HELP oracle_requests_total Total inference requests received\n# TYPE oracle_requests_total counter\noracle_requests_total "@ + decimal(s.requests_total as nat)) + "\n\n# HELP oracle_requests_active Requests currently being processed\n# TYPE oracle_requests_active gauge\noracle_requests_active "@) + decimal(s.requests_active as nat)) + "\n\n# HELP oracle_tokens_generated_total Total tokens generated\n# TYPE oracle_tokens_generated_total counter\noracle_tokens_generated_total "@) + decimal(s.tokens_generated as nat)) + "\n\n# HELP oracle_ttft_ms_mean Mean time-to-first-token in milliseconds\n# TYPE oracle_ttft_ms_mean gauge\noracle_ttft_ms_mean "@) + s.ttft_ms@) + "\n\n# HELP oracle_itl_ms_mean Mean inter-token latency in milliseconds\n# TYPE oracle_itl_ms_mean gauge\noracle_itl_ms_mean "@) + s.itl_ms@) + "\n\n# HELP oracle_cache_hit_rate Radix KV-cache prefix hit rate (0.0\u{2013}1.0)\n# TYPE oracle_cache_hit_rate gauge\noracle_cache_hit_rate "@).len() as int) =~= (((((((((("# HELP oracle_requests_total Total inference requests received\n# TYPE oracle_requests_total counter\noracle_requests_total "@ + decimal(s.requests_total as nat)) + "\n\n# HELP oracle_requests_active Requests currently being processed\n# TYPE oracle_requests_active gauge\noracle_requests_active "@) + decimal(s.requests_active as nat)) + "\n\n# HELP oracle_tokens_generated_total Total tokens generated\n# TYPE oracle_tokens_generated_total counter\noracle_tokens_generated_total "@) + decimal(s.tokens_generated as nat)) + "\n\n# HELP oracle_ttft_ms_mean Mean time-to-first-token in milliseconds\n# TYPE oracle_ttft_ms_mean gauge\noracle_ttft_ms_mean "@) + s.ttft_ms@) + "\n\n# HELP oracle_itl_ms_mean Mean inter-token latency in milliseconds\n# TYPE oracle_itl_ms_mean gauge\noracle_itl_ms_mean "@) + s.itl_ms@) + "\n\n# HELP oracle_cache_hit_rate Radix KV-cache prefix hit rate (0.0\u{2013}1.0)\n# TYPE oracle_cache_hit_rate gauge\noracle_cache_hit_rate "@));
        lemma_prefix_extend((((((((((("# HELP oracle_requests_total Total inference requests received\n# TYPE oracle_requests_total counter\noracle_requests_total "@ + decimal(s.requests_total as nat)) + "\n\n# HELP oracle_requests_active Requests currently being processed\n# TYPE oracle_requests_active gauge\noracle_requests_active "@) + decimal(s.requests_active as nat)) + "\n\n# HELP oracle_tokens_generated_total Total tokens generated\n# TYPE oracle_tokens_generated_total counter\noracle_tokens_generated_total "@) + decimal(s.tokens_generated as nat)) + "\n\n# HELP oracle_ttft_ms_mean Mean time-to-first-token in milliseconds\n# TYPE oracle_ttft_ms_mean gauge\noracle_ttft_ms_mean "@) + s.ttft_ms@) + "\n\n# HELP oracle_itl_ms_mean Mean inter-token latency in milliseconds\n# TYPE oracle_itl_ms_mean gauge\noracle_itl_ms_mean "@) + s.itl_ms@) + "\n\n# HELP oracle_cache_hit_rate Radix KV-cache prefix hit rate (0.0\u{2013}1.0)\n# TYPE oracle_cache_hit_rate gauge\noracle_cache_hit_rate "@), (((((((((("# HELP oracle_requests_total Total inference requests received\n# TYPE oracle_requests_total counter\noracle_requests_total "@ + decimal(s.requests_total as nat)) + "\n\n# HELP oracle_requests_active Requests currently being processed\n# TYPE oracle_requests_active gauge\noracle_requests_active "@) + decimal(s.requests_active as nat)) + "\n\n# HELP oracle_tokens_generated_total Total tokens generated\n# TYPE oracle_tokens_generated_total counter\noracle_tokens_generated_total "@) + decimal(s.tokens_generated as nat)) + "\n\n# HELP oracle_ttft_ms_mean Mean time-to-first-token in milliseconds\n# TYPE oracle_ttft_ms_mean gauge\noracle_ttft_ms_mean "@) + s.ttft_ms@) + "\n\n# HELP oracle_itl_ms_mean Mean inter-token latency in milliseconds\n# TYPE oracle_itl_ms_mean gauge\noracle_itl_ms_mean "@) + s.itl_ms@) + "\n\n# HELP oracle_cache_hit_rate Radix KV-cache prefix hit rate (0.0\u{2013}1.0)\n# TYPE oracle_cache_hit_rate gauge\noracle_cache_hit_rate "@), s.cache_hit_rate@);
        lemma_prefix_extend((((((((((("# HELP oracle_requests_total Total inference requests received\n# TYPE oracle_requests_total counter\noracle_requests_total "@ + decimal(s.requests_total as nat)) + "\n\n# HELP oracle_requests_active Requests currently being processed\n# TYPE oracle_requests_active gauge\noracle_requests_active "@) + decimal(s.requests_active as nat)) + "\n\n# HELP oracle_tokens_generated_total Total tokens generated\n# TYPE oracle_tokens_generated_total counter\noracle_tokens_generated_total "@) + decimal(s.tokens_generated as nat)) + "\n\n# HELP oracle_ttft_ms_mean Mean time-to-first-token in milliseconds\n# TYPE oracle_ttft_ms_mean gauge\noracle_ttft_ms_mean "@) + s.ttft_ms@) + "\n\n# HELP oracle_itl_ms_mean Mean inter-token latency in milliseconds\n# TYPE oracle_itl_ms_mean gauge\noracle_itl_ms_mean "@) + s.itl_ms@) + "\n\n# HELP oracle_cache_hit_rate Radix KV-cache prefix hit rate (0.0\u{2013}1.0)\n# TYPE oracle_cache_hit_rate gauge\noracle_cache_hit_rate "@), ((((((((((("# HELP oracle_requests_total Total inference requests received\n# TYPE oracle_requests_total counter\noracle_requests_total "@ + decimal(s.requests_total as nat)) + "\n\n# HELP oracle_requests_active Requests currently being processed\n# TYPE oracle_requests_active gauge\noracle_requests_active "@) + decimal(s.requests_active as nat)) + "\n\n# HELP oracle_tokens_generated_total Total tokens generated\n# TYPE oracle_tokens_generated_total counter\noracle_tokens_generated_total "@) + decimal(s.tokens_generated as nat)) + "\n\n# HELP oracle_ttft_ms_mean Mean time-to-first-token in milliseconds\n# TYPE oracle_ttft_ms_mean gauge\noracle_ttft_ms_mean "@) + s.ttft_ms@) + "\n\n# HELP oracle_itl_ms_mean Mean inter-token latency in milliseconds\n# TYPE oracle_itl_ms_mean gauge\noracle_itl_ms_mean "@) + s.itl_ms@) + "\n\n# HELP oracle_cache_hit_rate Radix KV-cache prefix hit rate (0.0\u{2013}1.0)\n# TYPE oracle_cache_hit_rate gauge\noracle_cache_hit_rate "@) + s.cache_hit_rate@), "\n\n# HELP oracle_cache_blocks_used KV-cache blocks currently in use\n# TYPE oracle_cache_blocks_used gauge\noracle_cache_blocks_used "@);
        lemma_prefix_extend((((((((((("# HELP oracle_requests_total Total inference requests received\n# TYPE oracle_requests_total counter\noracle_requests_total "@ + decimal(s.requests_total as nat)) + "\n\n# HELP oracle_requests_active Requests currently being processed\n# TYPE oracle_requests_active gauge\noracle_requests_active "@) + decimal(s.requests_active as nat)) + "\n\n# HELP oracle_tokens_generated_total Total tokens generated\n# TYPE oracle_tokens_generated_total counter\noracle_tokens_generated_total "@) + decimal(s.tokens_generated as nat)) + "\n\n# HELP oracle_ttft_ms_mean Mean time-to-first-token in milliseconds\n# TYPE oracle_ttft_ms_mean gauge\noracle_ttft_ms_mean "@) + s.ttft_ms@) + "\n\n# HELP oracle_itl_ms_mean Mean inter-token latency in milliseconds\n# TYPE oracle_itl_ms_mean gauge\noracle_itl_ms_mean "@) + s.itl_ms@) + "\n\n# HELP oracle_cache_hit_rate Radix KV-cache prefix hit rate (0.0\u{2013}1.0)\n# TYPE oracle_cache_hit_rate gauge\noracle_cache_hit_rate "@), (((((((((((("# HELP oracle_requests_total Total inference requests received\n# TYPE oracle_requests_total counter\noracle_requests_total "@ + decimal(s.requests_total as nat)) + "\n\n# HELP oracle_requests_active Requests currently being processed\n# TYPE oracle_requests_active gauge\noracle_requests_active "@) + decimal(s.requests_active as nat)) + "\n\n# HELP oracle_tokens_generated_total Total tokens generated\n# TYPE oracle_tokens_generated_total counter\noracle_tokens_generated_total "@) + decimal(s.tokens_generated as nat)) + "\n\n# HELP oracle_ttft_ms_mean Mean time-to-first-token in milliseconds\n# TYPE oracle_ttft_ms_mean gauge\noracle_ttft_ms_mean "@) + s.ttft_ms@) + "\n\n# HELP oracle_itl_ms_mean Mean inter-token latency in milliseconds\n# TYPE oracle_itl_ms_mean gauge\noracle_itl_ms_mean "@) + s.itl_ms@) + "\n\n# HELP oracle_cache_hit_rate Radix KV-cache prefix hit rate (0.0\u{2013}1.0)\n# TYPE oracle_cache_hit_rate gauge\noracle_cache_hit_rate "@) + s.cache_hit_rate@) + "\n\n# HELP oracle_cache_blocks_used KV-cache blocks currently in use\n# TYPE oracle_cache_blocks_used gauge\noracle_cache_blocks_used "@), decimal(s.cache_blocks_used as nat));
        lemma_prefix_extend((((((((((("# HELP oracle_requests_total Total inference requests received\n# TYPE oracle_requests_total counter\noracle_requests_total "@ + decimal(s.requests_total as nat)) + "\n\n# HELP oracle_requests_active Requests currently being processed\n# TYPE oracle_requests_active gauge\noracle_requests_active "@) + decimal(s.requests_active as nat)) + "\n\n# HELP oracle_tokens_generated_total Total tokens generated\n# TYPE oracle_tokens_generated_total counter\noracle_tokens_generated_total "@) + decimal(s.tokens_generated as nat)) + "\n\n# HELP oracle_ttft_ms_mean Mean time-to-first-token in milliseconds\n# TYPE oracle_ttft_ms_mean gauge\noracle_ttft_ms_mean "@) + s.ttft_ms@) + "\n\n# HELP oracle_itl_ms_mean Mean inter-token latency in milliseconds\n# TYPE oracle_itl_ms_mean gauge\noracle_itl_ms_mean "@) + s.itl_ms@) + "\n\n# HELP oracle_cache_hit_rate Radix KV-cache prefix hit rate (0.0\u{2013}1.0)\n# TYPE oracle_cache_hit_rate gauge\noracle_cache_hit_rate "@), ((((((((((((("# HELP oracle_requests_total Total inference requests received\n# TYPE oracle_requests_total counter\noracle_requests_total "@ + decimal(s.requests_total as nat)) + "\n\n# HELP oracle_requests_active Requests currently being processed\n# TYPE oracle_requests_active gauge\noracle_requests_active "@) + decimal(s.requests_active as nat)) + "\n\n# HELP oracle_tokens_generated_total Total tokens generated\n# TYPE oracle_tokens_generated_total counter\noracle_tokens_generated_total "@) + decimal(s.tokens_generated as nat)) + "\n\n# HELP oracle_ttft_ms_mean Mean time-to-first-token in milliseconds\n# TYPE oracle_ttft_ms_mean gauge\noracle_ttft_ms_mean "@) + s.ttft_ms@) + "\n\n# HELP oracle_itl_ms_mean Mean inter-token latency in milliseconds\n# TYPE oracle_itl_ms_mean gauge\noracle_itl_ms_mean "@) + s.itl_ms@) + "\n\n# HELP oracle_cache_hit_rate Radix KV-cache prefix hit rate (0.0\u{2013}1.0)\n# TYPE oracle_cache_hit_rate gauge\noracle_cache_hit_rate "@) + s.cache_hit_rate@) + "\n\n# HELP oracle_cache_blocks_used KV-cache blocks currently in use\n# TYPE oracle_cache_blocks_used gauge\noracle_cache_blocks_used "@) + decimal(s.cache_blocks_used as nat)), "\n"@);
        lemma_needle(prometheus_page(s), (((((((("# HELP oracle_requests_total Total inference requests received\n# TYPE oracle_requests_total counter\noracle_requests_total "@ + decimal(s.requests_total as nat)) + "\n\n# HELP oracle_requests_active Requests currently being processed\n# TYPE oracle_requests_active gauge\noracle_requests_active "@) + decimal(s.requests_active as nat)) + "\n\n# HELP oracle_tokens_generated_total Total tokens generated\n# TYPE oracle_tokens_generated_total counter\noracle_tokens_generated_total "@) + decimal(s.tokens_generated as nat)) + "\n\n# HELP oracle_ttft_ms_mean Mean time-to-first-token in milliseconds\n# TYPE oracle_ttft_ms_mean gauge\noracle_ttft_ms_mean "@) + s.ttft_ms@) + "\n\n# HELP oracle_itl_ms_mean Mean inter-token latency in milliseconds\n# TYPE oracle_itl_ms_mean gauge\noracle_itl_ms_mean "@), s.itl_ms@, "\n\n# HELP oracle_cache_hit_rate Radix KV-cache prefix hit rate (0.0\u{2013}1.0)\n# TYPE oracle_cache_hit_rate gauge\noracle_cache_hit_rate "@, "\noracle_itl_ms_mean "@);
    }
    assert(shows(prometheus_page(s), "\noracle_cache_hit_rate "@ + s.cache_hit_rate@ + "\n"@)) by {
        lemma_suffix_extend("\noracle_cache_hit_rate "@, ((((((((("# HELP oracle_requests_total Total inference requests received\n# TYPE oracle_requests_total counter\noracle_requests_total "@ + decimal(s.requests_total as nat)) + "\n\n# HELP oracle_requests_active Requests currently being processed\n# TYPE oracle_requests_active gauge\noracle_requests_active "@) + decimal(s.requests_active as nat)) + "\n\n# HELP oracle_tokens_generated_total Total tokens generated\n# TYPE oracle_tokens_generated_total counter\noracle_tokens_generated_total "@) + decimal(s.tokens_generated as nat)) + "\n\n# HELP oracle_ttft_ms_mean Mean time-to-first-token in milliseconds\n# TYPE oracle_ttft_ms_mean gauge\noracle_ttft_ms_mean "@) + s.ttft_ms@) + "\n\n# HELP oracle_itl_ms_mean Mean inter-token latency in milliseconds\n# TYPE oracle_itl_ms_mean gauge\noracle_itl_ms_mean "@) + s.itl_ms@), "\n\n# HELP oracle_cache_hit_rate Radix KV-cache prefix hit rate (0.0\u{2013}1.0)\n# TYPE oracle_cache_hit_rate gauge\noracle_cache_hit_rate "@);
        assert((((((((((((("# HELP oracle_requests_total Total inference requests received\n# TYPE oracle_requests_total counter\noracle_requests_total "@ + decimal(s.requests_total as nat)) + "\n\n# HELP oracle_requests_active Requests currently being processed\n# TYPE oracle_requests_active gauge\noracle_requests_active "@) + decimal(s.requests_active as nat)) + "\n\n# HELP oracle_tokens_generated_total Total tokens generated\n# TYPE oracle_tokens_generated_total counter\noracle_tokens_generated_total "@) + decimal(s.tokens_generated as nat)) + "\n\n# HELP oracle_ttft_ms_mean Mean time-to-first-token in milliseconds\n# TYPE oracle_ttft_ms_mean gauge\noracle_ttft_ms_mean "@) + s.ttft_ms@) + "\n\n# HELP oracle_itl_ms_mean Mean inter-token latency in milliseconds\n# TYPE oracle_itl_ms_mean gauge\noracle_itl_ms_mean "@) + s.itl_ms@) + "\n\n# HELP oracle_cache_hit_rate Radix KV-cache prefix hit rate (0.0\u{2013}1.0)\n# TYPE oracle_cache_hit_rate gauge\noracle_cache_hit_rate "@) + s.cache_hit_rate@) + "\n\n# HELP oracle_cache_blocks_used KV-cache blocks currently in use\n# TYPE oracle_cache_blocks_used gauge\noracle_cache_blocks_used "@).take((((((((((((("# HELP oracle_requests_total Total inference requests received\n# TYPE oracle_requests_total counter\noracle_requests_total "@ + decimal(s.requests_total as nat)) + "\n\n# HELP oracle_requests_active Requests currently being processed\n# TYPE oracle_requests_active gauge\noracle_requests_active "@) + decimal(s.requests_active as nat)) + "\n\n# HELP oracle_tokens_generated_total Total tokens generated\n# TYPE oracle_tokens_generated_total counter\noracle_tokens_generated_total "@) + decimal(s.tokens_generated as nat)) + "\n\n# HELP oracle_ttft_ms_mean Mean time-to-first-token in milliseconds\n# TYPE oracle_ttft_ms_mean gauge\noracle_ttft_ms_mean "@) + s.ttft_ms@) + "\n\n# HELP oracle_itl_ms_mean Mean inter-token latency in milliseconds\n# TYPE oracle_itl_ms_mean gauge\noracle_itl_ms_mean "@) + s.itl_ms@) + "\n\n# HELP oracle_cache_hit_rate Radix KV-cache prefix hit rate (0.0\u{2013}1.0)\n# TYPE oracle_cache_hit_rate gauge\noracle_cache_hit_rate "@) + s.cache_hit_rate@) + "\n\n# HELP oracle_cache_blocks_used KV-cache blocks currently in use\n# TYPE oracle_cache_blocks_used gauge\noracle_cache_blocks_used "@).len() as int) =~= (((((((((((("# HELP oracle_requests_total Total inference requests received\n# TYPE oracle_requests_total counter\noracle_requests_total "@ + decimal(s.requests_total as nat)) + "\n\n# HELP oracle_requests_active Requests currently being processed\n# TYPE oracle_requests_active gauge\noracle_requests_active "@) + decimal(s.requests_active as nat)) + "\n\n# HELP oracle_tokens_generated_total Total tokens generated\n# TYPE oracle_tokens_generated_total counter\noracle_tokens_generated_total "@) + decimal(s.tokens_generated as nat)) + "\n\n# HELP oracle_ttft_ms_mean Mean time-to-first-token in milliseconds\n# TYPE oracle_ttft_ms_mean gauge\noracle_ttft_ms_mean "@) + s.ttft_ms@) + "\n\n# HELP oracle_itl_ms_mean Mean inter-token latency in milliseconds\n# TYPE oracle_itl_ms_mean gauge\noracle_itl_ms_mean "@) + s.itl_ms@) + "\n\n# HELP oracle_cache_hit_rate Radix KV-cache prefix hit rate (0.0\u{2013}1.0)\n# TYPE oracle_cache_hit_rate gauge\noracle_cache_hit_rate "@) + s.cache_hit_rate@) + "\n\n# HELP oracle_cache_blocks_used KV-cache blocks currently in use\n# TYPE oracle_cache_blocks_used gauge\noracle_cache_blocks_used "@));
        lemma_prefix_extend((((((((((((("# HELP oracle_requests_total Total inference requests received\n# TYPE oracle_requests_total counter\noracle_requests_total "@ + decimal(s.requests_total as nat)) + "\n\n# HELP oracle_requests_active Requests currently being processed\n# TYPE oracle_requests_active gauge\noracle_requests_active "@) + decimal(s.requests_active as nat)) + "\n\n# HELP oracle_tokens_generated_total Total tokens generated\n# TYPE oracle_tokens_generated_total counter\noracle_tokens_generated_total "@) + decimal(s.tokens_generated as nat)) + "\n\n# HELP oracle_ttft_ms_mean Mean time-to-first-token in milliseconds\n# TYPE oracle_ttft_ms_mean gauge\noracle_ttft_ms_mean "@) + s.ttft_ms@) + "\n\n# HELP oracle_itl_ms_mean Mean inter-token latency in milliseconds\n# TYPE oracle_itl_ms_mean gauge\noracle_itl_ms_mean "@) + s.itl_ms@) + "\n\n# HELP oracle_cache_hit_rate Radix KV-cache prefix hit rate (0.0\u{2013}1.0)\n# TYPE oracle_cache_hit_rate gauge\noracle_cache_hit_rate "@) + s.cache_hit_rate@) + "\n\n# HELP oracle_cache_blocks_used KV-cache blocks currently in use\n# TYPE oracle_cache_blocks_used gauge\noracle_cache_blocks_used "@), (((((((((((("# HELP oracle_requests_total Total inference requests received\n# TYPE oracle_requests_total counter\noracle_requests_total "@ + decimal(s.requests_total as nat)) + "\n\n# HELP oracle_requests_active Requests currently being processed\n# TYPE oracle_requests_active gauge\noracle_requests_active "@) + decimal(s.requests_active as nat)) + "\n\n# HELP oracle_tokens_generated_total Total tokens generated\n# TYPE oracle_tokens_generated_total counter\noracle_tokens_generated_total "@) + decimal(s.tokens_generated as nat)) + "\n\n# HELP oracle_ttft_ms_mean Mean time-to-first-token in milliseconds\n# TYPE oracle_ttft_ms_mean gauge\noracle_ttft_ms_mean "@) + s.ttft_ms@) + "\n\n# HELP oracle_itl_ms_mean Mean inter-token latency in milliseconds\n# TYPE oracle_itl_ms_mean gauge\noracle_itl_ms_mean "@) + s.itl_ms@) + "\n\n# HELP oracle_cache_hit_rate Radix KV-cache prefix hit rate (0.0\u{2013}1.0)\n# TYPE oracle_cache_hit_rate gauge\noracle_cache_hit_rate "@) + s.cache_hit_rate@) + "\n\n# HELP oracle_cache_blocks_used KV-cache blocks currently in use\n# TYPE oracle_cache_blocks_used gauge\noracle_cache_blocks_used "@), decimal(s.cache_blocks_used as nat));
        lemma_prefix_extend((((((((((((("# HELP oracle_requests_total Total inference requests received\n# TYPE oracle_requests_total counter\noracle_requests_total "@ + decimal(s.requests_total as nat)) + "\n\n# HELP oracle_requests_active Requests currently being processed\n# TYPE oracle_requests_active gauge\noracle_requests_active "@) + decimal(s.requests_active as nat)) + "\n\n# HELP oracle_tokens_generated_total Total tokens generated\n# TYPE oracle_tokens_generated_total counter\noracle_tokens_generated_total "@) + decimal(s.tokens_generated as nat)) + "\n\n# HELP oracle_ttft_ms_mean Mean time-to-first-token in milliseconds\n# TYPE oracle_ttft_ms_mean gauge\noracle_ttft_ms_mean "@) + s.ttft_ms@) + "\n\n# HELP oracle_itl_ms_mean Mean inter-token latency in milliseconds\n# TYPE oracle_itl_ms_mean gauge\noracle_itl_ms_mean "@) + s.itl_ms@) + "\n\n# HELP oracle_cache_hit_rate Radix KV-cache prefix hit rate (0.0\u{2013}1.0)\n# TYPE oracle_cache_hit_rate gauge\noracle_cache_hit_rate "@) + s.cache_hit_rate@) + "\n\n# HELP oracle_cache_blocks_used KV-cache blocks currently in use\n# TYPE oracle_cache_blocks_used gauge\noracle_cache_blocks_used "@), ((((((((((((("# HELP oracle_requests_total Total inference requests received\n# TYPE oracle_requests_total counter\noracle_requests_total "@ + decimal(s.requests_total as nat)) + "\n\n# HELP oracle_requests_active Requests currently being processed\n# TYPE oracle_requests_active gauge\noracle_requests_active "@) + decimal(s.requests_active as nat)) + "\n\n# HELP oracle_tokens_generated_total Total tokens generated\n# TYPE oracle_tokens_generated_total counter\noracle_tokens_generated_total "@) + decimal(s.tokens_generated as nat)) + "\n\n# HELP oracle_ttft_ms_mean Mean time-to-first-token in milliseconds\n# TYPE oracle_ttft_ms_mean gauge\noracle_ttft_ms_mean "@) + s.ttft_ms@) + "\n\n# HELP oracle_itl_ms_mean Mean inter-token latency in milliseconds\n# TYPE oracle_itl_ms_mean gauge\noracle_itl_ms_mean "@) + s.itl_ms@) + "\n\n# HELP oracle_cache_hit_rate Radix KV-cache prefix hit rate (0.0\u{2013}1.0)\n# TYPE oracle_cache_hit_rate gauge\noracle_cache_hit_rate "@) + s.cache_hit_rate@) + "\n\n# HELP oracle_cache_blocks_used KV-cache blocks currently in use\n# TYPE oracle_cache_blocks_used gauge\noracle_cache_blocks_used "@) + decimal(s.cache_blocks_used as nat)), "\n"@);
        lemma_needle(prometheus_page(s), (((((((((("# HELP oracle_requests_total Total inference requests received\n# TYPE oracle_requests_total counter\noracle_requests_total "@ + decimal(s.requests_total as nat)) + "\n\n# HELP oracle_requests_active Requests currently being processed\n# TYPE oracle_requests_active gauge\noracle_requests_active "@) + decimal(s.requests_active as nat)) + "\n\n# HELP oracle_tokens_generated_total Total tokens generated\n# TYPE oracle_tokens_generated_total counter\noracle_tokens_generated_total "@) + decimal(s.tokens_generated as nat)) + "\n\n# HELP oracle_ttft_ms_mean Mean time-to-first-token in milliseconds\n# TYPE oracle_ttft_ms_mean gauge\noracle_ttft_ms_mean "@) + s.ttft_ms@) + "\n\n# HELP oracle_itl_ms_mean Mean inter-token latency in milliseconds\n# TYPE oracle_itl_ms_mean gauge\noracle_itl_ms_mean "@) + s.itl_ms@) + "\n\n# HELP oracle_cache_hit_rate Radix KV-cache prefix hit rate (0.0\u{2013}1.0)\n# TYPE oracle_cache_hit_rate gauge\noracle_cache_hit_rate "@), s.cache_hit_rate@, "\n\n# HELP oracle_cache_blocks_used KV-cache blocks currently in use\n# TYPE oracle_cache_blocks_used gauge\noracle_cache_blocks_used "@, "\noracle_cache_hit_rate "@);
    }
    assert(shows(prometheus_page(s), "\noracle_cache_blocks_used "@ + decimal(s.cache_blocks_used as nat) + "\n"@)) by {
        lemma_suffix_extend("\noracle_cache_blocks_used "@, ((((((((((("# HELP oracle_requests_total Total inference requests received\n# TYPE oracle_requests_total counter\noracle_requests_total "@ + decimal(s.requests_total as nat)) + "\n\n# HELP oracle_requests_active Requests currently being processed\n# TYPE oracle_requests_active gauge\noracle_requests_active "@) + decimal(s.requests_active as nat)) + "\n\n# HELP oracle_tokens_generated_total Total tokens generated\n# TYPE oracle_tokens_generated_total counter\noracle_tokens_generated_total "@) + decimal(s.tokens_generated as nat)) + "\n\n# HELP oracle_ttft_ms_mean Mean time-to-first-token in milliseconds\n# TYPE oracle_ttft_ms_mean gauge\noracle_ttft_ms_mean "@) + s.ttft_ms@) + "\n\n# HELP oracle_itl_ms_mean Mean inter-token latency in milliseconds\n# TYPE oracle_itl_ms_mean gauge\noracle_itl_ms_mean "@) + s.itl_ms@) + "\n\n# HELP oracle_cache_hit_rate Radix KV-cache prefix hit rate (0.0\u{2013}1.0)\n# TYPE oracle_cache_hit_rate gauge\noracle_cache_hit_rate "@) + s.cache_hit_rate@), "\n\n# HELP oracle_cache_blocks_used KV-cache blocks currently in use\n# TYPE oracle_cache_blocks_used gauge\noracle_cache_blocks_used "@);
        assert((((((((((((((("# HELP oracle_requests_total Total inference requests received\n# TYPE oracle_requests_total counter\noracle_requests_total "@ + decimal(s.requests_total as nat)) + "\n\n# HELP oracle_requests_active Requests currently being processed\n# TYPE oracle_requests_active gauge\noracle_requests_active "@) + decimal(s.requests_active as nat)) + "\n\n# HELP oracle_tokens_generated_total Total tokens generated\n# TYPE oracle_tokens_generated_total counter\noracle_tokens_generated_total "@) + decimal(s.tokens_generated as nat)) + "\n\n# HELP oracle_ttft_ms_mean Mean time-to-first-token in milliseconds\n# TYPE oracle_ttft_ms_mean gauge\noracle_ttft_ms_mean "@) + s.ttft_ms@) + "\n\n# HELP oracle_itl_ms_mean Mean inter-token latency in milliseconds\n# TYPE oracle_itl_ms_mean gauge\noracle_itl_ms_mean "@) + s.itl_ms@) + "\n\n# HELP oracle_cache_hit_rate Radix KV-cache prefix hit rate (0.0\u{2013}1.0)\n# TYPE oracle_cache_hit_rate gauge\noracle_cache_hit_rate "@) + s.cache_hit_rate@) + "\n\n# HELP oracle_cache_blocks_used KV-cache blocks currently in use\n# TYPE oracle_cache_blocks_used gauge\noracle_cache_blocks_used "@) + decimal(s.cache_blocks_used as nat)) + "\n"@).take((((((((((((((("# HELP oracle_requests_total Total inference requests received\n# TYPE oracle_requests_total counter\noracle_requests_total "@ + decimal(s.requests_total as nat)) + "\n\n# HELP oracle_requests_active Requests currently being processed\n# TYPE oracle_requests_active gauge\noracle_requests_active "@) + decimal(s.requests_active as nat)) + "\n\n# HELP oracle_tokens_generated_total Total tokens generated\n# TYPE oracle_tokens_generated_total counter\noracle_tokens_generated_total "@) + decimal(s.tokens_generated as nat)) + "\n\n# HELP oracle_ttft_ms_mean Mean time-to-first-token in milliseconds\n# TYPE oracle_ttft_ms_mean gauge\noracle_ttft_ms_mean "@) + s.ttft_ms@) + "\n\n# HELP oracle_itl_ms_mean Mean inter-token latency in milliseconds\n# TYPE oracle_itl_ms_mean gauge\noracle_itl_ms_mean "@) + s.itl_ms@) + "\n\n# HELP oracle_cache_hit_rate Radix KV-cache prefix hit rate (0.0\u{2013}1.0)\n# TYPE oracle_cache_hit_rate gauge\noracle_cache_hit_rate "@) + s.cache_hit_rate@) + "\n\n# HELP oracle_cache_blocks_used KV-cache blocks currently in use\n# TYPE oracle_cache_blocks_used gauge\noracle_cache_blocks_used "@) + decimal(s.cache_blocks_used as nat)) + "\n"@).len() as int) =~= (((((((((((((("# HELP oracle_requests_total Total inference requests received\n# TYPE oracle_requests_total counter\noracle_requests_total "@ + decimal(s.requests_total as nat)) + "\n\n# HELP oracle_requests_active Requests currently being processed\n# TYPE oracle_requests_active gauge\noracle_requests_active "@) + decimal(s.requests_active as nat)) + "\n\n# HELP oracle_tokens_generated_total Total tokens generated\n# TYPE oracle_tokens_generated_total counter\noracle_tokens_generated_total "@) + decimal(s.tokens_generated as nat)) + "\n\n# HELP oracle_ttft_ms_mean Mean time-to-first-token in milliseconds\n# TYPE oracle_ttft_ms_mean gauge\noracle_ttft_ms_mean "@) + s.ttft_ms@) + "\n\n# HELP oracle_itl_ms_mean Mean inter-token latency in milliseconds\n# TYPE oracle_itl_ms_mean gauge\noracle_itl_ms_mean "@) + s.itl_ms@) + "\n\n# HELP oracle_cache_hit_rate Radix KV-cache prefix hit rate (0.0\u{2013}1.0)\n# TYPE oracle_cache_hit_rate gauge\noracle_cache_hit_rate "@) + s.cache_hit_rate@) + "\n\n# HELP oracle_cache_blocks_used KV-cache blocks currently in use\n# TYPE oracle_cache_blocks_used gauge\noracle_cache_blocks_used "@) + decimal(s.cache_blocks_used as nat)) + "\n"@));
        lemma_needle(prometheus_page(s), (((((((((((("# HELP oracle_requests_total Total inference requests received\n# TYPE oracle_requests_total counter\noracle_requests_total "@ + decimal(s.requests_total as nat)) + "\n\n# HELP oracle_requests_active Requests currently being processed\n# TYPE oracle_requests_active gauge\noracle_requests_active "@) + decimal(s.requests_active as nat)) + "\n\n# HELP oracle_tokens_generated_total Total tokens generated\n# TYPE oracle_tokens_generated_total counter\noracle_tokens_generated_total "@) + decimal(s.tokens_generated as nat)) + "\n\n# HELP oracle_ttft_ms_mean Mean time-to-first-token in milliseconds\n# TYPE oracle_ttft_ms_mean gauge\noracle_ttft_ms_mean "@) + s.ttft_ms@) + "\n\n# HELP oracle_itl_ms_mean Mean inter-token latency in milliseconds\n# TYPE oracle_itl_ms_mean gauge\noracle_itl_ms_mean "@) + s.itl_ms@) + "\n\n# HELP oracle_cache_hit_rate Radix KV-cache prefix hit rate (0.0\u{2013}1.0)\n# TYPE oracle_cache_hit_rate gauge\noracle_cache_hit_rate "@) + s.cache_hit_rate@) + "\n\n# HELP oracle_cache_blocks_used KV-cache blocks currently in use\n# TYPE oracle_cache_blocks_used gauge\noracle_cache_blocks_used "@), decimal(s.cache_blocks_used as nat), "\n"@, "\noracle_cache_blocks_used "@);
    }
    lemma_suffix_extend("\noracle_cache_blocks_used "@, ((((((((((("# HELP oracle_requests_total Total inference requests received\n# TYPE oracle_requests_total counter\noracle_requests_total "@ + decimal(s.requests_total as nat)) + "\n\n# HELP oracle_requests_active Requests currently being processed\n# TYPE oracle_requests_active gauge\noracle_requests_active "@) + decimal(s.requests_active as nat)) + "\n\n# HELP oracle_tokens_generated_total Total tokens generated\n# TYPE oracle_tokens_generated_total counter\noracle_tokens_generated_total "@) + decimal(s.tokens_generated as nat)) + "\n\n# HELP oracle_ttft_ms_mean Mean time-to-first-token in milliseconds\n# TYPE oracle_ttft_ms_mean gauge\noracle_ttft_ms_mean "@) + s.ttft_ms@) + "\n\n# HELP oracle_itl_ms_mean Mean inter-token latency in milliseconds\n# TYPE oracle_itl_ms_mean gauge\noracle_itl_ms_mean "@) + s.itl_ms@) + "\n\n# HELP oracle_cache_hit_rate Radix KV-cache prefix hit rate (0.0\u{2013}1.0)\n# TYPE oracle_cache_hit_rate gauge\noracle_cache_hit_rate "@) + s.cache_hit_rate@), "\n\n# HELP oracle_cache_blocks_used KV-cache blocks currently in use\n# TYPE oracle_cache_blocks_used gauge\noracle_cache_blocks_used "@);
    let n = "\noracle_cache_blocks_used "@;
    let b = (((((((((((("# HELP oracle_requests_total Total inference requests received\n# TYPE oracle_requests_total counter\noracle_requests_total "@ + decimal(s.requests_total as nat)) + "\n\n# HELP oracle_requests_active Requests currently being processed\n# TYPE oracle_requests_active gauge\noracle_requests_active "@) + decimal(s.requests_active as nat)) + "\n\n# HELP oracle_tokens_generated_total Total tokens generated\n# TYPE oracle_tokens_generated_total counter\noracle_tokens_generated_total "@) + decimal(s.tokens_generated as nat)) + "\n\n# HELP oracle_ttft_ms_mean Mean time-to-first-token in milliseconds\n# TYPE oracle_ttft_ms_mean gauge\noracle_ttft_ms_mean "@) + s.ttft_ms@) + "\n\n# HELP oracle_itl_ms_mean Mean inter-token latency in milliseconds\n# TYPE oracle_itl_ms_mean gauge\noracle_itl_ms_mean "@) + s.itl_ms@) + "\n\n# HELP oracle_cache_hit_rate Radix KV-cache prefix hit rate (0.0\u{2013}1.0)\n# TYPE oracle_cache_hit_rate gauge\noracle_cache_hit_rate "@) + s.cache_hit_rate@) + "\n\n# HELP oracle_cache_blocks_used KV-cache blocks currently in use\n# TYPE oracle_cache_blocks_used gauge\noracle_cache_blocks_used "@);
    let line = "\noracle_cache_blocks_used "@ + decimal(s.cache_blocks_used as nat) + "\n"@;
    let page = prometheus_page(s);
    assert(page.skip(page.len() - line.len()) =~= line) by {
        assert forall|j: int| 0 <= j < n.len() implies b.skip(b.len() - n.len())[j] == n[j] by {}
    }
}

/// The Prometheus text exposition of a snapshot.
pub fn prometheus_text_of(s: &MetricsSnapshot) -> (r: String)
    ensures
        r@ == prometheus_page(*s),
{
    let mut t = String::from_str(
        "# HELP oracle_requests_total Total inference requests received\n# TYPE oracle_requests_total counter\noracle_requests_total ",
    );
    crate::text::push_decimal(&mut t, s.requests_total);
    t.append(
        "\n\n# HELP oracle_requests_active Requests currently being processed\n# TYPE oracle_requests_active gauge\noracle_requests_active ",
    );
    crate::text::push_decimal(&mut t, s.requests_active);
    t.append(
        "\n\n# HELP oracle_tokens_generated_total Total tokens generated\n# TYPE oracle_tokens_generated_total counter\noracle_tokens_generated_total ",
    );
    crate::text::push_decimal(&mut t, s.tokens_generated);
    t.append(
        "\n\n# HELP oracle_ttft_ms_mean Mean time-to-first-token in milliseconds\n# TYPE oracle_ttft_ms_mean gauge\noracle_ttft_ms_mean ",
    );
    t.append(s.ttft_ms.as_str());
    t.append(
        "\n\n# HELP oracle_itl_ms_mean Mean inter-token latency in milliseconds\n# TYPE oracle_itl_ms_mean gauge\noracle_itl_ms_mean ",
    );
    t.append(s.itl_ms.as_str());
    t.append(
        "\n\n# HELP oracle_cache_hit_rate Radix KV-cache prefix hit rate (0.0\u{2013}1.0)\n# TYPE oracle_cache_hit_rate gauge\noracle_cache_hit_rate ",
    );
    t.append(s.cache_hit_rate.as_str());
    t.append(
        "\n\n# HELP oracle_cache_blocks_used KV-cache blocks currently in use\n# TYPE oracle_cache_blocks_used gauge\noracle_cache_blocks_used ",
    );
    crate::text::push_decimal(&mut t, s.cache_blocks_used);
    t.append("\n");
    t
}

} // verus!
