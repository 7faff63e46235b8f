//! Tests of the metrics and of the text functions underneath.

use fluux_agent::actors::observability::{
    add_counter, add_gauge, configure, emit_snapshot, inc_counter, observe_actor_latency,
    observe_duration, observe_ms, set_gauge, spawn_exporter, Histogram, MetricsState,
};
use fluux_agent::config::ActorObservabilityConfig;
use fluux_agent::text;
use fluux_agent::text_map::TextMap;
use fluux_agent::time::Duration;

fn enabled() -> MetricsState {
    let mut state = MetricsState::default();
    configure(
        &mut state,
        &ActorObservabilityConfig {
            metrics_enabled: true,
            queue_depth_export_interval_secs: 0,
            slow_actor_warn_ms: 0,
        },
    );
    state
}

#[test]
fn values_fall_into_buckets() {
    let mut h = Histogram::with_bucket_count();
    for v in [0, 1, 2, 30, 10_001, u64::MAX] {
        h.observe(v);
    }
    assert_eq!(h.count, 6);
    assert_eq!(h.max_ms, u64::MAX);
    assert_eq!(h.sum_ms, u64::MAX);
    let shown = h.snapshot();
    assert_eq!(shown.buckets.len(), 13);
    assert_eq!(shown.buckets.get("le_1ms"), Some(&2));
    assert_eq!(shown.buckets.get("le_2ms"), Some(&1));
    assert_eq!(shown.buckets.get("le_50ms"), Some(&1));
    assert_eq!(shown.buckets.get("gt_5000ms"), Some(&2));
    let total: u64 = shown.buckets.keys().iter().map(|k| *shown.buckets.get(k).unwrap()).sum();
    assert_eq!(total, 6);
}

#[test]
fn settings_are_at_least_one() {
    let state = enabled();
    assert_eq!(spawn_exporter(&state), Some(1));
    assert_eq!(state.slow_actor_warn_ms, 1);
    let mut off = enabled();
    configure(
        &mut off,
        &ActorObservabilityConfig {
            metrics_enabled: false,
            queue_depth_export_interval_secs: 9,
            slow_actor_warn_ms: 9,
        },
    );
    assert_eq!(spawn_exporter(&off), None);
}

#[test]
fn counters_and_gauges_add_up() {
    let mut state = enabled();
    inc_counter(&mut state, "c");
    add_counter(&mut state, "c", 4);
    add_counter(&mut state, "d", u64::MAX);
    inc_counter(&mut state, "d");
    set_gauge(&mut state, "g", 5);
    add_gauge(&mut state, "g", -7);
    add_gauge(&mut state, "h", 2);
    observe_ms(&mut state, "m", 3);
    observe_duration(&mut state, "m", Duration::from_secs(1));
    let shown = emit_snapshot(&state).unwrap();
    assert_eq!(shown.counters.get("c"), Some(&5));
    assert_eq!(shown.counters.get("d"), Some(&u64::MAX));
    assert_eq!(shown.gauges.get("g"), Some(&0));
    assert_eq!(shown.gauges.get("h"), Some(&2));
    let m = shown.histograms.get("m").unwrap();
    assert_eq!((m.count, m.sum_ms, m.max_ms), (2, 1003, 1000));
    assert!(shown.exported_at_ms > 1_600_000_000_000);
}

#[test]
fn switched_off_metrics_stand_still() {
    let mut state = enabled();
    inc_counter(&mut state, "c");
    state.enabled = false;
    inc_counter(&mut state, "c");
    set_gauge(&mut state, "g", 1);
    observe_ms(&mut state, "m", 1);
    assert!(emit_snapshot(&state).is_none());
    state.enabled = true;
    let shown = emit_snapshot(&state).unwrap();
    assert_eq!(shown.counters.get("c"), Some(&1));
    assert_eq!(shown.gauges.len(), 0);
    assert_eq!(shown.histograms.len(), 0);
}

#[test]
fn slow_actors_are_told_apart() {
    let mut state = enabled();
    state.slow_actor_warn_ms = 100;
    assert!(!observe_actor_latency(&mut state, "router", Duration::from_millis(99)));
    assert!(observe_actor_latency(&mut state, "router", Duration::from_millis(100)));
    let shown = emit_snapshot(&state).unwrap();
    assert_eq!(shown.histograms.keys().len(), 1);
}

// ---- text ---------------------------------------------------------------

#[test]
fn white_space_is_that_of_unicode() {
    for c in '\0'..=char::MAX {
        assert_eq!(text::is_white_space(c), c.is_whitespace(), "{:x}", c as u32);
    }
}

#[test]
fn texts_are_trimmed_and_lowered() {
    for s in ["", "  ", "\u{3000}a b\u{2003}\n", "ÄÖ Straße ΣΑΣ", "İI", "plain"] {
        assert_eq!(text::trim(s), s.trim());
        assert_eq!(text::trim_start(s), s.trim_start());
        assert_eq!(text::blank(s), s.trim().is_empty());
        assert_eq!(text::to_lower(s), s.to_lowercase());
        assert_eq!(text::to_ascii_lower(s), s.to_ascii_lowercase());
    }
}

#[test]
fn texts_are_searched() {
    assert!(text::contains("abcabd", "abd"));
    assert!(text::contains("x", ""));
    assert!(!text::contains("ab", "abc"));
    assert_eq!(text::find("abcabd", "abd"), Some(3));
    assert_eq!(text::find("äöü", "ü"), Some(2));
    assert!(text::starts_with("äb", "ä"));
    assert!(text::ends_with("äb", "b"));
    assert_eq!(text::split_at_char("a,,b", ','), vec!["a", "", "b"]);
    assert_eq!(text::join(&vec!["a".to_string(), "b".to_string()], ", "), "a, b");
}

#[test]
fn numbers_are_written_and_read() {
    for n in [0, 7, 10, 99, 1_000_000, u64::MAX] {
        assert_eq!(text::number(n), n.to_string());
    }
    for s in ["", "+", "+7", "-0", "007", "18446744073709551616", "18446744073709551615", "1 "] {
        assert_eq!(text::parse_usize(s), s.parse::<usize>().ok());
    }
}

#[test]
fn maps_keep_one_value_for_a_key() {
    let mut m: TextMap<u64> = TextMap::new();
    m.insert("b".to_string(), 1);
    m.insert("a".to_string(), 2);
    m.insert("b".to_string(), 3);
    assert_eq!(m.len(), 2);
    assert_eq!(m.get("b"), Some(&3));
    assert_eq!(m.remove("b"), Some(3));
    assert!(!m.contains_key("b"));
    assert_eq!(m.remove("b"), None);
}
