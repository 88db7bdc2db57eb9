use xbp_monitoring::app_state::{monitors, AppState, CheckKind};
use xbp_monitoring::config::{Config, Probe, Schedule, Story, StoryStep};
use xbp_monitoring::history::{CheckResult, ResultStore, RESULT_LIMIT};
use xbp_monitoring::status::MonitorStatus;

fn probe(name: &str, initial_delay: u64, interval: u64) -> Probe {
    Probe {
        name: name.to_string(),
        url: "https://example.com/health".to_string(),
        http_method: "GET".to_string(),
        body: None,
        headers: vec![],
        schedule: Schedule { initial_delay, interval },
        sensitive: false,
        tags: vec![("team".to_string(), "core".to_string())],
    }
}

fn story(name: &str, initial_delay: u64, interval: u64) -> Story {
    Story {
        name: name.to_string(),
        steps: vec![StoryStep {
            name: "step".to_string(),
            url: "https://example.com/login".to_string(),
            http_method: "POST".to_string(),
            body: Some("{}".to_string()),
            headers: vec![("content-type".to_string(), "application/json".to_string())],
        }],
        schedule: Schedule { initial_delay, interval },
    }
}

fn ok_result(name: &str, at: i64) -> CheckResult {
    CheckResult {
        name: name.to_string(),
        status: MonitorStatus::Success,
        timestamp_ms: at,
        status_code: 200,
        detail: None,
    }
}

fn run_once(state: &mut AppState, task: usize, now_ms: u64, at: i64, name: &str) -> bool {
    match state.begin_check(task, now_ms) {
        Some(d) => state.complete_check(d, ok_result(name, at), now_ms),
        None => false,
    }
}

#[test]
fn scenario_health_probe_ticks_reload_and_eviction() {
    let config = Config { probes: vec![probe("health", 0, 60), probe("api", 0, 60)], stories: vec![] };
    let mut state = AppState::new(config, "xbp.yaml".to_string());
    state.start_monitoring(0);
    let health = "health".to_string();

    assert!(run_once(&mut state, 0, 0, 1, "health"));
    let h = state.probe_history(&health);
    assert_eq!(1, h.len());
    assert_eq!(MonitorStatus::Success, h[0].status);

    assert!(run_once(&mut state, 0, 61_000, 2, "health"));
    assert_eq!(2, state.probe_history(&health).len());

    let r = state.reload(Ok(Config { probes: vec![probe("api", 0, 60)], stories: vec![] }), 62_000);
    assert!(r.is_ok());
    assert!(state.probe_history(&health).is_empty());

    let api = "api".to_string();
    for i in 0..150 {
        state.add_probe_result(api.clone(), ok_result("api", i));
    }
    let h = state.probe_history(&api);
    assert_eq!(100, h.len());
    assert_eq!(50, h[0].timestamp_ms);
    assert_eq!(149, h[99].timestamp_ms);
}

#[test]
fn history_is_bounded_and_keeps_the_latest_in_order() {
    let mut store = ResultStore::new();
    let name = "p".to_string();
    for i in 0..(RESULT_LIMIT as i64 + 7) {
        store.record(name.clone(), ok_result("p", i));
    }
    let h = store.snapshot(&name);
    assert_eq!(RESULT_LIMIT, h.len());
    for (k, r) in h.iter().enumerate() {
        assert_eq!(k as i64 + 7, r.timestamp_ms);
    }
    assert!(store.snapshot(&"other".to_string()).is_empty());
}

#[test]
fn history_under_the_limit_keeps_everything() {
    let mut store = ResultStore::new();
    let name = "p".to_string();
    for i in 0..3 {
        store.record(name.clone(), ok_result("p", i));
    }
    let h = store.snapshot(&name);
    assert_eq!(vec![0, 1, 2], h.iter().map(|r| r.timestamp_ms).collect::<Vec<_>>());
}

#[test]
fn retain_names_drops_only_removed_histories() {
    let mut store = ResultStore::new();
    for n in ["a", "b", "c"] {
        store.record(n.to_string(), ok_result(n, 1));
        store.record(n.to_string(), ok_result(n, 2));
    }
    store.retain_names(&vec!["a".to_string(), "c".to_string()]);
    assert_eq!(2, store.snapshot(&"a".to_string()).len());
    assert!(store.snapshot(&"b".to_string()).is_empty());
    assert_eq!(2, store.snapshot(&"c".to_string()).len());
}

#[test]
fn reload_prunes_removed_and_keeps_retained_histories() {
    let config = Config {
        probes: vec![probe("A", 0, 10), probe("B", 0, 10), probe("C", 0, 10)],
        stories: vec![],
    };
    let mut state = AppState::new(config, "xbp.yaml".to_string());
    state.start_monitoring(0);
    for (i, n) in ["A", "B", "C"].iter().enumerate() {
        assert!(run_once(&mut state, i, 0, 5, n));
    }
    let r = state
        .reload(Ok(Config { probes: vec![probe("A", 0, 10), probe("C", 0, 10)], stories: vec![] }), 1)
        .unwrap();
    assert!(r.reloaded);
    assert_eq!(vec!["A".to_string(), "C".to_string()], r.probes);
    assert!(r.stories.is_empty());
    assert_eq!(1, state.probe_history(&"A".to_string()).len());
    assert!(state.probe_history(&"B".to_string()).is_empty());
    assert_eq!(5, state.probe_history(&"C".to_string())[0].timestamp_ms);
    assert_eq!(2, state.task_count());
}

#[test]
fn failed_reload_leaves_everything_untouched() {
    let config = Config { probes: vec![probe("A", 0, 10)], stories: vec![story("S", 0, 10)] };
    let mut state = AppState::new(config, "xbp.yaml".to_string());
    state.start_monitoring(0);
    assert!(run_once(&mut state, 0, 0, 1, "A"));
    let err = state.reload(Err("bad yaml".to_string()), 5).unwrap_err();
    assert_eq!("bad yaml", err.error);
    assert_eq!(1, state.probe_history(&"A".to_string()).len());
    assert_eq!(2, state.task_count());
    assert_eq!("A", state.config().probes[0].name);
    let m = monitors(&state);
    assert_eq!(vec!["A".to_string()], m.probes);
    assert_eq!(vec!["S".to_string()], m.stories);
}

#[test]
fn reload_replaces_configuration_wholly() {
    let mut state = AppState::new(Config { probes: vec![probe("old", 0, 10)], stories: vec![] }, "x".to_string());
    state
        .reload(Ok(Config { probes: vec![probe("new", 0, 10)], stories: vec![story("s", 0, 1)] }), 0)
        .unwrap();
    let c = state.config();
    assert_eq!(1, c.probes.len());
    assert_eq!("new", c.probes[0].name);
    assert_eq!("s", c.stories[0].name);
}

#[test]
fn no_second_execution_while_one_is_in_flight() {
    let mut state = AppState::new(Config { probes: vec![probe("slow", 0, 1)], stories: vec![] }, "x".to_string());
    state.start_monitoring(0);
    let d = state.begin_check(0, 0).unwrap();
    assert_eq!(CheckKind::Probe, d.kind);
    assert_eq!(0, d.index);
    assert!(state.begin_check(0, 5_000).is_none());
    assert!(state.begin_check(0, 60_000).is_none());
    assert!(state.complete_check(d, ok_result("slow", 1), 60_000));
    assert!(state.begin_check(0, 60_999).is_none());
    assert!(state.begin_check(0, 61_000).is_some());
}

#[test]
fn initial_delay_is_respected() {
    let mut state = AppState::new(Config { probes: vec![], stories: vec![story("s", 30, 60)] }, "x".to_string());
    state.start_monitoring(1_000);
    assert!(state.begin_check(0, 30_999).is_none());
    let d = state.begin_check(0, 31_000).unwrap();
    assert_eq!(CheckKind::Story, d.kind);
    assert!(state.complete_check(d, ok_result("s", 1), 31_500));
    assert_eq!(1, state.story_history(&"s".to_string()).len());
    assert!(state.probe_history(&"s".to_string()).is_empty());
}

#[test]
fn zero_interval_runs_back_to_back() {
    let mut state = AppState::new(Config { probes: vec![probe("p", 0, 0)], stories: vec![] }, "x".to_string());
    state.start_monitoring(0);
    assert!(run_once(&mut state, 0, 10, 1, "p"));
    assert!(run_once(&mut state, 0, 10, 2, "p"));
    assert_eq!(2, state.probe_history(&"p".to_string()).len());
}

#[test]
fn nothing_is_recorded_after_stop() {
    let mut state = AppState::new(Config { probes: vec![probe("p", 0, 1)], stories: vec![] }, "x".to_string());
    state.start_monitoring(0);
    let d = state.begin_check(0, 0).unwrap();
    state.stop_monitoring();
    assert_eq!(0, state.task_count());
    assert!(!state.complete_check(d, ok_result("p", 1), 100_000));
    assert!(state.begin_check(0, 100_000).is_none());
    assert!(state.probe_history(&"p".to_string()).is_empty());
    state.start_monitoring(200_000);
    assert!(!state.complete_check(d, ok_result("p", 2), 200_000));
    assert!(run_once(&mut state, 0, 200_000, 3, "p"));
    assert_eq!(3, state.probe_history(&"p".to_string())[0].timestamp_ms);
}

#[test]
fn huge_delays_saturate() {
    let mut state = AppState::new(Config { probes: vec![probe("p", u64::MAX, 1)], stories: vec![] }, "x".to_string());
    state.start_monitoring(5);
    assert!(state.begin_check(0, u64::MAX - 1).is_none());
    assert!(state.begin_check(0, u64::MAX).is_some());
}

#[test]
fn add_story_result_appends() {
    let mut state = AppState::new(Config { probes: vec![], stories: vec![] }, "cfg.yaml".to_string());
    state.add_story_result("s".to_string(), ok_result("s", 9));
    assert_eq!(9, state.story_history(&"s".to_string())[0].timestamp_ms);
    assert_eq!("cfg.yaml", state.config_path());
}
