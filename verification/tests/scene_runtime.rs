use scene_core::scene::{
    RendererResponse, SceneId, SceneLogLevel, SceneResponse, SceneRuntime,
};
use scene_core::state::{SceneStateStore, StateEntry, StateKey};
use scene_core::wire::encode_batch;

fn entry(entity: u32, component: u32, version: u32, value: &[u8]) -> StateEntry {
    StateEntry { key: StateKey { entity, component }, version, value: value.to_vec() }
}

#[test]
fn invalid_scene_id_is_the_sentinel() {
    assert_eq!(SceneId::invalid(), SceneId(-1));
    assert_ne!(SceneId::invalid(), SceneId(0));
}

#[test]
fn snapshot_is_replayed_and_reported_before_any_tick() {
    let mut runtime: SceneRuntime<()> = SceneRuntime::new(SceneId(4));
    let mut store = SceneStateStore::new();
    runtime.begin_loading();
    let snapshot = encode_batch(&vec![entry(1, 1, 1, b"a"), entry(2, 1, 1, b"b")]);
    let resp = runtime.on_snapshot(&mut store, &snapshot).expect("well-formed snapshot");
    match resp {
        SceneResponse::Tick { scene_id, dirty, logs, elapsed_us, rpc_calls } => {
            assert_eq!(scene_id, SceneId(4));
            assert_eq!(elapsed_us, 0);
            assert!(logs.is_empty());
            assert!(rpc_calls.is_empty());
            assert_eq!(dirty.len(), 2);
            assert!(dirty.contains(&StateKey { entity: 1, component: 1 }));
            assert!(dirty.contains(&StateKey { entity: 2, component: 1 }));
        },
        other => panic!("expected the initial tick message, got {:?}", other),
    }
}

#[test]
fn malformed_snapshot_fails_loading() {
    let mut runtime: SceneRuntime<()> = SceneRuntime::new(SceneId(4));
    let mut store = SceneStateStore::new();
    runtime.begin_loading();
    assert!(runtime.on_snapshot(&mut store, &vec![1, 2, 3]).is_err());
}

#[test]
fn missing_script_is_a_fatal_startup_error() {
    let mut runtime: SceneRuntime<()> = SceneRuntime::new(SceneId(5));
    runtime.begin_loading();
    let resp = runtime.on_missing_script(&String::from("scene/main.js"));
    match resp {
        SceneResponse::Error(id, message) => {
            assert_eq!(id, SceneId(5));
            assert_eq!(message, "scene script not found: scene/main.js");
        },
        other => panic!("expected a startup error, got {:?}", other),
    }
}

#[test]
fn startup_error_reports_once() {
    let mut runtime: SceneRuntime<()> = SceneRuntime::new(SceneId(6));
    runtime.begin_loading();
    let resp = runtime.on_startup_error(String::from("entry point is not a function"));
    match resp {
        SceneResponse::Error(id, message) => {
            assert_eq!(id, SceneId(6));
            assert_eq!(message, "entry point is not a function");
        },
        other => panic!("expected a startup error, got {:?}", other),
    }
}

#[test]
fn dt_is_never_negative_and_elapsed_is_monotone() {
    let mut runtime: SceneRuntime<()> = SceneRuntime::new(SceneId(1));
    runtime.begin_loading();
    runtime.start_running();
    // Clock readings, including one going backwards.
    assert_eq!(runtime.begin_tick(1_000), 1_000);
    assert_eq!(runtime.begin_tick(5_000), 4_000);
    // An inconsistent readback falls back to a zero delta, never negative.
    assert_eq!(runtime.begin_tick(3_000), 0);
    assert_eq!(runtime.begin_tick(5_500), 500);
}

#[test]
fn a_tick_reports_its_side_effects_and_drains_them() {
    let mut runtime: SceneRuntime<()> = SceneRuntime::new(SceneId(2));
    let mut store = SceneStateStore::new();
    runtime.begin_loading();
    runtime.start_running();
    let dt = runtime.begin_tick(2_000);
    assert_eq!(dt, 2_000);
    store.ingest(&vec![entry(3, 3, 1, b"z")]);
    runtime.push_log(SceneLogLevel::Log, String::from("hello"));
    runtime.push_log(SceneLogLevel::SceneError, String::from("oops"));
    let resp = runtime.end_tick(&mut store, true).expect("a successful tick reports");
    match resp {
        SceneResponse::Tick { scene_id, dirty, logs, elapsed_us, rpc_calls } => {
            assert_eq!(scene_id, SceneId(2));
            assert_eq!(dirty, vec![StateKey { entity: 3, component: 3 }]);
            assert_eq!(logs.len(), 2);
            assert_eq!(logs[0].message, "hello");
            assert_eq!(logs[0].timestamp_us, 2_000);
            assert_eq!(logs[0].level, SceneLogLevel::Log);
            assert_eq!(logs[1].level, SceneLogLevel::SceneError);
            assert_eq!(elapsed_us, 2_000);
            assert!(rpc_calls.is_empty());
        },
        other => panic!("expected a tick message, got {:?}", other),
    }
    // Drained: the next tick reports nothing old.
    let _ = runtime.begin_tick(2_500);
    match runtime.end_tick(&mut store, true).expect("tick") {
        SceneResponse::Tick { dirty, logs, .. } => {
            assert!(dirty.is_empty());
            assert!(logs.is_empty());
        },
        other => panic!("expected a tick message, got {:?}", other),
    }
}

#[test]
fn a_script_error_is_fatal_to_this_scene_only() {
    let mut runtime: SceneRuntime<()> = SceneRuntime::new(SceneId(3));
    let mut store = SceneStateStore::new();
    runtime.begin_loading();
    runtime.start_running();
    let _ = runtime.begin_tick(100);
    runtime.push_log(SceneLogLevel::SceneError, String::from("stack trace"));
    assert!(runtime.end_tick(&mut store, false).is_none());
    // Teardown: the removal notice carries the trailing logs.
    match runtime.finish() {
        SceneResponse::Remove(id, logs) => {
            assert_eq!(id, SceneId(3));
            assert_eq!(logs.len(), 1);
            assert_eq!(logs[0].message, "stack trace");
        },
        other => panic!("expected the removal notice, got {:?}", other),
    }
}

#[test]
fn a_kill_message_ends_the_loop_after_the_tick() {
    let mut runtime: SceneRuntime<()> = SceneRuntime::new(SceneId(9));
    let mut store = SceneStateStore::new();
    runtime.begin_loading();
    runtime.start_running();
    runtime.on_renderer_message(&mut store, RendererResponse::Kill).expect("kill always lands");
    let _ = runtime.begin_tick(50);
    assert!(runtime.end_tick(&mut store, true).is_some());
    match runtime.finish() {
        SceneResponse::Remove(id, _) => assert_eq!(id, SceneId(9)),
        other => panic!("expected the removal notice, got {:?}", other),
    }
}

#[test]
fn an_external_delta_merges_like_any_other_batch() {
    let mut runtime: SceneRuntime<()> = SceneRuntime::new(SceneId(9));
    let mut store = SceneStateStore::new();
    let delta = encode_batch(&vec![entry(5, 5, 2, b"ext")]);
    runtime
        .on_renderer_message(&mut store, RendererResponse::Delta(delta))
        .expect("well-formed delta");
    let stored = store.lookup(StateKey { entity: 5, component: 5 }).expect("merged");
    assert_eq!(stored.value, b"ext".to_vec());
    assert_eq!(store.take_dirty(), vec![StateKey { entity: 5, component: 5 }]);
}
