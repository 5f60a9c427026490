//! Per-scene execution lifecycle: the state machine the host's scene thread
//! drives, the message protocol between a scene and the renderer, and the
//! tick clock.
//!
//! The host owns one thread per scene. The thread builds a script engine,
//! loads and replays a persisted snapshot, runs the script's start entry
//! point and then ticks it; every decision along the way — what to emit,
//! when to terminate, how much time a tick is handed — is taken here, from
//! plain values the host feeds in.

use vstd::prelude::*;

use crate::rpc::RpcCall;
use crate::state::{
    apply_batch, dirtied, take_dirty_transition, SceneStateStore, StateKey,
};
use crate::wire::{parse_batch, SnapshotDecodeError};
use vstd::string::StringExecFns;

verus! {

/// Scene identity: an opaque small integer, stable for the scene's lifetime.
/// The reserved sentinel (see [`SceneId::invalid`]) denotes "no scene".
#[derive(Default, PartialEq, Eq, PartialOrd, Ord, Hash, Clone, Copy, Debug, Structural)]
pub struct SceneId(pub i32);

impl SceneId {
    /// The reserved sentinel denoting "invalid / no scene".
    pub fn invalid() -> (r: SceneId)
        ensures
            r.0 == -1i32,
    {
        SceneId(-1)
    }
}

/// One world parcel, as integer grid coordinates.
#[derive(Clone, Copy, PartialEq, Eq, Debug, Structural)]
pub struct Parcel {
    pub x: i32,
    pub y: i32,
}

/// Scene metadata, as the host resolves it: file paths, placement and the
/// raw metadata text.
#[derive(Clone, Debug)]
pub struct SceneDefinition {
    pub entity_id: String,
    pub path: String,
    pub main_crdt_path: String,
    pub base: Parcel,
    pub visible: bool,
    pub title: String,
    pub parcels: Vec<Parcel>,
    pub is_global: bool,
    pub metadata: String,
}

/// Severity of one buffered log record.
#[derive(Clone, Copy, PartialEq, Eq, Debug, Structural)]
pub enum SceneLogLevel {
    Log,
    SceneError,
}

/// One buffered log record, stamped with the scene's elapsed time in
/// microseconds.
#[derive(Clone, Debug)]
pub struct SceneLogMessage {
    pub timestamp_us: u64,
    pub level: SceneLogLevel,
    pub message: String,
}

/// Renderer-to-scene message, delivered over a mailbox of depth one: apply
/// an external state delta — a batch in the live wire format — or terminate.
#[derive(Debug)]
pub enum RendererResponse {
    Delta(Vec<u8>),
    Kill,
}

/// Scene-to-renderer message: a successful tick with its observable side
/// effects, a fatal startup or tick error, or the final removal notice that
/// ends the scene's life.
#[derive(Debug)]
pub enum SceneResponse<T> {
    Error(SceneId, String),
    Tick {
        scene_id: SceneId,
        dirty: Vec<StateKey>,
        logs: Vec<SceneLogMessage>,
        elapsed_us: u64,
        rpc_calls: Vec<RpcCall<T>>,
    },
    Remove(SceneId, Vec<SceneLogMessage>),
}

/// Lifecycle of one scene.
#[derive(Clone, Copy, PartialEq, Eq, Debug, Structural)]
pub enum ScenePhase {
    Uninitialized,
    Loading,
    Running,
    Terminating,
    Terminated,
}

/// The per-scene state machine; `T` is the host's reply-channel handle, held
/// opaquely inside queued outbound calls.
pub struct SceneRuntime<T> {
    scene_id: SceneId,
    phase: ScenePhase,
    elapsed_us: u64,
    dying: bool,
    logs: Vec<SceneLogMessage>,
    rpc_calls: Vec<RpcCall<T>>,
}

impl<T> SceneRuntime<T> {
    pub closed spec fn id(self) -> SceneId {
        self.scene_id
    }

    pub closed spec fn phase(self) -> ScenePhase {
        self.phase
    }

    /// Elapsed scene time in microseconds, accumulated over the ticks.
    pub closed spec fn elapsed(self) -> u64 {
        self.elapsed_us
    }

    /// The cooperative "scene dying" flag.
    pub closed spec fn dying(self) -> bool {
        self.dying
    }

    pub closed spec fn log_seq(self) -> Seq<SceneLogMessage> {
        self.logs@
    }

    pub closed spec fn rpc_seq(self) -> Seq<RpcCall<T>> {
        self.rpc_calls@
    }

    pub fn new(scene_id: SceneId) -> (r: SceneRuntime<T>)
        ensures
            r.id() == scene_id,
            r.phase() == ScenePhase::Uninitialized,
            r.elapsed() == 0,
            !r.dying(),
            r.log_seq() == Seq::<SceneLogMessage>::empty(),
            r.rpc_seq() == Seq::<RpcCall<T>>::empty(),
    {
        let r = SceneRuntime {
            scene_id,
            phase: ScenePhase::Uninitialized,
            elapsed_us: 0,
            dying: false,
            logs: Vec::new(),
            rpc_calls: Vec::new(),
        };
        proof {
            assert(r.logs@ =~= Seq::<SceneLogMessage>::empty());
            assert(r.rpc_calls@ =~= Seq::<RpcCall<T>>::empty());
        }
        r
    }

    /// Where the scene stands in its lifecycle.
    pub fn current_phase(&self) -> (r: ScenePhase)
        ensures
            r == self.phase(),
    {
        self.phase
    }

    /// The thread has started and loading begins.
    pub fn begin_loading(&mut self)
        requires
            old(self).phase() == ScenePhase::Uninitialized,
        ensures
            final(self).phase() == ScenePhase::Loading,
            final(self).id() == old(self).id(),
            final(self).elapsed() == old(self).elapsed(),
            final(self).dying() == old(self).dying(),
            final(self).log_seq() == old(self).log_seq(),
            final(self).rpc_seq() == old(self).rpc_seq(),
    {
        self.phase = ScenePhase::Loading;
    }

    /// Replays a persisted snapshot into the store and emits the initial
    /// successful-tick message (elapsed zero) so the renderer materializes
    /// the initial state before any script code runs. Malformed bytes fail
    /// with a decode error and mutate nothing.
    pub fn on_snapshot(&mut self, store: &mut SceneStateStore, bytes: &Vec<u8>) -> (r: Result<
        SceneResponse<T>,
        SnapshotDecodeError,
    >)
        requires
            old(self).phase() == ScenePhase::Loading,
            old(store).inv(),
        ensures
            final(store).inv(),
            *final(self) == *old(self),
            r is Ok <==> parse_batch(bytes@) is Some,
            r is Err ==> *final(store) == *old(store),
            r is Ok ==> {
                let resp = r.unwrap();
                &&& final(store)@ == apply_batch(old(store)@, parse_batch(bytes@).unwrap())
                &&& final(store).dirty_set() == Set::<StateKey>::empty()
                &&& resp is Tick
                &&& resp->scene_id == old(self).id()
                &&& resp->dirty@.to_set() == old(store).dirty_set().union(
                    dirtied(old(store)@, parse_batch(bytes@).unwrap()),
                )
                &&& resp->logs@ == Seq::<SceneLogMessage>::empty()
                &&& resp->elapsed_us == 0
                &&& resp->rpc_calls@ == Seq::<RpcCall<T>>::empty()
            },
    {
        match store.snapshot_replay(bytes) {
            Ok(()) => {
                let dirty = store.take_dirty();
                Ok(SceneResponse::Tick {
                    scene_id: self.scene_id,
                    dirty,
                    logs: Vec::new(),
                    elapsed_us: 0,
                    rpc_calls: Vec::new(),
                })
            },
            Err(e) => Err(e),
        }
    }

    /// The main script file is absent: a fatal startup error. The scene goes
    /// straight to `Terminated` and never enters the tick loop.
    pub fn on_missing_script(&mut self, path: &String) -> (r: SceneResponse<T>)
        requires
            old(self).phase() == ScenePhase::Loading,
        ensures
            final(self).phase() == ScenePhase::Terminated,
            final(self).id() == old(self).id(),
            r is Error,
            r->Error_0 == old(self).id(),
            r->Error_1@ == "scene script not found: "@ + path@,
    {
        self.phase = ScenePhase::Terminated;
        let message = String::from_str("scene script not found: ").concat(path.as_str());
        SceneResponse::Error(self.scene_id, message)
    }

    /// Engine construction, the start entry point or the one-shot pending
    /// promise flush failed: fatal, reported once, the scene never ticks.
    pub fn on_startup_error(&mut self, message: String) -> (r: SceneResponse<T>)
        requires
            old(self).phase() == ScenePhase::Loading,
        ensures
            final(self).phase() == ScenePhase::Terminated,
            final(self).id() == old(self).id(),
            r is Error,
            r->Error_0 == old(self).id(),
            r->Error_1 == message,
    {
        self.phase = ScenePhase::Terminated;
        SceneResponse::Error(self.scene_id, message)
    }

    /// Loading finished: the start entry point ran and pending start-up
    /// promises were flushed once.
    pub fn start_running(&mut self)
        requires
            old(self).phase() == ScenePhase::Loading,
        ensures
            final(self).phase() == ScenePhase::Running,
            final(self).id() == old(self).id(),
            final(self).elapsed() == old(self).elapsed(),
            final(self).dying() == old(self).dying(),
            final(self).log_seq() == old(self).log_seq(),
            final(self).rpc_seq() == old(self).rpc_seq(),
    {
        self.phase = ScenePhase::Running;
    }

    /// Computes the tick's `dt` from the wall clock reading (microseconds
    /// since the scene's start): elapsed-since-start minus the time already
    /// accounted for, never negative — an inconsistent clock readback falls
    /// back to a zero delta. Cumulative elapsed time never decreases.
    pub fn begin_tick(&mut self, now_us: u64) -> (dt_us: u64)
        requires
            old(self).phase() == ScenePhase::Running,
        ensures
            final(self).phase() == old(self).phase(),
            final(self).id() == old(self).id(),
            final(self).dying() == old(self).dying(),
            final(self).log_seq() == old(self).log_seq(),
            final(self).rpc_seq() == old(self).rpc_seq(),
            dt_us == if now_us >= old(self).elapsed() {
                now_us - old(self).elapsed()
            } else {
                0
            },
            final(self).elapsed() == old(self).elapsed() + dt_us,
            final(self).elapsed() >= old(self).elapsed(),
    {
        let dt_us: u64 = if now_us >= self.elapsed_us {
            now_us - self.elapsed_us
        } else {
            0
        };
        self.elapsed_us = self.elapsed_us + dt_us;
        dt_us
    }

    /// Buffers one log record, stamped with the scene's elapsed time.
    pub fn push_log(&mut self, level: SceneLogLevel, message: String)
        ensures
            final(self).log_seq() == old(self).log_seq().push(
                (SceneLogMessage { timestamp_us: old(self).elapsed(), level, message }),
            ),
            final(self).phase() == old(self).phase(),
            final(self).id() == old(self).id(),
            final(self).elapsed() == old(self).elapsed(),
            final(self).dying() == old(self).dying(),
            final(self).rpc_seq() == old(self).rpc_seq(),
    {
        self.logs.push(SceneLogMessage { timestamp_us: self.elapsed_us, level, message });
    }

    /// Queues one outbound call for the host; it travels with the next
    /// successful tick.
    pub fn queue_rpc(&mut self, call: RpcCall<T>)
        ensures
            final(self).rpc_seq() == old(self).rpc_seq().push(call),
            final(self).phase() == old(self).phase(),
            final(self).id() == old(self).id(),
            final(self).elapsed() == old(self).elapsed(),
            final(self).dying() == old(self).dying(),
            final(self).log_seq() == old(self).log_seq(),
    {
        self.rpc_calls.push(call);
    }

    /// Raises the cooperative "scene dying" flag; the scene leaves the tick
    /// loop at the end of the current tick.
    pub fn mark_dying(&mut self)
        ensures
            final(self).dying(),
            final(self).phase() == old(self).phase(),
            final(self).id() == old(self).id(),
            final(self).elapsed() == old(self).elapsed(),
            final(self).log_seq() == old(self).log_seq(),
            final(self).rpc_seq() == old(self).rpc_seq(),
    {
        self.dying = true;
    }

    /// Handles one renderer message: an external delta is merged into the
    /// store under the same rule as any other update batch, a terminate
    /// request raises the dying flag.
    pub fn on_renderer_message(
        &mut self,
        store: &mut SceneStateStore,
        message: RendererResponse,
    ) -> (r: Result<(), SnapshotDecodeError>)
        requires
            old(store).inv(),
        ensures
            final(store).inv(),
            final(self).phase() == old(self).phase(),
            final(self).id() == old(self).id(),
            final(self).elapsed() == old(self).elapsed(),
            final(self).log_seq() == old(self).log_seq(),
            final(self).rpc_seq() == old(self).rpc_seq(),
            match message {
                RendererResponse::Kill => {
                    &&& final(self).dying()
                    &&& r is Ok
                    &&& *final(store) == *old(store)
                },
                RendererResponse::Delta(bytes) => {
                    &&& final(self).dying() == old(self).dying()
                    &&& (r is Ok <==> parse_batch(bytes@) is Some)
                    &&& r is Err ==> *final(store) == *old(store)
                    &&& r is Ok ==> final(store)@ == apply_batch(
                        old(store)@,
                        parse_batch(bytes@).unwrap(),
                    ) && final(store).dirty_set() == old(store).dirty_set().union(
                        dirtied(old(store)@, parse_batch(bytes@).unwrap()),
                    )
                },
            },
    {
        match message {
            RendererResponse::Kill => {
                self.dying = true;
                Ok(())
            },
            RendererResponse::Delta(bytes) => store.snapshot_replay(&bytes),
        }
    }

    /// Closes one tick. A successful tick drains the dirty set, the buffered
    /// logs and the queued outbound calls into a successful-tick message and
    /// keeps running unless the dying flag was raised; a script error is
    /// fatal to this scene only and emits nothing here — the removal notice
    /// follows from `finish`.
    pub fn end_tick(&mut self, store: &mut SceneStateStore, tick_ok: bool) -> (r: Option<
        SceneResponse<T>,
    >)
        requires
            old(self).phase() == ScenePhase::Running,
            old(store).inv(),
        ensures
            final(store).inv(),
            final(store)@ == old(store)@,
            final(self).id() == old(self).id(),
            final(self).elapsed() == old(self).elapsed(),
            final(self).dying() == old(self).dying(),
            !tick_ok ==> {
                &&& r is None
                &&& final(self).phase() == ScenePhase::Terminating
                &&& *final(store) == *old(store)
                &&& final(self).log_seq() == old(self).log_seq()
                &&& final(self).rpc_seq() == old(self).rpc_seq()
            },
            tick_ok ==> {
                &&& final(self).phase() == (if old(self).dying() {
                    ScenePhase::Terminating
                } else {
                    ScenePhase::Running
                })
                &&& final(self).log_seq() == Seq::<SceneLogMessage>::empty()
                &&& final(self).rpc_seq() == Seq::<RpcCall<T>>::empty()
                &&& (final(store).dirty_set(), take_dirty_transition(
                    old(store).dirty_set(),
                ).1) == (Set::<StateKey>::empty(), Set::<StateKey>::empty())
                &&& r is Some
                &&& {
                    let resp = r.unwrap();
                    &&& resp is Tick
                    &&& resp->scene_id == old(self).id()
                    &&& resp->dirty@.to_set() == take_dirty_transition(old(store).dirty_set()).0
                    &&& resp->logs@ == old(self).log_seq()
                    &&& resp->elapsed_us == old(self).elapsed()
                    &&& resp->rpc_calls@ == old(self).rpc_seq()
                }
            },
    {
        if !tick_ok {
            self.phase = ScenePhase::Terminating;
            return None;
        }
        let dirty = store.take_dirty();
        let mut logs: Vec<SceneLogMessage> = Vec::new();
        core::mem::swap(&mut logs, &mut self.logs);
        let mut rpc_calls: Vec<RpcCall<T>> = Vec::new();
        core::mem::swap(&mut rpc_calls, &mut self.rpc_calls);
        if self.dying {
            self.phase = ScenePhase::Terminating;
        }
        proof {
            assert(self.logs@ =~= Seq::<SceneLogMessage>::empty());
            assert(self.rpc_calls@ =~= Seq::<RpcCall<T>>::empty());
        }
        Some(SceneResponse::Tick {
            scene_id: self.scene_id,
            dirty,
            logs,
            elapsed_us: self.elapsed_us,
            rpc_calls,
        })
    }

    /// Tears the scene down: drains the buffered logs into the removal
    /// notice that ends the scene's life. The host then interrupts the
    /// engine and unregisters the scene's termination handle.
    pub fn finish(&mut self) -> (r: SceneResponse<T>)
        requires
            old(self).phase() == ScenePhase::Running || old(self).phase()
                == ScenePhase::Terminating,
        ensures
            final(self).phase() == ScenePhase::Terminated,
            final(self).id() == old(self).id(),
            final(self).log_seq() == Seq::<SceneLogMessage>::empty(),
            r is Remove,
            r->Remove_0 == old(self).id(),
            r->Remove_1@ == old(self).log_seq(),
    {
        self.phase = ScenePhase::Terminated;
        let mut logs: Vec<SceneLogMessage> = Vec::new();
        core::mem::swap(&mut logs, &mut self.logs);
        proof {
            assert(self.logs@ =~= Seq::<SceneLogMessage>::empty());
        }
        SceneResponse::Remove(self.scene_id, logs)
    }
}

} // verus!
