//! The per-worker capture protocol: one task per popped item id, driven as a
//! state machine. The worker performs each returned action against its own
//! renderer instance and feeds the outcome back in; the machine decides
//! retries (bounded per instance), renderer replacement (bounded per item),
//! speculative preloading of the next item's page, and when the validated,
//! encoded capture is written.

use vstd::prelude::*;
use crate::config::CaptureConfig;
use crate::render::{decode_dims, encode_capture, encoded_capture, image_dims};

verus! {

/// Failures that abort the whole run: they mark a broken configuration, not
/// a stuck renderer.
#[derive(Clone, Copy, Debug, PartialEq, Eq, Structural)]
pub enum FatalError {
    /// The capture decoded to dimensions other than the configured capture
    /// resolution.
    DimensionMismatch,
    /// The codec refused the validated capture.
    EncodeFailed,
}

/// The outcome the worker reports for the action it was asked to perform.
#[derive(Debug)]
pub enum TaskEvent {
    /// Whether navigating to the current item's page was accepted.
    NavigateDone(bool),
    /// Whether the pending navigation finished.
    LoadDone(bool),
    /// The screenshot bytes, or `None` when the capture failed.
    CaptureDone(Option<Vec<u8>>),
    /// Whether the speculative navigation to the next item's page was
    /// accepted.
    PreloadDone(bool),
    /// A fresh renderer instance stands ready.
    InstanceReplaced,
}

/// What the worker must do next.
#[derive(Debug)]
pub enum TaskAction {
    /// Navigate the renderer to the current item's page.
    Navigate,
    /// Wait for the pending navigation to finish.
    AwaitLoad,
    /// Take the screenshot.
    Capture,
    /// Speculatively navigate to the next item's page.
    Preload,
    /// Persist these bytes as the item's output; the task is finished.
    Write(Vec<u8>),
    /// Tear the renderer down and create a fresh instance.
    Replace,
    /// Replacements are exhausted: give this item up.
    GiveUp,
    /// Abort the whole run.
    Fatal(FatalError),
}

/// Where a task stands between two events.
#[derive(Debug)]
pub enum TaskPhase {
    Navigating,
    Loading,
    Capturing,
    /// The validated capture, kept while the preload is in flight.
    Preloading(Vec<u8>),
    Replacing,
    /// Finished; the flag says whether the next item's page was preloaded.
    Done(bool),
    GaveUp,
    Fatal(FatalError),
}

/// One worker's task for one popped item.
#[derive(Debug)]
pub struct TaskState {
    item: u128,
    next_item: Option<u128>,
    preloaded: bool,
    attempts_left: u32,
    restarts_left: u32,
    phase: TaskPhase,
}

pub ghost enum PhaseModel {
    Navigating,
    Loading,
    Capturing,
    Preloading(Seq<u8>),
    Replacing,
    Done(bool),
    GaveUp,
    Fatal(FatalError),
}

pub ghost struct TaskModel {
    pub item: u128,
    pub next_item: Option<u128>,
    pub preloaded: bool,
    pub attempts_left: u32,
    pub restarts_left: u32,
    pub phase: PhaseModel,
}

pub ghost enum EventModel {
    NavigateDone(bool),
    LoadDone(bool),
    CaptureDone(Option<Seq<u8>>),
    PreloadDone(bool),
    InstanceReplaced,
}

pub ghost enum ActionModel {
    Navigate,
    AwaitLoad,
    Capture,
    Preload,
    Write(Seq<u8>),
    Replace,
    GiveUp,
    Fatal(FatalError),
}

impl View for TaskPhase {
    type V = PhaseModel;

    open spec fn view(&self) -> PhaseModel {
        match self {
            TaskPhase::Navigating => PhaseModel::Navigating,
            TaskPhase::Loading => PhaseModel::Loading,
            TaskPhase::Capturing => PhaseModel::Capturing,
            TaskPhase::Preloading(c) => PhaseModel::Preloading(c@),
            TaskPhase::Replacing => PhaseModel::Replacing,
            TaskPhase::Done(b) => PhaseModel::Done(*b),
            TaskPhase::GaveUp => PhaseModel::GaveUp,
            TaskPhase::Fatal(e) => PhaseModel::Fatal(*e),
        }
    }
}

impl View for TaskState {
    type V = TaskModel;

    closed spec fn view(&self) -> TaskModel {
        TaskModel {
            item: self.item,
            next_item: self.next_item,
            preloaded: self.preloaded,
            attempts_left: self.attempts_left,
            restarts_left: self.restarts_left,
            phase: self.phase@,
        }
    }
}

impl View for TaskEvent {
    type V = EventModel;

    open spec fn view(&self) -> EventModel {
        match self {
            TaskEvent::NavigateDone(b) => EventModel::NavigateDone(*b),
            TaskEvent::LoadDone(b) => EventModel::LoadDone(*b),
            TaskEvent::CaptureDone(o) => EventModel::CaptureDone(
                match o {
                    Some(c) => Some(c@),
                    None => None,
                },
            ),
            TaskEvent::PreloadDone(b) => EventModel::PreloadDone(*b),
            TaskEvent::InstanceReplaced => EventModel::InstanceReplaced,
        }
    }
}

impl View for TaskAction {
    type V = ActionModel;

    open spec fn view(&self) -> ActionModel {
        match self {
            TaskAction::Navigate => ActionModel::Navigate,
            TaskAction::AwaitLoad => ActionModel::AwaitLoad,
            TaskAction::Capture => ActionModel::Capture,
            TaskAction::Preload => ActionModel::Preload,
            TaskAction::Write(b) => ActionModel::Write(b@),
            TaskAction::Replace => ActionModel::Replace,
            TaskAction::GiveUp => ActionModel::GiveUp,
            TaskAction::Fatal(e) => ActionModel::Fatal(*e),
        }
    }
}

/// The task is over: the output was written, the item given up, or the run
/// aborted.
pub open spec fn terminal(p: PhaseModel) -> bool {
    p is Done || p is GaveUp || p is Fatal
}

/// The event a phase awaits.
pub open spec fn expects(p: PhaseModel, ev: EventModel) -> bool {
    match (p, ev) {
        (PhaseModel::Navigating, EventModel::NavigateDone(_)) => true,
        (PhaseModel::Loading, EventModel::LoadDone(_)) => true,
        (PhaseModel::Capturing, EventModel::CaptureDone(_)) => true,
        (PhaseModel::Preloading(_), EventModel::PreloadDone(_)) => true,
        (PhaseModel::Replacing, EventModel::InstanceReplaced) => true,
        _ => false,
    }
}

/// Starting a task consumes the first attempt: navigate, unless the page was
/// already preloaded by the previous task.
pub open spec fn begin_model(
    item: u128,
    next_item: Option<u128>,
    preloaded: bool,
    cfg: CaptureConfig,
) -> (TaskModel, ActionModel) {
    let m = TaskModel {
        item,
        next_item,
        preloaded,
        attempts_left: (cfg.task_attempts - 1) as u32,
        restarts_left: cfg.instance_restarts,
        phase: if preloaded {
            PhaseModel::Loading
        } else {
            PhaseModel::Navigating
        },
    };
    (
        m,
        if preloaded {
            ActionModel::AwaitLoad
        } else {
            ActionModel::Navigate
        },
    )
}

/// After a transient failure: another attempt on this instance while any are
/// left, then a replacement instance while any are left, then give the item
/// up. The task never moves to another item.
pub open spec fn retry_model(m: TaskModel, cfg: CaptureConfig) -> (TaskModel, ActionModel) {
    if m.attempts_left > 0 {
        (
            TaskModel {
                preloaded: false,
                attempts_left: (m.attempts_left - 1) as u32,
                phase: PhaseModel::Navigating,
                ..m
            },
            ActionModel::Navigate,
        )
    } else if m.restarts_left > 0 {
        (
            TaskModel {
                preloaded: false,
                restarts_left: (m.restarts_left - 1) as u32,
                phase: PhaseModel::Replacing,
                ..m
            },
            ActionModel::Replace,
        )
    } else {
        (TaskModel { phase: PhaseModel::GaveUp, ..m }, ActionModel::GiveUp)
    }
}

/// Finish a task whose capture `c` has been validated: write its encoding,
/// or abort the run if the codec refuses it.
pub open spec fn finish_model(
    m: TaskModel,
    c: Seq<u8>,
    preloaded_next: bool,
    cfg: CaptureConfig,
) -> (TaskModel, ActionModel) {
    match encoded_capture(c, cfg) {
        Some(out) => (
            TaskModel { phase: PhaseModel::Done(preloaded_next), ..m },
            ActionModel::Write(out),
        ),
        None => (
            TaskModel { phase: PhaseModel::Fatal(FatalError::EncodeFailed), ..m },
            ActionModel::Fatal(FatalError::EncodeFailed),
        ),
    }
}

/// The transition relation of one task: what the worker's next action is for
/// each event, and how the task's state moves.
pub open spec fn step_model(m: TaskModel, ev: EventModel, cfg: CaptureConfig) -> (
    TaskModel,
    ActionModel,
) {
    match (m.phase, ev) {
        (PhaseModel::Navigating, EventModel::NavigateDone(ok)) => {
            if ok {
                (TaskModel { phase: PhaseModel::Loading, ..m }, ActionModel::AwaitLoad)
            } else {
                retry_model(m, cfg)
            }
        },
        (PhaseModel::Loading, EventModel::LoadDone(ok)) => {
            if ok {
                (TaskModel { phase: PhaseModel::Capturing, ..m }, ActionModel::Capture)
            } else {
                retry_model(m, cfg)
            }
        },
        (PhaseModel::Capturing, EventModel::CaptureDone(opt)) => {
            match opt {
                Some(c) => {
                    if image_dims(c) == Some((cfg.capture_width, cfg.capture_height)) {
                        if m.next_item is Some {
                            (
                                TaskModel { phase: PhaseModel::Preloading(c), ..m },
                                ActionModel::Preload,
                            )
                        } else {
                            finish_model(m, c, false, cfg)
                        }
                    } else {
                        (
                            TaskModel {
                                phase: PhaseModel::Fatal(FatalError::DimensionMismatch),
                                ..m
                            },
                            ActionModel::Fatal(FatalError::DimensionMismatch),
                        )
                    }
                },
                None => retry_model(m, cfg),
            }
        },
        (PhaseModel::Preloading(c), EventModel::PreloadDone(ok)) => finish_model(m, c, ok, cfg),
        (PhaseModel::Replacing, EventModel::InstanceReplaced) => (
            TaskModel {
                preloaded: false,
                attempts_left: (cfg.task_attempts - 1) as u32,
                phase: PhaseModel::Navigating,
                ..m
            },
            ActionModel::Navigate,
        ),
        _ => (m, ActionModel::GiveUp),
    }
}

impl TaskState {
    /// Start the task for one popped item. `next_item` is what the worker
    /// popped after it (or `None` at the end of the queue); `preloaded` says
    /// whether the previous task already navigated to this item's page.
    pub fn begin(item: u128, next_item: Option<u128>, preloaded: bool, cfg: &CaptureConfig) -> (r:
        (TaskState, TaskAction))
        requires
            cfg.wf(),
        ensures
            r.0@ == begin_model(item, next_item, preloaded, *cfg).0,
            r.1@ == begin_model(item, next_item, preloaded, *cfg).1,
    {
        let s = TaskState {
            item,
            next_item,
            preloaded,
            attempts_left: cfg.task_attempts - 1,
            restarts_left: cfg.instance_restarts,
            phase: if preloaded {
                TaskPhase::Loading
            } else {
                TaskPhase::Navigating
            },
        };
        let a = if preloaded {
            TaskAction::AwaitLoad
        } else {
            TaskAction::Navigate
        };
        (s, a)
    }

    /// Feed the outcome of the last action in; get the next action.
    pub fn step(self, ev: TaskEvent, cfg: &CaptureConfig) -> (r: (TaskState, TaskAction))
        requires
            cfg.wf(),
            expects(self@.phase, ev@),
        ensures
            r.0@ == step_model(self@, ev@, *cfg).0,
            r.1@ == step_model(self@, ev@, *cfg).1,
    {
        let TaskState { item, next_item, preloaded, attempts_left, restarts_left, phase } = self;
        match (phase, ev) {
            (TaskPhase::Navigating, TaskEvent::NavigateDone(ok)) => {
                if ok {
                    (
                        TaskState {
                            item,
                            next_item,
                            preloaded,
                            attempts_left,
                            restarts_left,
                            phase: TaskPhase::Loading,
                        },
                        TaskAction::AwaitLoad,
                    )
                } else {
                    Self::retry(item, next_item, preloaded, attempts_left, restarts_left, cfg)
                }
            },
            (TaskPhase::Loading, TaskEvent::LoadDone(ok)) => {
                if ok {
                    (
                        TaskState {
                            item,
                            next_item,
                            preloaded,
                            attempts_left,
                            restarts_left,
                            phase: TaskPhase::Capturing,
                        },
                        TaskAction::Capture,
                    )
                } else {
                    Self::retry(item, next_item, preloaded, attempts_left, restarts_left, cfg)
                }
            },
            (TaskPhase::Capturing, TaskEvent::CaptureDone(opt)) => {
                match opt {
                    Some(c) => {
                        let dims_ok = match decode_dims(&c) {
                            Some((w, h)) => w == cfg.capture_width && h == cfg.capture_height,
                            None => false,
                        };
                        if dims_ok {
                            if next_item.is_some() {
                                (
                                    TaskState {
                                        item,
                                        next_item,
                                        preloaded,
                                        attempts_left,
                                        restarts_left,
                                        phase: TaskPhase::Preloading(c),
                                    },
                                    TaskAction::Preload,
                                )
                            } else {
                                Self::finish(
                                    item,
                                    next_item,
                                    preloaded,
                                    attempts_left,
                                    restarts_left,
                                    c,
                                    false,
                                    cfg,
                                )
                            }
                        } else {
                            (
                                TaskState {
                                    item,
                                    next_item,
                                    preloaded,
                                    attempts_left,
                                    restarts_left,
                                    phase: TaskPhase::Fatal(FatalError::DimensionMismatch),
                                },
                                TaskAction::Fatal(FatalError::DimensionMismatch),
                            )
                        }
                    },
                    None => Self::retry(item, next_item, preloaded, attempts_left, restarts_left, cfg),
                }
            },
            (TaskPhase::Preloading(c), TaskEvent::PreloadDone(ok)) => Self::finish(
                item,
                next_item,
                preloaded,
                attempts_left,
                restarts_left,
                c,
                ok,
                cfg,
            ),
            (TaskPhase::Replacing, TaskEvent::InstanceReplaced) => (
                TaskState {
                    item,
                    next_item,
                    preloaded: false,
                    attempts_left: cfg.task_attempts - 1,
                    restarts_left,
                    phase: TaskPhase::Navigating,
                },
                TaskAction::Navigate,
            ),
            (p, _) => (
                TaskState {
                    item,
                    next_item,
                    preloaded,
                    attempts_left,
                    restarts_left,
                    phase: p,
                },
                TaskAction::GiveUp,
            ),
        }
    }

    fn retry(
        item: u128,
        next_item: Option<u128>,
        preloaded: bool,
        attempts_left: u32,
        restarts_left: u32,
        cfg: &CaptureConfig,
    ) -> (r: (TaskState, TaskAction))
        ensures
            ({
                let m = TaskModel {
                    item,
                    next_item,
                    preloaded,
                    attempts_left,
                    restarts_left,
                    phase: arbitrary(),
                };
                r.0@ == retry_model(m, *cfg).0 && r.1@ == retry_model(m, *cfg).1
            }),
    {
        if attempts_left > 0 {
            (
                TaskState {
                    item,
                    next_item,
                    preloaded: false,
                    attempts_left: attempts_left - 1,
                    restarts_left,
                    phase: TaskPhase::Navigating,
                },
                TaskAction::Navigate,
            )
        } else if restarts_left > 0 {
            (
                TaskState {
                    item,
                    next_item,
                    preloaded: false,
                    attempts_left,
                    restarts_left: restarts_left - 1,
                    phase: TaskPhase::Replacing,
                },
                TaskAction::Replace,
            )
        } else {
            (
                TaskState {
                    item,
                    next_item,
                    preloaded,
                    attempts_left,
                    restarts_left,
                    phase: TaskPhase::GaveUp,
                },
                TaskAction::GiveUp,
            )
        }
    }

    fn finish(
        item: u128,
        next_item: Option<u128>,
        preloaded: bool,
        attempts_left: u32,
        restarts_left: u32,
        c: Vec<u8>,
        preloaded_next: bool,
        cfg: &CaptureConfig,
    ) -> (r: (TaskState, TaskAction))
        ensures
            ({
                let m = TaskModel {
                    item,
                    next_item,
                    preloaded,
                    attempts_left,
                    restarts_left,
                    phase: arbitrary(),
                };
                r.0@ == finish_model(m, c@, preloaded_next, *cfg).0
                    && r.1@ == finish_model(m, c@, preloaded_next, *cfg).1
            }),
    {
        match encode_capture(&c, cfg) {
            Some(out) => (
                TaskState {
                    item,
                    next_item,
                    preloaded,
                    attempts_left,
                    restarts_left,
                    phase: TaskPhase::Done(preloaded_next),
                },
                TaskAction::Write(out),
            ),
            None => (
                TaskState {
                    item,
                    next_item,
                    preloaded,
                    attempts_left,
                    restarts_left,
                    phase: TaskPhase::Fatal(FatalError::EncodeFailed),
                },
                TaskAction::Fatal(FatalError::EncodeFailed),
            ),
        }
    }

    /// The id the task was begun for.
    pub fn item(&self) -> (r: u128)
        ensures
            r == self@.item,
    {
        self.item
    }

    pub fn is_terminal(&self) -> (r: bool)
        ensures
            r == terminal(self@.phase),
    {
        match self.phase {
            TaskPhase::Done(_) => true,
            TaskPhase::GaveUp => true,
            TaskPhase::Fatal(_) => true,
            _ => false,
        }
    }

    /// The task finished and its output was written.
    pub fn is_done(&self) -> (r: bool)
        ensures
            r == self@.phase is Done,
    {
        match self.phase {
            TaskPhase::Done(_) => true,
            _ => false,
        }
    }

    /// After a finished task: whether the next item's page is already loaded.
    pub fn finished_preloaded(&self) -> (r: bool)
        requires
            self@.phase is Done,
        ensures
            r == self@.phase->Done_0,
    {
        match self.phase {
            TaskPhase::Done(b) => b,
            _ => false,
        }
    }
}

/// The bytes an action writes, if it writes at all.
pub open spec fn write_of(a: ActionModel) -> Option<Seq<u8>> {
    match a {
        ActionModel::Write(b) => Some(b),
        _ => None,
    }
}

/// A whole task run: feed events until the task ends or they run out,
/// collecting the actions.
pub open spec fn run_model(m: TaskModel, evs: Seq<EventModel>, cfg: CaptureConfig) -> (
    TaskModel,
    Seq<ActionModel>,
)
    decreases evs.len(),
{
    if evs.len() == 0 || terminal(m.phase) {
        (m, Seq::empty())
    } else {
        let next = step_model(m, evs.first(), cfg);
        let rest = run_model(next.0, evs.drop_first(), cfg);
        (rest.0, seq![next.1] + rest.1)
    }
}

pub open spec fn write_count(actions: Seq<ActionModel>) -> nat
    decreases actions.len(),
{
    if actions.len() == 0 {
        0
    } else {
        (if actions.first() is Write {
            1nat
        } else {
            0nat
        }) + write_count(actions.drop_first())
    }
}

/// A step serves the task it was begun for: the item (and the pre-popped
/// next item) never change, whatever happens. A retry retries the same item;
/// it never re-pops.
pub proof fn lemma_step_keeps_item(m: TaskModel, ev: EventModel, cfg: CaptureConfig)
    ensures
        step_model(m, ev, cfg).0.item == m.item,
        step_model(m, ev, cfg).0.next_item == m.next_item,
{
}

/// A write is emitted exactly when the step finishes the task: the new phase
/// is `Done`, which no later step leaves.
pub proof fn lemma_write_enters_done(m: TaskModel, ev: EventModel, cfg: CaptureConfig)
    requires
        !terminal(m.phase),
    ensures
        write_of(step_model(m, ev, cfg).1) is Some <==> step_model(m, ev, cfg).0.phase is Done,
{
}

/// However a task run goes — transient failures, renderer replacements, a
/// preload raced or lost — it writes the item's output at most once; and a
/// run that ends with the task done wrote it exactly once. The progress
/// counter therefore moves by exactly one for a finished item.
pub proof fn lemma_write_exactly_once(m: TaskModel, evs: Seq<EventModel>, cfg: CaptureConfig)
    ensures
        write_count(run_model(m, evs, cfg).1) <= 1,
        terminal(m.phase) ==> write_count(run_model(m, evs, cfg).1) == 0,
        !terminal(m.phase) && run_model(m, evs, cfg).0.phase is Done ==> write_count(
            run_model(m, evs, cfg).1,
        ) == 1,
        !(run_model(m, evs, cfg).0.phase is Done) ==> write_count(run_model(m, evs, cfg).1) == 0,
        run_model(m, evs, cfg).0.item == m.item,
    decreases evs.len(),
{
    if evs.len() == 0 || terminal(m.phase) {
    } else {
        let next = step_model(m, evs.first(), cfg);
        lemma_write_enters_done(m, evs.first(), cfg);
        lemma_step_keeps_item(m, evs.first(), cfg);
        lemma_write_exactly_once(next.0, evs.drop_first(), cfg);
        let acts = run_model(m, evs, cfg).1;
        let rest = run_model(next.0, evs.drop_first(), cfg).1;
        assert(acts == seq![next.1] + rest);
        assert(acts.first() == next.1);
        assert(acts.drop_first() =~= rest);
    }
}

/// The speculative preload has no effect on the output: whether it was
/// accepted or refused, the same bytes are written for the item; only the
/// hint handed to the next task differs.
pub proof fn lemma_preload_outcome_no_effect(m: TaskModel, ok1: bool, ok2: bool, cfg: CaptureConfig)
    ensures
        write_of(step_model(m, EventModel::PreloadDone(ok1), cfg).1) == write_of(
            step_model(m, EventModel::PreloadDone(ok2), cfg).1,
        ),
{
}

/// Nor does it matter whether the current item's page was reached by a
/// preload or a fresh navigation: the preload flag never reaches the output.
pub proof fn lemma_preload_flag_no_effect(
    m: TaskModel,
    b1: bool,
    b2: bool,
    ev: EventModel,
    cfg: CaptureConfig,
)
    ensures
        ({
            let m1 = TaskModel { preloaded: b1, ..m };
            let m2 = TaskModel { preloaded: b2, ..m };
            write_of(step_model(m1, ev, cfg).1) == write_of(step_model(m2, ev, cfg).1)
        }),
{
}

/// What a write holds is a function of the validated capture alone: the
/// capture's encoding under the configured codec, with its dimensions
/// checked against the capture resolution.
pub proof fn lemma_write_is_encoded_capture(m: TaskModel, ev: EventModel, cfg: CaptureConfig)
    requires
        expects(m.phase, ev),
    ensures
        write_of(step_model(m, ev, cfg).1) matches Some(b) ==> exists|c: Seq<u8>|
            (#[trigger] encoded_capture(c, cfg) == Some(b)) && ((m.phase == PhaseModel::Preloading(
                c,
            )) || (ev == EventModel::CaptureDone(Some(c)) && image_dims(c) == Some(
                (cfg.capture_width, cfg.capture_height),
            ))),
{
    if write_of(step_model(m, ev, cfg).1) is Some {
        match (m.phase, ev) {
            (PhaseModel::Capturing, EventModel::CaptureDone(Some(c))) => {
                assert(encoded_capture(c, cfg) == Some(write_of(step_model(m, ev, cfg).1)->0));
            },
            (PhaseModel::Preloading(c), EventModel::PreloadDone(_)) => {
                assert(encoded_capture(c, cfg) == Some(write_of(step_model(m, ev, cfg).1)->0));
            },
            _ => {},
        }
    }
}

/// How far a task still is from its final write, counted in events: later
/// phases rank lower, and a pending replacement ranks above a full set of
/// fresh attempts, which it is about to grant.
pub open spec fn phase_rank(p: PhaseModel, cfg: CaptureConfig) -> nat {
    match p {
        PhaseModel::Replacing => 6 * cfg.task_attempts as nat,
        PhaseModel::Navigating => 4,
        PhaseModel::Loading => 3,
        PhaseModel::Capturing => 2,
        PhaseModel::Preloading(_) => 1,
        _ => 0,
    }
}

/// An upper bound on the events a task can still consume before it ends.
pub open spec fn step_budget(m: TaskModel, cfg: CaptureConfig) -> nat {
    m.restarts_left as nat * (6 * cfg.task_attempts as nat + 12) + 6 * m.attempts_left as nat
        + phase_rank(m.phase, cfg)
}

/// Every event a live task consumes spends budget: the step either ends the
/// task or strictly lowers `step_budget`. A stuck renderer can therefore
/// stall its worker only for a bounded number of events, never the pool.
pub proof fn lemma_step_spends_budget(m: TaskModel, ev: EventModel, cfg: CaptureConfig)
    requires
        cfg.wf(),
        !terminal(m.phase),
        expects(m.phase, ev),
    ensures
        terminal(step_model(m, ev, cfg).0.phase) || step_budget(step_model(m, ev, cfg).0, cfg)
            < step_budget(m, cfg),
{
    let w = 6 * cfg.task_attempts as nat + 12;
    let next = step_model(m, ev, cfg).0;
    if m.restarts_left > next.restarts_left {
        assert(next.restarts_left == m.restarts_left - 1);
        assert(m.restarts_left as nat * w == (m.restarts_left - 1) as nat * w + w)
            by (nonlinear_arith)
            requires
                m.restarts_left >= 1,
        ;
    }
}

/// The events the trace holds answer, one by one, the actions the task asks
/// for, until the task ends or the trace runs out.
pub open spec fn coherent(m: TaskModel, evs: Seq<EventModel>, cfg: CaptureConfig) -> bool
    decreases evs.len(),
{
    evs.len() == 0 || terminal(m.phase) || (expects(m.phase, evs.first()) && coherent(
        step_model(m, evs.first(), cfg).0,
        evs.drop_first(),
        cfg,
    ))
}

/// A task never hangs: any coherent trace at least `step_budget` long ends
/// with the task in a terminal phase — written, given up, or fatal.
pub proof fn lemma_run_terminates(m: TaskModel, evs: Seq<EventModel>, cfg: CaptureConfig)
    requires
        cfg.wf(),
        coherent(m, evs, cfg),
        evs.len() >= step_budget(m, cfg),
    ensures
        terminal(run_model(m, evs, cfg).0.phase),
    decreases evs.len(),
{
    if terminal(m.phase) {
    } else {
        assert(phase_rank(m.phase, cfg) >= 1);
        let next = step_model(m, evs.first(), cfg).0;
        lemma_step_spends_budget(m, evs.first(), cfg);
        if terminal(next.phase) {
            assert(run_model(next, evs.drop_first(), cfg).0 == next);
        } else {
            lemma_run_terminates(next, evs.drop_first(), cfg);
        }
    }
}

/// Success is owed on a clean pass: when navigation and load are accepted,
/// the capture decodes at the configured resolution and the codec accepts
/// it, the task finishes and writes that capture's encoding.
pub proof fn lemma_clean_run_succeeds(item: u128, c: Seq<u8>, cfg: CaptureConfig)
    requires
        cfg.wf(),
        image_dims(c) == Some((cfg.capture_width, cfg.capture_height)),
        encoded_capture(c, cfg) is Some,
    ensures
        ({
            let started = begin_model(item, None, false, cfg);
            let evs = seq![
                EventModel::NavigateDone(true),
                EventModel::LoadDone(true),
                EventModel::CaptureDone(Some(c)),
            ];
            let run = run_model(started.0, evs, cfg);
            run.0.phase == PhaseModel::Done(false) && write_count(run.1) == 1 && run.1
                == seq![
                ActionModel::AwaitLoad,
                ActionModel::Capture,
                ActionModel::Write(encoded_capture(c, cfg)->0),
            ]
        }),
{
    let started = begin_model(item, None, false, cfg);
    let evs = seq![
        EventModel::NavigateDone(true),
        EventModel::LoadDone(true),
        EventModel::CaptureDone(Some(c)),
    ];
    let s0 = started.0;
    let evs1 = evs.drop_first();
    let evs2 = evs1.drop_first();
    let evs3 = evs2.drop_first();
    assert(evs1 =~= seq![EventModel::LoadDone(true), EventModel::CaptureDone(Some(c))]);
    assert(evs2 =~= seq![EventModel::CaptureDone(Some(c))]);
    assert(evs3 =~= Seq::<EventModel>::empty());
    let n1 = step_model(s0, evs.first(), cfg);
    let n2 = step_model(n1.0, evs1.first(), cfg);
    let n3 = step_model(n2.0, evs2.first(), cfg);
    assert(s0.phase == PhaseModel::Navigating);
    assert(n1.0.phase == PhaseModel::Loading && n1.1 == ActionModel::AwaitLoad);
    assert(n2.0.phase == PhaseModel::Capturing && n2.1 == ActionModel::Capture);
    assert(n3.0.phase == PhaseModel::Done(false));
    assert(n3.1 == ActionModel::Write(encoded_capture(c, cfg)->0));
    assert(run_model(n3.0, evs3, cfg) == (n3.0, Seq::<ActionModel>::empty()));
    assert(run_model(n2.0, evs2, cfg).0 == n3.0);
    assert(run_model(n2.0, evs2, cfg).1 =~= seq![n3.1]);
    assert(run_model(n1.0, evs1, cfg).0 == n3.0);
    assert(run_model(n1.0, evs1, cfg).1 =~= seq![n2.1, n3.1]);
    assert(run_model(s0, evs, cfg).0 == n3.0);
    assert(run_model(s0, evs, cfg).1 =~= seq![n1.1, n2.1, n3.1]);
    assert(write_count(run_model(s0, evs, cfg).1) == 1) by {
        lemma_write_exactly_once(s0, evs, cfg);
        assert(run_model(s0, evs, cfg).0.phase is Done);
    }
}

} // verus!
