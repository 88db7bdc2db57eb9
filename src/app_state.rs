use vstd::prelude::*;

use crate::config::{probe_names, story_names, Config};
use crate::history::{
    history_of, push_bounded, string_views, CheckResult, ResultStore, RESULT_LIMIT,
};
use crate::model::{ErrorResponse, MonitorsResponse, ReloadResponse};

verus! {

/// Which of the two families of checks a definition belongs to.
#[derive(Debug, Clone, Copy, PartialEq, Eq, Structural)]
pub enum CheckKind {
    Probe,
    Story,
}

/// Scheduling state of one definition's periodic task.
#[derive(Debug, Clone, Copy, PartialEq, Eq, Structural)]
pub struct Task {
    pub kind: CheckKind,
    /// Position of the definition in its list of the configuration.
    pub index: usize,
    /// Earliest time of the next execution, in milliseconds.
    pub next_due_ms: u64,
    /// An execution was handed out and has not completed yet.
    pub in_flight: bool,
}

/// An execution handed out to the executor.
#[derive(Debug, Clone, Copy, PartialEq, Eq, Structural)]
pub struct Dispatch {
    /// Position of the task in the task set.
    pub task: usize,
    pub kind: CheckKind,
    pub index: usize,
    /// Start count of the task set that handed it out.
    pub generation: u64,
}

/// `now_ms` plus `secs` seconds, saturating at the largest time.
pub open spec fn due_at(now_ms: u64, secs: u64) -> u64 {
    if now_ms + secs * 1000 > u64::MAX {
        u64::MAX
    } else {
        (now_ms + secs * 1000) as u64
    }
}

fn due_after(now_ms: u64, secs: u64) -> (r: u64)
    ensures
        r == due_at(now_ms, secs),
{
    match secs.checked_mul(1000) {
        Some(d) => match now_ms.checked_add(d) {
            Some(t) => t,
            None => u64::MAX,
        },
        None => {
            assert(secs * 1000 > u64::MAX);
            u64::MAX
        },
    }
}

/// The task set right after starting on `c` at `now_ms`: one task per probe,
/// then one per story, each due after its initial delay.
pub open spec fn scheduled_tasks(c: Config, now_ms: u64) -> Seq<Task> {
    let p = c.probes@.len();
    Seq::new(
        p + c.stories@.len(),
        |i: int|
            if i < p {
                Task {
                    kind: CheckKind::Probe,
                    index: i as usize,
                    next_due_ms: due_at(now_ms, c.probes@[i].schedule.initial_delay),
                    in_flight: false,
                }
            } else {
                Task {
                    kind: CheckKind::Story,
                    index: (i - p) as usize,
                    next_due_ms: due_at(now_ms, c.stories@[i - p].schedule.initial_delay),
                    in_flight: false,
                }
            },
    )
}

/// Whether task `t` is due at `now_ms` and has no execution in flight.
pub open spec fn is_ready(t: Task, now_ms: u64) -> bool {
    !t.in_flight && t.next_due_ms <= now_ms
}

/// Name of the definition of `kind` at `index` in `c`.
pub open spec fn definition_name(c: Config, kind: CheckKind, index: int) -> Seq<char> {
    match kind {
        CheckKind::Probe => c.probes@[index].name@,
        CheckKind::Story => c.stories@[index].name@,
    }
}

/// Interval of the definition of `kind` at `index` in `c`.
pub open spec fn definition_interval(c: Config, kind: CheckKind, index: int) -> u64 {
    match kind {
        CheckKind::Probe => c.probes@[index].schedule.interval,
        CheckKind::Story => c.stories@[index].schedule.interval,
    }
}

/// What the state holds, as mathematical values.
pub struct AppStateView {
    pub config: Config,
    pub config_path: Seq<char>,
    pub probe_history: Map<Seq<char>, Seq<CheckResult>>,
    pub story_history: Map<Seq<char>, Seq<CheckResult>>,
    pub tasks: Seq<Task>,
    pub running: bool,
    pub generation: u64,
}

impl AppStateView {
    /// Whether a completed `d` belongs to the running task set and is awaited.
    pub open spec fn accepts(self, d: Dispatch) -> bool {
        &&& self.running
        &&& d.generation == self.generation
        &&& d.task < self.tasks.len()
        &&& self.tasks[d.task as int].in_flight
        &&& self.tasks[d.task as int].kind == d.kind
        &&& self.tasks[d.task as int].index == d.index
    }
}

/// The shared state of the agent: active configuration, result histories
/// and the set of scheduled tasks.
pub struct AppState {
    config: Config,
    config_path: String,
    probe_results: ResultStore,
    story_results: ResultStore,
    tasks: Vec<Task>,
    running: bool,
    generation: u64,
}

impl View for AppState {
    type V = AppStateView;

    closed spec fn view(&self) -> AppStateView {
        AppStateView {
            config: self.config,
            config_path: self.config_path@,
            probe_history: self.probe_results@,
            story_history: self.story_results@,
            tasks: self.tasks@,
            running: self.running,
            generation: self.generation,
        }
    }
}

/// Whether task `t` at position `i` stands for the definition that position
/// holds in `c`, and that definition exists.
pub open spec fn task_fits(c: Config, t: Task, i: int) -> bool {
    let p = c.probes@.len();
    if i < p {
        t.kind == CheckKind::Probe && t.index == i && i < p
    } else {
        t.kind == CheckKind::Story && t.index == i - p && i - p < c.stories@.len()
    }
}

impl AppState {
    /// Histories are well formed; while running there is exactly one task
    /// per definition, and none while stopped.
    pub closed spec fn wf(&self) -> bool {
        &&& self.probe_results.wf()
        &&& self.story_results.wf()
        &&& self.running ==> self.tasks@.len() == self.config.probes@.len()
            + self.config.stories@.len()
        &&& !self.running ==> self.tasks@.len() == 0
        &&& forall|i: int|
            0 <= i < self.tasks@.len() ==> task_fits(self.config, #[trigger] self.tasks@[i], i)
    }

    /// No probe or story history ever holds more than the limit.
    pub proof fn lemma_histories_bounded(&self, name: Seq<char>)
        requires
            self.wf(),
        ensures
            history_of(self@.probe_history, name).len() <= RESULT_LIMIT,
            history_of(self@.story_history, name).len() <= RESULT_LIMIT,
    {
        self.probe_results.lemma_bounded(name);
        self.story_results.lemma_bounded(name);
    }

    /// A stopped state on `config`, with empty histories.
    pub fn new(config: Config, config_path: String) -> (r: AppState)
        ensures
            r.wf(),
            r@ == (AppStateView {
                config,
                config_path: config_path@,
                probe_history: Map::empty(),
                story_history: Map::empty(),
                tasks: Seq::empty(),
                running: false,
                generation: 0,
            }),
    {
        let r = AppState {
            config,
            config_path,
            probe_results: ResultStore::new(),
            story_results: ResultStore::new(),
            tasks: Vec::new(),
            running: false,
            generation: 0,
        };
        assert(r@.tasks =~= Seq::<Task>::empty());
        r
    }

    /// Starts one task per definition of the active configuration, each due
    /// after its initial delay; tasks of an earlier start are replaced and
    /// their executions in flight will not be recorded.
    pub fn start_monitoring(&mut self, now_ms: u64)
        requires
            old(self).wf(),
        ensures
            final(self).wf(),
            final(self)@ == (AppStateView {
                tasks: scheduled_tasks(old(self)@.config, now_ms),
                running: true,
                generation: old(self)@.generation.wrapping_add(1),
                ..old(self)@
            }),
    {
        let mut tasks: Vec<Task> = Vec::new();
        let np = self.config.probes.len();
        let mut i: usize = 0;
        while i < np
            invariant
                np == self.config.probes@.len(),
                i <= np,
                tasks@ == scheduled_tasks(self.config, now_ms).subrange(0, i as int),
            decreases np - i,
        {
            let due = due_after(now_ms, self.config.probes[i].schedule.initial_delay);
            tasks.push(Task { kind: CheckKind::Probe, index: i, next_due_ms: due, in_flight: false });
            i = i + 1;
            assert(tasks@ =~= scheduled_tasks(self.config, now_ms).subrange(0, i as int));
        }
        let ns = self.config.stories.len();
        let mut k: usize = 0;
        while k < ns
            invariant
                np == self.config.probes@.len(),
                ns == self.config.stories@.len(),
                k <= ns,
                tasks@ == scheduled_tasks(self.config, now_ms).subrange(0, np + k),
            decreases ns - k,
        {
            let due = due_after(now_ms, self.config.stories[k].schedule.initial_delay);
            tasks.push(Task { kind: CheckKind::Story, index: k, next_due_ms: due, in_flight: false });
            k = k + 1;
            assert(tasks@ =~= scheduled_tasks(self.config, now_ms).subrange(0, np + k));
        }
        assert(tasks@ =~= scheduled_tasks(self.config, now_ms));
        self.tasks = tasks;
        self.running = true;
        self.generation = self.generation.wrapping_add(1);
    }

    /// Cancels every task: nothing is handed out or recorded until the next
    /// start.
    pub fn stop_monitoring(&mut self)
        requires
            old(self).wf(),
        ensures
            final(self).wf(),
            final(self)@ == (AppStateView { tasks: Seq::empty(), running: false, ..old(self)@ }),
    {
        self.tasks = Vec::new();
        self.running = false;
        assert(self@.tasks =~= Seq::<Task>::empty());
    }

    /// Appends `result` to the history of probe `probe_name`, keeping the
    /// most recent results up to the limit.
    pub fn add_probe_result(&mut self, probe_name: String, result: CheckResult)
        requires
            old(self).wf(),
        ensures
            final(self).wf(),
            final(self)@ == (AppStateView {
                probe_history: old(self)@.probe_history.insert(
                    probe_name@,
                    push_bounded(history_of(old(self)@.probe_history, probe_name@), result),
                ),
                ..old(self)@
            }),
    {
        self.probe_results.record(probe_name, result);
    }

    /// Appends `result` to the history of story `story_name`, keeping the
    /// most recent results up to the limit.
    pub fn add_story_result(&mut self, story_name: String, result: CheckResult)
        requires
            old(self).wf(),
        ensures
            final(self).wf(),
            final(self)@ == (AppStateView {
                story_history: old(self)@.story_history.insert(
                    story_name@,
                    push_bounded(history_of(old(self)@.story_history, story_name@), result),
                ),
                ..old(self)@
            }),
    {
        self.story_results.record(story_name, result);
    }

    /// A copy of the history of probe `name`, oldest first.
    pub fn probe_history(&self, name: &String) -> (r: Vec<CheckResult>)
        requires
            self.wf(),
        ensures
            r@ == history_of(self@.probe_history, name@),
    {
        self.probe_results.snapshot(name)
    }

    /// A copy of the history of story `name`, oldest first.
    pub fn story_history(&self, name: &String) -> (r: Vec<CheckResult>)
        requires
            self.wf(),
        ensures
            r@ == history_of(self@.story_history, name@),
    {
        self.story_results.snapshot(name)
    }

    /// The active configuration.
    pub fn config(&self) -> (r: &Config)
        ensures
            *r == self@.config,
    {
        &self.config
    }

    /// Where the configuration is loaded from.
    pub fn config_path(&self) -> (r: &String)
        ensures
            r@ == self@.config_path,
    {
        &self.config_path
    }

    /// Number of tasks in the running task set.
    pub fn task_count(&self) -> (r: usize)
        ensures
            r == self@.tasks.len(),
    {
        self.tasks.len()
    }

    /// Hands out task `task` if it is due at `now_ms` and has no execution
    /// in flight, and marks it as in flight. A task whose execution is still
    /// running is never handed out a second time; while stopped there is no
    /// task to hand out.
    pub fn begin_check(&mut self, task: usize, now_ms: u64) -> (r: Option<Dispatch>)
        requires
            old(self).wf(),
        ensures
            final(self).wf(),
            !old(self)@.running ==> r is None,
            match r {
                Some(d) => {
                    &&& task < old(self)@.tasks.len()
                    &&& is_ready(old(self)@.tasks[task as int], now_ms)
                    &&& d == (Dispatch {
                        task,
                        kind: old(self)@.tasks[task as int].kind,
                        index: old(self)@.tasks[task as int].index,
                        generation: old(self)@.generation,
                    })
                    &&& final(self)@ == (AppStateView {
                        tasks: old(self)@.tasks.update(
                            task as int,
                            Task { in_flight: true, ..old(self)@.tasks[task as int] },
                        ),
                        ..old(self)@
                    })
                },
                None => {
                    &&& !(task < old(self)@.tasks.len() && is_ready(
                        old(self)@.tasks[task as int],
                        now_ms,
                    ))
                    &&& final(self)@ == old(self)@
                },
            },
    {
        if task >= self.tasks.len() {
            return None;
        }
        let t = self.tasks[task];
        if t.in_flight || t.next_due_ms > now_ms {
            return None;
        }
        self.tasks.set(task, Task { in_flight: true, ..t });
        proof {
            assert forall|a: int| 0 <= a < self.tasks@.len() implies task_fits(
                self.config,
                #[trigger] self.tasks@[a],
                a,
            ) by {
                assert(task_fits(self.config, old(self).tasks@[a], a));
            }
        }
        Some(Dispatch { task, kind: t.kind, index: t.index, generation: self.generation })
    }

    /// Takes the outcome of the execution handed out as `d`. Where `d`
    /// belongs to the running task set and is awaited, `result` is recorded
    /// under the definition's name and the task is due again one interval
    /// after `now_ms`; anything else (a stale or cancelled execution, a
    /// stopped state) is discarded and changes nothing.
    pub fn complete_check(&mut self, d: Dispatch, result: CheckResult, now_ms: u64) -> (r: bool)
        requires
            old(self).wf(),
        ensures
            final(self).wf(),
            r == old(self)@.accepts(d),
            !r ==> final(self)@ == old(self)@,
            r ==> {
                let v = old(self)@;
                let name = definition_name(v.config, d.kind, d.index as int);
                let task = Task {
                    in_flight: false,
                    next_due_ms: due_at(
                        now_ms,
                        definition_interval(v.config, d.kind, d.index as int),
                    ),
                    ..v.tasks[d.task as int]
                };
                match d.kind {
                    CheckKind::Probe => final(self)@ == (AppStateView {
                        tasks: v.tasks.update(d.task as int, task),
                        probe_history: v.probe_history.insert(
                            name,
                            push_bounded(history_of(v.probe_history, name), result),
                        ),
                        ..v
                    }),
                    CheckKind::Story => final(self)@ == (AppStateView {
                        tasks: v.tasks.update(d.task as int, task),
                        story_history: v.story_history.insert(
                            name,
                            push_bounded(history_of(v.story_history, name), result),
                        ),
                        ..v
                    }),
                }
            },
    {
        if !self.running || d.generation != self.generation || d.task >= self.tasks.len() {
            return false;
        }
        let t = self.tasks[d.task];
        if !t.in_flight || t.kind != d.kind || t.index != d.index {
            return false;
        }
        proof {
            assert(task_fits(self.config, self.tasks@[d.task as int], d.task as int));
        }
        match d.kind {
            CheckKind::Probe => {
                let name = self.config.probes[d.index].name.clone();
                let due = due_after(now_ms, self.config.probes[d.index].schedule.interval);
                self.tasks.set(d.task, Task { in_flight: false, next_due_ms: due, ..t });
                self.probe_results.record(name, result);
            },
            CheckKind::Story => {
                let name = self.config.stories[d.index].name.clone();
                let due = due_after(now_ms, self.config.stories[d.index].schedule.interval);
                self.tasks.set(d.task, Task { in_flight: false, next_due_ms: due, ..t });
                self.story_results.record(name, result);
            },
        }
        proof {
            assert forall|a: int| 0 <= a < self.tasks@.len() implies task_fits(
                self.config,
                #[trigger] self.tasks@[a],
                a,
            ) by {
                assert(task_fits(self.config, old(self).tasks@[a], a));
            }
        }
        true
    }

    /// Hot reload. Where loading failed (`loaded` is an error) nothing
    /// changes and the error is returned. Otherwise every task is stopped,
    /// the loaded configuration becomes the active one, histories of names
    /// it no longer defines are removed (the others are kept as they are),
    /// and one task per new definition is started.
    pub fn reload(&mut self, loaded: Result<Config, String>, now_ms: u64) -> (r: Result<
        ReloadResponse,
        ErrorResponse,
    >)
        requires
            old(self).wf(),
        ensures
            final(self).wf(),
            match loaded {
                Err(e) => r == Err::<ReloadResponse, ErrorResponse>(ErrorResponse { error: e })
                    && final(self)@ == old(self)@,
                Ok(c) => match r {
                    Ok(resp) => {
                        &&& resp.reloaded
                        &&& string_views(resp.probes@) == probe_names(c.probes@)
                        &&& string_views(resp.stories@) == story_names(c.stories@)
                        &&& final(self)@ == (AppStateView {
                            config: c,
                            config_path: old(self)@.config_path,
                            probe_history: old(self)@.probe_history.restrict(
                                probe_names(c.probes@).to_set(),
                            ),
                            story_history: old(self)@.story_history.restrict(
                                story_names(c.stories@).to_set(),
                            ),
                            tasks: scheduled_tasks(c, now_ms),
                            running: true,
                            generation: old(self)@.generation.wrapping_add(1),
                        })
                    },
                    Err(_) => false,
                },
            },
    {
        match loaded {
            Err(e) => Err(ErrorResponse { error: e }),
            Ok(c) => {
                self.stop_monitoring();
                self.config = c;
                let probes = self.config.probe_name_list();
                let stories = self.config.story_name_list();
                self.probe_results.retain_names(&probes);
                self.story_results.retain_names(&stories);
                self.start_monitoring(now_ms);
                Ok(ReloadResponse { reloaded: true, probes, stories })
            },
        }
    }
}

/// Names of the probes and stories of the active configuration.
pub fn monitors(state: &AppState) -> (r: MonitorsResponse)
    ensures
        string_views(r.probes@) == probe_names(state@.config.probes@),
        string_views(r.stories@) == story_names(state@.config.stories@),
{
    let config = state.config();
    MonitorsResponse { probes: config.probe_name_list(), stories: config.story_name_list() }
}

/// A task with an execution in flight is not ready, whatever the time: no
/// second execution of a definition starts before the first completes.
pub proof fn lemma_no_overlap(t: Task, now_ms: u64)
    requires
        t.in_flight,
    ensures
        !is_ready(t, now_ms),
{
}

/// A stopped state accepts no completed execution: after a stop nothing is
/// recorded until the next start.
pub proof fn lemma_stopped_records_nothing(v: AppStateView, d: Dispatch)
    requires
        !v.running,
    ensures
        !v.accepts(d),
{
}

/// Pruning to `names` removes the history of every other name and keeps
/// the history of each of `names` as it was.
pub proof fn lemma_prune_keeps_retained(
    before: Map<Seq<char>, Seq<CheckResult>>,
    names: Seq<Seq<char>>,
    k: Seq<char>,
)
    ensures
        names.contains(k) ==> history_of(before.restrict(names.to_set()), k) == history_of(
            before,
            k,
        ),
        !names.contains(k) ==> !before.restrict(names.to_set()).contains_key(k),
{
}

} // verus!
