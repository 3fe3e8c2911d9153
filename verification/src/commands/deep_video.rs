//! The bookkeeping of deep video analysis tasks: how a task is described when
//! it is queued, and the registry of abort handles of the running ones.

use vstd::prelude::*;
use futures_util::future::AbortHandle;
use crate::text::{owned, str_equal};
use crate::deep_video::types::{opt_view, DeepVideoAnalysisRequest, DeepVideoSource};

verus! {

#[verifier::external_type_specification]
#[verifier::external_body]
pub struct ExAbortHandle(AbortHandle);

/// The last component of a path as `std::path::Path::file_name` gives it,
/// when it is valid UTF-8.
pub uninterp spec fn path_file_name(path: Seq<char>) -> Option<Seq<char>>;

/// Calls `std::path::Path::file_name` on the path and keeps the name when it
/// is valid UTF-8. The contract names the result; what the name is on a given
/// path (the last component, `None` for a path ending in `..`) is not stated.
#[verifier::external_body]
fn file_name(path: &str) -> (r: Option<String>)
    ensures
        opt_view(r) == path_file_name(path@),
{
    std::path::Path::new(path).file_name().and_then(|name| name.to_str()).map(|name| name.to_string())
}

/// Calls `AbortHandle::abort` of futures-util, which sets the aborted flag
/// that the handle shares with its task and wakes the task. The flag lives
/// behind a shared pointer that the contracts do not model; the contract
/// records the call instead: the handle joins the registry's record of
/// aborted handles, and the registered handles stay as they were.
#[verifier::external_body]
fn abort_handle(registry: &mut AbortRegistry, handle: &AbortHandle)
    ensures
        final(registry).entries == old(registry).entries,
        final(registry).aborted@ == old(registry).aborted@.insert(*handle),
{
    handle.abort();
}

/// The name shown for the source of a request: the file name of a video
/// (`video` when it has none), or the source URL of a text-only request,
/// falling back to its title.
pub open spec fn source_name_spec(request: DeepVideoAnalysisRequest) -> Seq<char> {
    match request.source {
        DeepVideoSource::LocalVideo { video_path } => match path_file_name(video_path@) {
            Some(n) => n,
            None => "video"@,
        },
        DeepVideoSource::DownloadedDouyinVideo { video_path, .. } => match path_file_name(
            video_path@,
        ) {
            Some(n) => n,
            None => "video"@,
        },
        DeepVideoSource::TextOnly { source_url } => match source_url {
            Some(u) => u@,
            None => request.title@,
        },
    }
}

/// The video path of the source, if it has one.
pub open spec fn source_path_of(source: DeepVideoSource) -> Option<Seq<char>> {
    match source {
        DeepVideoSource::LocalVideo { video_path } => Some(video_path@),
        DeepVideoSource::DownloadedDouyinVideo { video_path, .. } => Some(video_path@),
        DeepVideoSource::TextOnly { .. } => None,
    }
}

fn name_or_video(name: Option<String>) -> (r: String)
    ensures
        r@ == (match opt_view(name) {
            Some(n) => n,
            None => "video"@,
        }),
{
    match name {
        Some(n) => n,
        None => owned("video"),
    }
}

/// The source path and the display name recorded for a queued task.
pub fn task_source(request: &DeepVideoAnalysisRequest) -> (r: (Option<String>, String))
    ensures
        opt_view(r.0) == source_path_of(request.source),
        r.1@ == source_name_spec(*request),
{
    match &request.source {
        DeepVideoSource::LocalVideo { video_path } => {
            let name = name_or_video(file_name(video_path.as_str()));
            (Some(video_path.clone()), name)
        },
        DeepVideoSource::DownloadedDouyinVideo { video_path, .. } => {
            let name = name_or_video(file_name(video_path.as_str()));
            (Some(video_path.clone()), name)
        },
        DeepVideoSource::TextOnly { source_url } => {
            let name = match source_url {
                Some(u) => u.clone(),
                None => request.title.clone(),
            };
            (None, name)
        },
    }
}

/// The abort handles of the running tasks, by task id.
pub struct AbortRegistry {
    entries: Vec<(String, AbortHandle)>,
    /// The handles aborted through this registry.
    aborted: Ghost<Set<AbortHandle>>,
}

/// Some entry of `s` has the key `k`.
pub open spec fn has_key(s: Seq<(String, AbortHandle)>, k: Seq<char>) -> bool {
    exists|i: int| 0 <= i < s.len() && (#[trigger] s[i]).0@ == k
}

/// No two entries share a key.
pub open spec fn keys_distinct(s: Seq<(String, AbortHandle)>) -> bool {
    forall|i: int, j: int| 0 <= i < s.len() && 0 <= j < s.len() && i != j ==> (#[trigger] s[i]).0@ != (#[trigger] s[j]).0@
}

/// The handle stored under `k`.
pub open spec fn handle_for(s: Seq<(String, AbortHandle)>, k: Seq<char>) -> AbortHandle {
    s[choose|i: int| 0 <= i < s.len() && (#[trigger] s[i]).0@ == k].1
}

/// The entries as a map from task id to handle.
pub open spec fn entries_map(s: Seq<(String, AbortHandle)>) -> Map<Seq<char>, AbortHandle> {
    Map::new(|k: Seq<char>| has_key(s, k), |k: Seq<char>| handle_for(s, k))
}

proof fn lemma_handle_at(s: Seq<(String, AbortHandle)>, i: int)
    requires
        keys_distinct(s),
        0 <= i < s.len(),
    ensures
        has_key(s, s[i].0@),
        handle_for(s, s[i].0@) == s[i].1,
{
    let k = s[i].0@;
    assert(0 <= i < s.len() && s[i].0@ == k);
    let j = choose|j: int| 0 <= j < s.len() && (#[trigger] s[j]).0@ == k;
    assert(s[j].0@ == k);
    assert(j == i);
}

impl AbortRegistry {
    /// The registered handles by task id.
    pub closed spec fn handles(&self) -> Map<Seq<char>, AbortHandle> {
        entries_map(self.entries@)
    }

    /// The handles that were aborted through the registry.
    pub closed spec fn aborted_handles(&self) -> Set<AbortHandle> {
        self.aborted@
    }

    /// The registry's own invariant: one entry per task id.
    pub closed spec fn wf(&self) -> bool {
        keys_distinct(self.entries@)
    }

    /// An empty registry.
    pub fn new() -> (r: Self)
        ensures
            r.wf(),
            r.handles() == Map::<Seq<char>, AbortHandle>::empty(),
            r.aborted_handles() == Set::<AbortHandle>::empty(),
    {
        let r = AbortRegistry { entries: Vec::new(), aborted: Ghost(Set::empty()) };
        assert(r.handles() =~= Map::<Seq<char>, AbortHandle>::empty());
        r
    }

    /// The position of the entry of `task_id`, if there is one.
    fn position(&self, task_id: &str) -> (r: Option<usize>)
        requires
            self.wf(),
        ensures
            match r {
                Some(i) => i < self.entries@.len() && self.entries@[i as int].0@ == task_id@,
                None => !has_key(self.entries@, task_id@),
            },
    {
        let mut i: usize = 0;
        while i < self.entries.len()
            invariant
                i <= self.entries@.len(),
                forall|j: int| 0 <= j < i ==> (#[trigger] self.entries@[j]).0@ != task_id@,
            decreases self.entries.len() - i,
        {
            if str_equal(self.entries[i].0.as_str(), task_id) {
                return Some(i);
            }
            i = i + 1;
        }
        None
    }

    /// Registers the handle of a task, replacing one it had.
    pub fn insert(&mut self, task_id: String, handle: AbortHandle)
        requires
            old(self).wf(),
        ensures
            final(self).wf(),
            final(self).handles() == old(self).handles().insert(task_id@, handle),
            final(self).aborted_handles() == old(self).aborted_handles(),
    {
        let ghost old_entries = self.entries@;
        let ghost k = task_id@;
        match self.position(task_id.as_str()) {
            Some(i) => {
                self.entries.set(i, (task_id, handle));
                proof {
                    let s = self.entries@;
                    assert forall|a: int, b: int| 0 <= a < s.len() && 0 <= b < s.len() && a != b implies (#[trigger] s[a]).0@ != (#[trigger] s[b]).0@ by {
                        assert(old_entries[a].0@ != old_entries[b].0@);
                    }
                    assert forall|key: Seq<char>| #![auto] entries_map(s).dom().contains(key) == old(self).handles().insert(k, handle).dom().contains(key) by {
                        if has_key(s, key) {
                            let a = choose|a: int| 0 <= a < s.len() && (#[trigger] s[a]).0@ == key;
                            if a != i {
                                assert(old_entries[a].0@ == key);
                            }
                        }
                        if has_key(old_entries, key) && key != k {
                            let a = choose|a: int| 0 <= a < old_entries.len() && (#[trigger] old_entries[a]).0@ == key;
                            assert(s[a].0@ == key);
                        }
                        assert(s[i as int].0@ == k);
                    }
                    assert forall|key: Seq<char>| #![auto] entries_map(s).dom().contains(key) implies entries_map(s)[key] == old(self).handles().insert(k, handle)[key] by {
                        let a = choose|a: int| 0 <= a < s.len() && (#[trigger] s[a]).0@ == key;
                        lemma_handle_at(s, a);
                        if a != i {
                            assert(old_entries[a] == s[a]);
                            lemma_handle_at(old_entries, a);
                        }
                    }
                    assert(entries_map(s) =~= old(self).handles().insert(k, handle));
                }
            },
            None => {
                self.entries.push((task_id, handle));
                proof {
                    let s = self.entries@;
                    let n = old_entries.len() as int;
                    assert forall|a: int, b: int| 0 <= a < s.len() && 0 <= b < s.len() && a != b implies (#[trigger] s[a]).0@ != (#[trigger] s[b]).0@ by {
                        if a == n {
                            assert(old_entries[b].0@ != k);
                        } else if b == n {
                            assert(old_entries[a].0@ != k);
                        } else {
                            assert(old_entries[a].0@ != old_entries[b].0@);
                        }
                    }
                    assert forall|key: Seq<char>| #![auto] entries_map(s).dom().contains(key) == old(self).handles().insert(k, handle).dom().contains(key) by {
                        if has_key(s, key) {
                            let a = choose|a: int| 0 <= a < s.len() && (#[trigger] s[a]).0@ == key;
                            if a != n {
                                assert(old_entries[a].0@ == key);
                            }
                        }
                        if has_key(old_entries, key) {
                            let a = choose|a: int| 0 <= a < old_entries.len() && (#[trigger] old_entries[a]).0@ == key;
                            assert(s[a].0@ == key);
                        }
                        assert(s[n].0@ == k);
                    }
                    assert forall|key: Seq<char>| #![auto] entries_map(s).dom().contains(key) implies entries_map(s)[key] == old(self).handles().insert(k, handle)[key] by {
                        let a = choose|a: int| 0 <= a < s.len() && (#[trigger] s[a]).0@ == key;
                        lemma_handle_at(s, a);
                        if a != n {
                            assert(old_entries[a] == s[a]);
                            lemma_handle_at(old_entries, a);
                        }
                    }
                    assert(entries_map(s) =~= old(self).handles().insert(k, handle));
                }
            },
        }
    }

    /// Takes the handle of a task out of the registry, if it was there.
    pub fn remove(&mut self, task_id: &str) -> (r: Option<AbortHandle>)
        requires
            old(self).wf(),
        ensures
            final(self).wf(),
            final(self).handles() == old(self).handles().remove(task_id@),
            final(self).aborted_handles() == old(self).aborted_handles(),
            r == (if old(self).handles().dom().contains(task_id@) {
                Some(old(self).handles()[task_id@])
            } else {
                None::<AbortHandle>
            }),
    {
        let ghost old_entries = self.entries@;
        let ghost k = task_id@;
        match self.position(task_id) {
            Some(i) => {
                let (_, handle) = self.entries.remove(i);
                proof {
                    let s = self.entries@;
                    lemma_handle_at(old_entries, i as int);
                    assert forall|a: int, b: int| 0 <= a < s.len() && 0 <= b < s.len() && a != b implies (#[trigger] s[a]).0@ != (#[trigger] s[b]).0@ by {
                        let oa = if a < i { a } else { a + 1 };
                        let ob = if b < i { b } else { b + 1 };
                        assert(s[a] == old_entries[oa]);
                        assert(s[b] == old_entries[ob]);
                        assert(old_entries[oa].0@ != old_entries[ob].0@);
                    }
                    assert forall|key: Seq<char>| #![auto] entries_map(s).dom().contains(key) == old(self).handles().remove(k).dom().contains(key) by {
                        if has_key(s, key) {
                            let a = choose|a: int| 0 <= a < s.len() && (#[trigger] s[a]).0@ == key;
                            let oa = if a < i { a } else { a + 1 };
                            assert(s[a] == old_entries[oa]);
                            assert(old_entries[oa].0@ != old_entries[i as int].0@);
                        }
                        if has_key(old_entries, key) && key != k {
                            let a = choose|a: int| 0 <= a < old_entries.len() && (#[trigger] old_entries[a]).0@ == key;
                            if a < i {
                                assert(s[a] == old_entries[a]);
                            } else {
                                assert(a != i);
                                assert(s[a - 1] == old_entries[a]);
                            }
                        }
                    }
                    assert forall|key: Seq<char>| #![auto] entries_map(s).dom().contains(key) implies entries_map(s)[key] == old(self).handles().remove(k)[key] by {
                        let a = choose|a: int| 0 <= a < s.len() && (#[trigger] s[a]).0@ == key;
                        let oa = if a < i { a } else { a + 1 };
                        assert(s[a] == old_entries[oa]);
                        lemma_handle_at(s, a);
                        lemma_handle_at(old_entries, oa);
                    }
                    assert(entries_map(s) =~= old(self).handles().remove(k));
                }
                Some(handle)
            },
            None => {
                assert(old(self).handles().remove(k) =~= old(self).handles());
                None
            },
        }
    }
}

/// Aborts the task with the given id when its handle is registered, and
/// forgets the handle. Returns whether a handle was registered; when one was,
/// exactly that handle was aborted.
pub fn abort_deep_video_task(registry: &mut AbortRegistry, task_id: &str) -> (r: bool)
    requires
        old(registry).wf(),
    ensures
        final(registry).wf(),
        r == old(registry).handles().dom().contains(task_id@),
        final(registry).handles() == old(registry).handles().remove(task_id@),
        final(registry).aborted_handles() == (if r {
            old(registry).aborted_handles().insert(old(registry).handles()[task_id@])
        } else {
            old(registry).aborted_handles()
        }),
{
    match registry.remove(task_id) {
        Some(handle) => {
            abort_handle(registry, &handle);
            true
        },
        None => false,
    }
}

/// A task that was just registered can be aborted, with the handle it was
/// registered with (the last one, when it was registered twice); once
/// aborted it is gone, so aborting it a second time reports that nothing was
/// registered, and the other tasks are untouched.
pub proof fn lemma_abort_once(handles: Map<Seq<char>, AbortHandle>, task_id: Seq<char>, handle: AbortHandle)
    ensures
        handles.insert(task_id, handle).dom().contains(task_id),
        handles.insert(task_id, handle)[task_id] == handle,
        !handles.remove(task_id).dom().contains(task_id),
        handles.insert(task_id, handle).remove(task_id) == handles.remove(task_id),
        forall|other: Seq<char>| other != task_id ==> (#[trigger] handles.remove(task_id).dom().contains(other)
            == handles.dom().contains(other)),
{
    assert(handles.insert(task_id, handle).remove(task_id) =~= handles.remove(task_id));
}


/// Where a queued deep video task stands.
#[derive(Debug, Clone, PartialEq, Eq)]
pub enum DeepVideoTaskPhase {
    /// Queued, with its abort handle registered; the queue has not started it yet.
    Queued,
    /// The analysis runs.
    Running,
    /// The analysis produced the result at this path; the queue is asked to complete the task.
    Completing(String),
    /// The analysis failed with this error; the queue is asked to fail the task.
    Failing(String),
    /// Nothing more happens for the task.
    Finished,
}

/// What happened to a queued deep video task.
#[derive(Debug, PartialEq, Eq)]
pub enum DeepVideoTaskEvent {
    /// The queue refused to start the task.
    StartRejected,
    /// The queue started the task; `running` tells whether it reports it as running.
    Started { running: bool },
    /// The analysis ended with the path of its result, or with an error.
    RunFinished(Result<String, String>),
    /// The analysis was aborted.
    Aborted,
    /// The queue answered whether it accepted the completion or failure.
    QueueAnswered(bool),
}

/// What to do for a queued deep video task.
#[derive(Debug, Clone, PartialEq, Eq)]
pub enum DeepVideoTaskAction {
    /// Record and announce the first progress of a running task.
    ReportRunning,
    /// Ask the queue to complete the task with this result path.
    CompleteInQueue(String),
    /// Ask the queue to fail the task with this error.
    FailInQueue(String),
    /// Announce the completed task with this result path.
    EmitCompleted(String),
    /// Announce the failed task with this error.
    EmitFailed(String),
    /// Drop the task's abort handle.
    ForgetHandle,
}

/// One step of a queued task: its next phase and the actions to take. A
/// task that does not start or does not run, and an aborted one, only drops
/// its handle; an outcome is announced only when the queue accepted it, and
/// the handle is dropped whenever the task finishes. Events that do not fit
/// the phase change nothing.
pub open spec fn task_step_spec(phase: DeepVideoTaskPhase, event: DeepVideoTaskEvent) -> (DeepVideoTaskPhase, Seq<DeepVideoTaskAction>) {
    match phase {
        DeepVideoTaskPhase::Queued => match event {
            DeepVideoTaskEvent::StartRejected => (DeepVideoTaskPhase::Finished, seq![DeepVideoTaskAction::ForgetHandle]),
            DeepVideoTaskEvent::Started { running } => if running {
                (DeepVideoTaskPhase::Running, seq![DeepVideoTaskAction::ReportRunning])
            } else {
                (DeepVideoTaskPhase::Finished, seq![DeepVideoTaskAction::ForgetHandle])
            },
            DeepVideoTaskEvent::Aborted => (DeepVideoTaskPhase::Finished, seq![DeepVideoTaskAction::ForgetHandle]),
            _ => (phase, seq![]),
        },
        DeepVideoTaskPhase::Running => match event {
            DeepVideoTaskEvent::RunFinished(Ok(path)) => (
                DeepVideoTaskPhase::Completing(path),
                seq![DeepVideoTaskAction::CompleteInQueue(path)],
            ),
            DeepVideoTaskEvent::RunFinished(Err(error)) => (
                DeepVideoTaskPhase::Failing(error),
                seq![DeepVideoTaskAction::FailInQueue(error)],
            ),
            DeepVideoTaskEvent::Aborted => (DeepVideoTaskPhase::Finished, seq![DeepVideoTaskAction::ForgetHandle]),
            _ => (phase, seq![]),
        },
        DeepVideoTaskPhase::Completing(path) => match event {
            DeepVideoTaskEvent::QueueAnswered(accepted) => (
                DeepVideoTaskPhase::Finished,
                if accepted {
                    seq![DeepVideoTaskAction::EmitCompleted(path), DeepVideoTaskAction::ForgetHandle]
                } else {
                    seq![DeepVideoTaskAction::ForgetHandle]
                },
            ),
            DeepVideoTaskEvent::Aborted => (DeepVideoTaskPhase::Finished, seq![DeepVideoTaskAction::ForgetHandle]),
            _ => (phase, seq![]),
        },
        DeepVideoTaskPhase::Failing(error) => match event {
            DeepVideoTaskEvent::QueueAnswered(accepted) => (
                DeepVideoTaskPhase::Finished,
                if accepted {
                    seq![DeepVideoTaskAction::EmitFailed(error), DeepVideoTaskAction::ForgetHandle]
                } else {
                    seq![DeepVideoTaskAction::ForgetHandle]
                },
            ),
            DeepVideoTaskEvent::Aborted => (DeepVideoTaskPhase::Finished, seq![DeepVideoTaskAction::ForgetHandle]),
            _ => (phase, seq![]),
        },
        DeepVideoTaskPhase::Finished => (phase, seq![]),
    }
}

/// One step of a queued deep video task (see `task_step_spec`).
pub fn deep_video_task_step(phase: DeepVideoTaskPhase, event: DeepVideoTaskEvent) -> (r: (DeepVideoTaskPhase, Vec<DeepVideoTaskAction>))
    ensures
        (r.0, r.1@) == task_step_spec(phase, event),
{
    let mut actions: Vec<DeepVideoTaskAction> = Vec::new();
    let next = match phase {
        DeepVideoTaskPhase::Queued => match event {
            DeepVideoTaskEvent::StartRejected => {
                actions.push(DeepVideoTaskAction::ForgetHandle);
                DeepVideoTaskPhase::Finished
            },
            DeepVideoTaskEvent::Started { running } => if running {
                actions.push(DeepVideoTaskAction::ReportRunning);
                DeepVideoTaskPhase::Running
            } else {
                actions.push(DeepVideoTaskAction::ForgetHandle);
                DeepVideoTaskPhase::Finished
            },
            DeepVideoTaskEvent::Aborted => {
                actions.push(DeepVideoTaskAction::ForgetHandle);
                DeepVideoTaskPhase::Finished
            },
            _ => DeepVideoTaskPhase::Queued,
        },
        DeepVideoTaskPhase::Running => match event {
            DeepVideoTaskEvent::RunFinished(Ok(path)) => {
                actions.push(DeepVideoTaskAction::CompleteInQueue(path.clone()));
                DeepVideoTaskPhase::Completing(path)
            },
            DeepVideoTaskEvent::RunFinished(Err(error)) => {
                actions.push(DeepVideoTaskAction::FailInQueue(error.clone()));
                DeepVideoTaskPhase::Failing(error)
            },
            DeepVideoTaskEvent::Aborted => {
                actions.push(DeepVideoTaskAction::ForgetHandle);
                DeepVideoTaskPhase::Finished
            },
            _ => DeepVideoTaskPhase::Running,
        },
        DeepVideoTaskPhase::Completing(path) => match event {
            DeepVideoTaskEvent::QueueAnswered(accepted) => {
                if accepted {
                    actions.push(DeepVideoTaskAction::EmitCompleted(path));
                }
                actions.push(DeepVideoTaskAction::ForgetHandle);
                DeepVideoTaskPhase::Finished
            },
            DeepVideoTaskEvent::Aborted => {
                actions.push(DeepVideoTaskAction::ForgetHandle);
                DeepVideoTaskPhase::Finished
            },
            _ => DeepVideoTaskPhase::Completing(path),
        },
        DeepVideoTaskPhase::Failing(error) => match event {
            DeepVideoTaskEvent::QueueAnswered(accepted) => {
                if accepted {
                    actions.push(DeepVideoTaskAction::EmitFailed(error));
                }
                actions.push(DeepVideoTaskAction::ForgetHandle);
                DeepVideoTaskPhase::Finished
            },
            DeepVideoTaskEvent::Aborted => {
                actions.push(DeepVideoTaskAction::ForgetHandle);
                DeepVideoTaskPhase::Finished
            },
            _ => DeepVideoTaskPhase::Failing(error),
        },
        DeepVideoTaskPhase::Finished => DeepVideoTaskPhase::Finished,
    };
    proof {
        assert(actions@ =~= task_step_spec(phase, event).1);
    }
    (next, actions)
}

/// A completion or failure is announced only in the step where the queue
/// accepted that very outcome: `EmitCompleted(p)` only from `Completing(p)`,
/// `EmitFailed(e)` only from `Failing(e)`, each on `QueueAnswered(true)`.
pub proof fn lemma_announced_only_when_accepted(phase: DeepVideoTaskPhase, event: DeepVideoTaskEvent, i: int)
    requires
        0 <= i < task_step_spec(phase, event).1.len(),
    ensures
        task_step_spec(phase, event).1[i] matches DeepVideoTaskAction::EmitCompleted(p) ==> phase
            == DeepVideoTaskPhase::Completing(p) && event == DeepVideoTaskEvent::QueueAnswered(true),
        task_step_spec(phase, event).1[i] matches DeepVideoTaskAction::EmitFailed(e) ==> phase
            == DeepVideoTaskPhase::Failing(e) && event == DeepVideoTaskEvent::QueueAnswered(true),
{
}

/// A task the queue does not start, or does not report as running, and an
/// aborted task, only drop their abort handle: nothing is announced.
pub proof fn lemma_unstarted_or_aborted_only_forget(phase: DeepVideoTaskPhase, event: DeepVideoTaskEvent)
    requires
        phase != DeepVideoTaskPhase::Finished,
        (phase == DeepVideoTaskPhase::Queued && (event == DeepVideoTaskEvent::StartRejected || event
            == DeepVideoTaskEvent::Started { running: false })) || event == DeepVideoTaskEvent::Aborted,
    ensures
        task_step_spec(phase, event) == (DeepVideoTaskPhase::Finished, seq![DeepVideoTaskAction::ForgetHandle]),
{
}

/// The handle is dropped exactly when the task finishes: every step into
/// `Finished` ends with `ForgetHandle`, no other step drops it, and nothing
/// happens once the task has finished.
pub proof fn lemma_handle_forgotten_at_end(phase: DeepVideoTaskPhase, event: DeepVideoTaskEvent)
    ensures
        ({
            let (next, actions) = task_step_spec(phase, event);
            &&& phase != DeepVideoTaskPhase::Finished && next == DeepVideoTaskPhase::Finished ==> actions.len() > 0
                && actions.last() == DeepVideoTaskAction::ForgetHandle
            &&& next != DeepVideoTaskPhase::Finished ==> !actions.contains(DeepVideoTaskAction::ForgetHandle)
            &&& phase == DeepVideoTaskPhase::Finished ==> next == DeepVideoTaskPhase::Finished && actions.len() == 0
        }),
{
    let (next, actions) = task_step_spec(phase, event);
    if next != DeepVideoTaskPhase::Finished && actions.contains(DeepVideoTaskAction::ForgetHandle) {
        let i = choose|i: int| 0 <= i < actions.len() && actions[i] == DeepVideoTaskAction::ForgetHandle;
        assert(actions[i] == DeepVideoTaskAction::ForgetHandle);
    }
}
} // verus!
