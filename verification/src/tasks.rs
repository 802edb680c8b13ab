//! The task table: one record per user-initiated fetch or transcription,
//! with its status, progress snapshot and cancellation flag.
//!
//! Statuses form a closed set whose terminal members are never overwritten:
//! once a task is completed, cancelled or failed, later progress events and
//! outcomes for the same id leave it untouched. Cancellation is a separate
//! flag, requested idempotently by the caller and observed by the pipeline,
//! which then records the `Cancelled` status itself.

use vstd::prelude::*;
use crate::text::str_eq;
use vstd::pervasive::VecAdditionalExecFns;

verus! {

/// What a task is for: fetching remote media (with optional captioning), or
/// captioning a local file.
#[derive(PartialEq, Eq, Structural, Clone, Copy)]
pub enum TaskKind {
    RemoteFetch,
    LocalTranscribe,
}

/// The closed set of task states. `Transcribing` carries the pipeline phase
/// it is in, such as `extracting` or `embedding`.
pub enum TaskStatus {
    Pending,
    Downloading,
    Transcribing(String),
    Completed,
    Error,
    Cancelled,
}

/// Terminal states admit no further mutation except deletion.
pub open spec fn spec_is_terminal(s: TaskStatus) -> bool {
    match s {
        TaskStatus::Completed => true,
        TaskStatus::Error => true,
        TaskStatus::Cancelled => true,
        _ => false,
    }
}

pub open spec fn spec_is_transcribing_with(s: TaskStatus, stage: Seq<char>) -> bool {
    match s {
        TaskStatus::Transcribing(t) => t@ == stage,
        _ => false,
    }
}

/// Per-task caption preferences chosen at submission.
pub struct SubtitleSettings {
    pub enabled: bool,
    pub engine: String,
    pub model: String,
    pub style: String,
}

/// One tracked request, from submission to a terminal state.
pub struct Task {
    pub id: String,
    pub url: String,
    pub title: String,
    pub status: TaskStatus,
    pub progress: u64,
    pub speed: Option<String>,
    pub eta: Option<String>,
    pub output_path: Option<String>,
    pub format: String,
    pub error: Option<String>,
    pub duration_ms: Option<u64>,
    pub engine: Option<String>,
    pub model: Option<String>,
    pub transcription_progress: Option<u64>,
    pub transcription_message: Option<String>,
    pub kind: TaskKind,
    pub source_path: Option<String>,
}

/// Everything of a task except its status and progress snapshot.
pub open spec fn spec_same_identity(a: Task, b: Task) -> bool {
    &&& a.id@ == b.id@
    &&& a.url@ == b.url@
    &&& a.title@ == b.title@
    &&& a.format@ == b.format@
    &&& a.duration_ms == b.duration_ms
    &&& a.engine == b.engine
    &&& a.model == b.model
    &&& a.kind == b.kind
    &&& a.source_path == b.source_path
}

/// How a pipeline run ended.
pub enum TaskOutcome {
    Completed,
    CaptionFailed(String),
    Failed(String),
    Cancelled,
}

/// The task table plus the cancellation flags of the pipelines still
/// running. Task ids are unique; a flag refers to a task by id.
pub struct TaskRegistry {
    pub tasks: Vec<Task>,
    pub cancel_flags: Vec<(String, bool)>,
}

impl TaskRegistry {
    /// Ids are unique in both tables.
    pub open spec fn wf(self) -> bool {
        &&& forall|i: int, j: int|
            0 <= i < j < self.tasks@.len() ==> self.tasks@[i].id@ != self.tasks@[j].id@
        &&& forall|i: int, j: int|
            0 <= i < j < self.cancel_flags@.len() ==> self.cancel_flags@[i].0@
                != self.cancel_flags@[j].0@
    }

    pub open spec fn spec_has_task(self, id: Seq<char>) -> bool {
        exists|i: int| 0 <= i < self.tasks@.len() && (#[trigger] self.tasks@[i]).id@ == id
    }

    pub open spec fn spec_has_flag(self, id: Seq<char>) -> bool {
        exists|i: int|
            0 <= i < self.cancel_flags@.len() && (#[trigger] self.cancel_flags@[i]).0@ == id
    }

    pub fn new() -> (r: TaskRegistry)
        ensures
            r.wf(),
            r.tasks@.len() == 0,
            r.cancel_flags@.len() == 0,
    {
        TaskRegistry { tasks: Vec::new(), cancel_flags: Vec::new() }
    }

    /// Inserts a freshly submitted task and issues its cancellation flag,
    /// initially unset. Fails only on a duplicate id.
    pub fn create(&mut self, task: Task) -> (r: Result<(), String>)
        requires
            old(self).wf(),
            matches!(task.status, TaskStatus::Pending),
        ensures
            final(self).wf(),
            r is Ok ==> !old(self).spec_has_task(task.id@) && final(self).tasks@ == old(
                self,
            ).tasks@.push(task) && final(self).cancel_flags@ == old(self).cancel_flags@.push(
                (task.id, false),
            ),
            r is Err ==> (old(self).spec_has_task(task.id@) || old(self).spec_has_flag(task.id@))
                && *final(self) == *old(self),
    {
        let n = self.tasks.len();
        for i in 0..n
            invariant
                old(self).wf(),
                *self == *old(self),
                n == self.tasks@.len(),
                forall|j: int| 0 <= j < i ==> (#[trigger] self.tasks@[j]).id@ != task.id@,
        {
            if self.tasks[i].id == task.id {
                return Err(String::from_str("a task with this id already exists"));
            }
        }
        let m = self.cancel_flags.len();
        for i in 0..m
            invariant
                old(self).wf(),
                *self == *old(self),
                m == self.cancel_flags@.len(),
                forall|j: int| 0 <= j < i ==> (#[trigger] self.cancel_flags@[j]).0@ != task.id@,
                forall|j: int| 0 <= j < self.tasks@.len() ==> (#[trigger] self.tasks@[j]).id@
                    != task.id@,
        {
            if self.cancel_flags[i].0 == task.id {
                return Err(String::from_str("a task with this id already exists"));
            }
        }
        let flag_id = clone_string(&task.id);
        self.tasks.push(task);
        self.cancel_flags.push((flag_id, false));
        proof {
            assert(forall|j: int|
                0 <= j < old(self).tasks@.len() ==> final(self).tasks@[j] == old(self).tasks@[j]);
            assert(forall|j: int|
                0 <= j < old(self).cancel_flags@.len() ==> final(self).cancel_flags@[j] == old(
                    self,
                ).cancel_flags@[j]);
        }
        Ok(())
    }

    /// Looks a task up by id.
    pub fn get(&self, id: &String) -> (r: Option<&Task>)
        ensures
            r matches Some(t) ==> exists|i: int|
                0 <= i < self.tasks@.len() && *t == (#[trigger] self.tasks@[i]) && t.id@ == id@,
            r is None ==> !self.spec_has_task(id@),
    {
        let n = self.tasks.len();
        for i in 0..n
            invariant
                n == self.tasks@.len(),
                forall|j: int| 0 <= j < i ==> (#[trigger] self.tasks@[j]).id@ != id@,
        {
            if self.tasks[i].id == *id {
                return Some(&self.tasks[i]);
            }
        }
        None
    }

    /// Records a media-fetch progress line: percent, speed, ETA and, when
    /// known, the destination path. Ignored for terminal tasks and unknown
    /// ids.
    pub fn apply_fetch_progress(
        &mut self,
        id: &String,
        progress: u64,
        speed: Option<String>,
        eta: Option<String>,
        filename: Option<String>,
    )
        requires
            old(self).wf(),
        ensures
            final(self).wf(),
            final(self).tasks@.len() == old(self).tasks@.len(),
            final(self).cancel_flags@ == old(self).cancel_flags@,
            forall|j: int|
                0 <= j < old(self).tasks@.len() && (#[trigger] old(self).tasks@[j]).id@ != id@
                    ==> final(self).tasks@[j] == old(self).tasks@[j],
            forall|j: int|
                0 <= j < old(self).tasks@.len() && (#[trigger] old(self).tasks@[j]).id@ == id@
                    ==> if spec_is_terminal(old(self).tasks@[j].status) {
                    final(self).tasks@[j] == old(self).tasks@[j]
                } else {
                    let t = final(self).tasks@[j];
                    let o = old(self).tasks@[j];
                    &&& spec_same_identity(t, o)
                    &&& t.status is Downloading
                    &&& t.progress == progress
                    &&& t.speed == speed
                    &&& t.eta == eta
                    &&& t.output_path == if filename is Some {
                        filename
                    } else {
                        o.output_path
                    }
                    &&& t.error == o.error
                    &&& t.transcription_progress == o.transcription_progress
                    &&& t.transcription_message == o.transcription_message
                },
    {
        let n = self.tasks.len();
        for i in 0..n
            invariant
                n == self.tasks@.len(),
                old(self).wf(),
                self.cancel_flags@ == old(self).cancel_flags@,
                self.tasks@.len() == old(self).tasks@.len(),
                forall|j: int| i <= j < n ==> self.tasks@[j] == old(self).tasks@[j],
                forall|j: int|
                    0 <= j < i && (#[trigger] old(self).tasks@[j]).id@ != id@ ==> self.tasks@[j]
                        == old(self).tasks@[j],
                forall|j: int|
                    0 <= j < i && (#[trigger] old(self).tasks@[j]).id@ == id@
                        ==> if spec_is_terminal(old(self).tasks@[j].status) {
                        self.tasks@[j] == old(self).tasks@[j]
                    } else {
                        let t = self.tasks@[j];
                        let o = old(self).tasks@[j];
                        &&& spec_same_identity(t, o)
                        &&& t.status is Downloading
                        &&& t.progress == progress
                        &&& t.speed == speed
                        &&& t.eta == eta
                        &&& t.output_path == if filename is Some {
                            filename
                        } else {
                            o.output_path
                        }
                        &&& t.error == o.error
                        &&& t.transcription_progress == o.transcription_progress
                        &&& t.transcription_message == o.transcription_message
                    },
        {
            if self.tasks[i].id == *id {
                let terminal = is_terminal_status(&self.tasks[i].status);
                if !terminal {
                    let mut u = clone_task(&self.tasks[i]);
                    u.status = TaskStatus::Downloading;
                    u.progress = progress;
                    u.speed = clone_opt_string(&speed);
                    u.eta = clone_opt_string(&eta);
                    if let Some(f) = &filename {
                        u.output_path = Some(clone_string(f));
                    }
                    self.tasks.set(i, u);
                }
                proof {
                    assert forall|a: int, b: int|
                        0 <= a < b < self.tasks@.len() implies self.tasks@[a].id@
                        != self.tasks@[b].id@ by {
                        assert(old(self).tasks@[a].id@ != old(self).tasks@[b].id@);
                    }
                }
                return ;
            }
        }
        proof {
            assert forall|a: int, b: int|
                0 <= a < b < self.tasks@.len() implies self.tasks@[a].id@ != self.tasks@[b].id@ by {
                assert(old(self).tasks@[a].id@ != old(self).tasks@[b].id@);
            }
        }
    }

    /// Records an engine progress event during transcription. The `complete`
    /// phase is consumed by the forwarder and never recorded here; terminal
    /// tasks and unknown ids are left untouched.
    pub fn apply_transcribe_progress(&mut self, id: &String, stage: &String, progress: u64, message: &String)
        requires
            old(self).wf(),
        ensures
            final(self).wf(),
            final(self).tasks@.len() == old(self).tasks@.len(),
            final(self).cancel_flags@ == old(self).cancel_flags@,
            forall|j: int|
                0 <= j < old(self).tasks@.len() && (#[trigger] old(self).tasks@[j]).id@ != id@
                    ==> final(self).tasks@[j] == old(self).tasks@[j],
            stage@ == "complete"@ ==> final(self).tasks@ == old(self).tasks@,
            forall|j: int|
                0 <= j < old(self).tasks@.len() && (#[trigger] old(self).tasks@[j]).id@ == id@
                    && stage@ != "complete"@ ==> if spec_is_terminal(
                    old(self).tasks@[j].status,
                ) {
                    final(self).tasks@[j] == old(self).tasks@[j]
                } else {
                    let t = final(self).tasks@[j];
                    let o = old(self).tasks@[j];
                    &&& spec_same_identity(t, o)
                    &&& spec_is_transcribing_with(t.status, stage@)
                    &&& t.progress == o.progress
                    &&& t.speed == o.speed
                    &&& t.eta == o.eta
                    &&& t.output_path == o.output_path
                    &&& t.error == o.error
                    &&& t.transcription_progress == Some(progress)
                    &&& (t.transcription_message matches Some(m) && m@ == message@)
                },
    {
        if string_eq(stage, "complete") {
            return ;
        }
        let n = self.tasks.len();
        for i in 0..n
            invariant
                n == self.tasks@.len(),
                old(self).wf(),
                stage@ != "complete"@,
                self.cancel_flags@ == old(self).cancel_flags@,
                self.tasks@.len() == old(self).tasks@.len(),
                forall|j: int| i <= j < n ==> self.tasks@[j] == old(self).tasks@[j],
                forall|j: int|
                    0 <= j < i && (#[trigger] old(self).tasks@[j]).id@ != id@ ==> self.tasks@[j]
                        == old(self).tasks@[j],
                forall|j: int|
                    0 <= j < i && (#[trigger] old(self).tasks@[j]).id@ == id@
                        ==> if spec_is_terminal(old(self).tasks@[j].status) {
                        self.tasks@[j] == old(self).tasks@[j]
                    } else {
                        let t = self.tasks@[j];
                        let o = old(self).tasks@[j];
                        &&& spec_same_identity(t, o)
                        &&& spec_is_transcribing_with(t.status, stage@)
                        &&& t.progress == o.progress
                        &&& t.speed == o.speed
                        &&& t.eta == o.eta
                        &&& t.output_path == o.output_path
                        &&& t.error == o.error
                        &&& t.transcription_progress == Some(progress)
                        &&& (t.transcription_message matches Some(m) && m@ == message@)
                    },
        {
            if self.tasks[i].id == *id {
                let terminal = is_terminal_status(&self.tasks[i].status);
                if !terminal {
                    let mut u = clone_task(&self.tasks[i]);
                    u.status = TaskStatus::Transcribing(clone_string(stage));
                    u.transcription_progress = Some(progress);
                    u.transcription_message = Some(clone_string(message));
                    self.tasks.set(i, u);
                }
                proof {
                    assert forall|a: int, b: int|
                        0 <= a < b < self.tasks@.len() implies self.tasks@[a].id@
                        != self.tasks@[b].id@ by {
                        assert(old(self).tasks@[a].id@ != old(self).tasks@[b].id@);
                    }
                }
                return ;
            }
        }
        proof {
            assert forall|a: int, b: int|
                0 <= a < b < self.tasks@.len() implies self.tasks@[a].id@ != self.tasks@[b].id@ by {
                assert(old(self).tasks@[a].id@ != old(self).tasks@[b].id@);
            }
        }
    }

    /// Requests cancellation: sets the task's flag, idempotently. The task's
    /// status is not changed here; the pipeline observing the flag records
    /// `Cancelled` itself.
    pub fn request_cancel(&mut self, id: &String)
        requires
            old(self).wf(),
        ensures
            final(self).wf(),
            final(self).tasks@ == old(self).tasks@,
            final(self).cancel_flags@.len() == old(self).cancel_flags@.len(),
            forall|j: int|
                0 <= j < old(self).cancel_flags@.len() && (#[trigger] old(
                    self,
                ).cancel_flags@[j]).0@ != id@ ==> final(self).cancel_flags@[j] == old(
                    self,
                ).cancel_flags@[j],
            forall|j: int|
                0 <= j < old(self).cancel_flags@.len() && (#[trigger] old(
                    self,
                ).cancel_flags@[j]).0@ == id@ ==> final(self).cancel_flags@[j].0 == old(
                    self,
                ).cancel_flags@[j].0 && final(self).cancel_flags@[j].1 == true,
    {
        let n = self.cancel_flags.len();
        for i in 0..n
            invariant
                n == self.cancel_flags@.len(),
                old(self).wf(),
                self.tasks@ == old(self).tasks@,
                self.cancel_flags@.len() == old(self).cancel_flags@.len(),
                forall|j: int| i <= j < n ==> self.cancel_flags@[j] == old(self).cancel_flags@[j],
                forall|j: int|
                    0 <= j < i && (#[trigger] old(self).cancel_flags@[j]).0@ != id@ ==> self
                        .cancel_flags@[j] == old(self).cancel_flags@[j],
                forall|j: int|
                    0 <= j < i && (#[trigger] old(self).cancel_flags@[j]).0@ == id@ ==> self
                        .cancel_flags@[j].0 == old(self).cancel_flags@[j].0 && self
                        .cancel_flags@[j].1 == true,
        {
            if self.cancel_flags[i].0 == *id {
                let name = clone_string(&self.cancel_flags[i].0);
                self.cancel_flags.set(i, (name, true));
                proof {
                    assert forall|a: int, b: int|
                        0 <= a < b < self.cancel_flags@.len() implies self.cancel_flags@[a].0@
                        != self.cancel_flags@[b].0@ by {
                        assert(old(self).cancel_flags@[a].0@ != old(self).cancel_flags@[b].0@);
                    }
                }
            }
        }
        proof {
            assert forall|a: int, b: int|
                0 <= a < b < self.cancel_flags@.len() implies self.cancel_flags@[a].0@
                != self.cancel_flags@[b].0@ by {
                assert(old(self).cancel_flags@[a].0@ != old(self).cancel_flags@[b].0@);
            }
        }
    }

    /// Observes the cancellation flag for a task, false for an unknown id.
    pub fn is_cancel_requested(&self, id: &String) -> (r: bool)
        ensures
            r == exists|i: int|
                0 <= i < self.cancel_flags@.len() && (#[trigger] self.cancel_flags@[i]).0@ == id@
                    && self.cancel_flags@[i].1,
    {
        let n = self.cancel_flags.len();
        for i in 0..n
            invariant
                n == self.cancel_flags@.len(),
                forall|j: int|
                    0 <= j < i ==> !((#[trigger] self.cancel_flags@[j]).0@ == id@ && self
                        .cancel_flags@[j].1),
        {
            if self.cancel_flags[i].0 == *id && self.cancel_flags[i].1 {
                return true;
            }
        }
        false
    }

    /// Drops the cancellation flag when a task's pipeline exits, on every
    /// exit path.
    pub fn remove_cancel_flag(&mut self, id: &String)
        requires
            old(self).wf(),
        ensures
            final(self).wf(),
            final(self).tasks@ == old(self).tasks@,
            final(self).cancel_flags@ == old(self).cancel_flags@.filter(
                |f: (String, bool)| f.0@ != id@,
            ),
    {
        let n = self.cancel_flags.len();
        let mut kept: Vec<(String, bool)> = Vec::new();
        proof {
            reveal(Seq::filter);
            assert(old(self).cancel_flags@.take(0) =~= Seq::<(String, bool)>::empty());
        }
        for i in 0..n
            invariant
                n == self.cancel_flags@.len(),
                old(self).wf(),
                self.tasks@ == old(self).tasks@,
                self.cancel_flags@ == old(self).cancel_flags@,
                kept@ == old(self).cancel_flags@.take(i as int).filter(
                    |f: (String, bool)| f.0@ != id@,
                ),
        {
            let ghost flags = old(self).cancel_flags@;
            let ghost prev = kept@;
            let keep = !(self.cancel_flags[i].0 == *id);
            proof {
                reveal(Seq::filter);
                assert(flags.take(i + 1).drop_last() =~= flags.take(i as int));
                assert(flags.take(i + 1).last() == flags[i as int]);
            }
            if keep {
                let name = clone_string(&self.cancel_flags[i].0);
                let value = self.cancel_flags[i].1;
                kept.push((name, value));
                proof {
                    assert((name, value) == flags[i as int]);
                    assert(kept@ =~= prev.push(flags[i as int]));
                }
            }
        }
        proof {
            assert(old(self).cancel_flags@.take(n as int) =~= old(self).cancel_flags@);
        }
        self.cancel_flags = kept;
        proof {
            lemma_filter_flags_unique(old(self).cancel_flags@, |f: (String, bool)| f.0@ != id@);
        }
    }

    /// Records how a pipeline run ended, honoring the policy that terminal
    /// states are never overwritten, that a cancelled task never turns into
    /// an error, and that for a remote fetch a captioning failure still
    /// counts as delivery: the task completes with a warning message.
    pub fn record_outcome(&mut self, id: &String, outcome: &TaskOutcome)
        requires
            old(self).wf(),
        ensures
            final(self).wf(),
            final(self).tasks@.len() == old(self).tasks@.len(),
            final(self).cancel_flags@ == old(self).cancel_flags@,
            forall|j: int|
                0 <= j < old(self).tasks@.len() && (#[trigger] old(self).tasks@[j]).id@ != id@
                    ==> final(self).tasks@[j] == old(self).tasks@[j],
            forall|j: int|
                0 <= j < old(self).tasks@.len() && (#[trigger] old(self).tasks@[j]).id@ == id@
                    ==> if spec_is_terminal(old(self).tasks@[j].status) {
                    final(self).tasks@[j] == old(self).tasks@[j]
                } else {
                    let t = final(self).tasks@[j];
                    let o = old(self).tasks@[j];
                    &&& spec_same_identity(t, o)
                    &&& t.speed == o.speed
                    &&& t.eta == o.eta
                    &&& t.output_path == o.output_path
                    &&& t.transcription_progress == o.transcription_progress
                    &&& t.transcription_message == o.transcription_message
                    &&& match outcome {
                        TaskOutcome::Completed => t.status is Completed && t.progress == 100
                            && t.error == o.error,
                        TaskOutcome::CaptionFailed(msg) => t.status is Completed && t.progress
                            == 100 && (t.error matches Some(e) && e@ == msg@),
                        TaskOutcome::Failed(msg) => t.status is Error && t.progress == o.progress
                            && (t.error matches Some(e) && e@ == msg@),
                        TaskOutcome::Cancelled => t.status is Cancelled && t.progress == o.progress
                            && t.error == o.error,
                    }
                },
    {
        let n = self.tasks.len();
        for i in 0..n
            invariant
                n == self.tasks@.len(),
                old(self).wf(),
                self.cancel_flags@ == old(self).cancel_flags@,
                self.tasks@.len() == old(self).tasks@.len(),
                forall|j: int| i <= j < n ==> self.tasks@[j] == old(self).tasks@[j],
                forall|j: int|
                    0 <= j < i && (#[trigger] old(self).tasks@[j]).id@ != id@ ==> self.tasks@[j]
                        == old(self).tasks@[j],
                forall|j: int|
                    0 <= j < i && (#[trigger] old(self).tasks@[j]).id@ == id@
                        ==> if spec_is_terminal(old(self).tasks@[j].status) {
                        self.tasks@[j] == old(self).tasks@[j]
                    } else {
                        let t = self.tasks@[j];
                        let o = old(self).tasks@[j];
                        &&& spec_same_identity(t, o)
                        &&& t.speed == o.speed
                        &&& t.eta == o.eta
                        &&& t.output_path == o.output_path
                        &&& t.transcription_progress == o.transcription_progress
                        &&& t.transcription_message == o.transcription_message
                        &&& match outcome {
                            TaskOutcome::Completed => t.status is Completed && t.progress == 100
                                && t.error == o.error,
                            TaskOutcome::CaptionFailed(msg) => t.status is Completed && t.progress
                                == 100 && (t.error matches Some(e) && e@ == msg@),
                            TaskOutcome::Failed(msg) => t.status is Error && t.progress
                                == o.progress && (t.error matches Some(e) && e@ == msg@),
                            TaskOutcome::Cancelled => t.status is Cancelled && t.progress
                                == o.progress && t.error == o.error,
                        }
                    },
        {
            if self.tasks[i].id == *id {
                let terminal = is_terminal_status(&self.tasks[i].status);
                if !terminal {
                    let mut u = clone_task(&self.tasks[i]);
                    match outcome {
                        TaskOutcome::Completed => {
                            u.status = TaskStatus::Completed;
                            u.progress = 100;
                        },
                        TaskOutcome::CaptionFailed(msg) => {
                            u.status = TaskStatus::Completed;
                            u.progress = 100;
                            u.error = Some(clone_string(msg));
                        },
                        TaskOutcome::Failed(msg) => {
                            u.status = TaskStatus::Error;
                            u.error = Some(clone_string(msg));
                        },
                        TaskOutcome::Cancelled => {
                            u.status = TaskStatus::Cancelled;
                        },
                    }
                    self.tasks.set(i, u);
                }
                proof {
                    assert forall|a: int, b: int|
                        0 <= a < b < self.tasks@.len() implies self.tasks@[a].id@
                        != self.tasks@[b].id@ by {
                        assert(old(self).tasks@[a].id@ != old(self).tasks@[b].id@);
                    }
                }
                return ;
            }
        }
        proof {
            assert forall|a: int, b: int|
                0 <= a < b < self.tasks@.len() implies self.tasks@[a].id@ != self.tasks@[b].id@ by {
                assert(old(self).tasks@[a].id@ != old(self).tasks@[b].id@);
            }
        }
    }

    /// Deletes a task and its cancellation flag after its terminal state has
    /// been displayed or the caller clears it; every other entry stays
    /// exactly as it was.
    pub fn remove(&mut self, id: &String)
        requires
            old(self).wf(),
        ensures
            final(self).wf(),
            final(self).tasks@ == old(self).tasks@.filter(|t: Task| t.id@ != id@),
            final(self).cancel_flags@ == old(self).cancel_flags@.filter(
                |f: (String, bool)| f.0@ != id@,
            ),
            !final(self).spec_has_task(id@),
    {
        let ghost src = self.tasks@;
        let mut kept: Vec<Task> = Vec::new();
        let n = self.tasks.len();
        proof {
            reveal(Seq::filter);
            assert(src.take(0) =~= Seq::<Task>::empty());
        }
        for i in 0..n
            invariant
                n == self.tasks@.len(),
                old(self).wf(),
                src == self.tasks@,
                self.tasks@ == old(self).tasks@,
                self.cancel_flags@ == old(self).cancel_flags@,
                kept@ == src.take(i as int).filter(|t: Task| t.id@ != id@),
        {
            let ghost prev = kept@;
            let keep = !(self.tasks[i].id == *id);
            proof {
                reveal(Seq::filter);
                assert(src.take(i + 1).drop_last() =~= src.take(i as int));
                assert(src.take(i + 1).last() == src[i as int]);
            }
            if keep {
                let copied = clone_task(&self.tasks[i]);
                proof {
                    assert(copied == src[i as int]);
                }
                kept.push(copied);
                proof {
                    assert(kept@ =~= prev.push(src[i as int]));
                }
            }
        }
        proof {
            assert(src.take(n as int) =~= src);
        }
        self.tasks = kept;
        proof {
            lemma_task_filter_unique(src, |t: Task| t.id@ != id@);
        }
        self.remove_cancel_flag(id);
        proof {
            broadcast use vstd::seq_lib::group_filter_ensures;

            let out = self.tasks@;
            assert forall|k: int| 0 <= k < out.len() implies (#[trigger] out[k]).id@ != id@ by {
                assert(out[k] == src.filter(|t: Task| t.id@ != id@)[k]);
            }
        }
    }
}

/// Whether a status admits no further mutation.
pub fn is_terminal_status(s: &TaskStatus) -> (r: bool)
    ensures
        r == spec_is_terminal(*s),
{
    match s {
        TaskStatus::Completed => true,
        TaskStatus::Error => true,
        TaskStatus::Cancelled => true,
        _ => false,
    }
}

/// A filter of a sequence with unique first components keeps them unique.
proof fn lemma_filter_flags_unique(s: Seq<(String, bool)>, pred: spec_fn((String, bool)) -> bool)
    requires
        forall|i: int, j: int| 0 <= i < j < s.len() ==> s[i].0@ != s[j].0@,
    ensures
        forall|i: int, j: int|
            0 <= i < j < s.filter(pred).len() ==> s.filter(pred)[i].0@ != s.filter(pred)[j].0@,
{
    lemma_flags_filter_subset_pairs(s, pred);
}

proof fn lemma_flags_filter_subset_pairs(s: Seq<(String, bool)>, pred: spec_fn((String, bool) ) -> bool)
    requires
        forall|i: int, j: int| 0 <= i < j < s.len() ==> s[i].0@ != s[j].0@,
    ensures
        forall|i: int, j: int|
            0 <= i < j < s.filter(pred).len() ==> s.filter(pred)[i].0@ != s.filter(pred)[j].0@,
    decreases s.len(),
{
    reveal(Seq::filter);
    if s.len() > 0 {
        let sub = s.drop_last();
        lemma_flags_filter_subset_pairs(sub, pred);
        let out = s.filter(pred);
        let sub_out = sub.filter(pred);
        lemma_flags_filter_membership(sub, pred);
        assert forall|i: int, j: int| 0 <= i < j < out.len() implies out[i].0@ != out[j].0@ by {
            if pred(s.last()) && j == out.len() - 1 {
                assert(out[j] == s.last());
                assert(out[i] == sub_out[i]);
                assert(sub.contains(sub_out[i]));
                let w = choose|w: int| 0 <= w < sub.len() && sub[w] == sub_out[i];
                assert(s[w] == out[i]);
                assert(s[s.len() - 1] == s.last());
            } else {
                assert(out[i] == sub_out[i]);
                assert(out[j] == sub_out[j]);
            }
        }
    }
}

proof fn lemma_flags_filter_membership(s: Seq<(String, bool)>, pred: spec_fn((String, bool)) -> bool)
    ensures
        forall|i: int|
            0 <= i < s.filter(pred).len() ==> s.contains(#[trigger] s.filter(pred)[i]),
    decreases s.len(),
{
    reveal(Seq::filter);
    if s.len() > 0 {
        lemma_flags_filter_membership(s.drop_last(), pred);
        let out = s.filter(pred);
        let sub = s.drop_last().filter(pred);
        assert forall|i: int| 0 <= i < out.len() implies s.contains(#[trigger] out[i]) by {
            if i < sub.len() {
                assert(s.drop_last().contains(sub[i]));
                let j = choose|j: int|
                    0 <= j < s.drop_last().len() && s.drop_last()[j] == sub[i];
                assert(s[j] == out[i]);
            } else {
                assert(out[i] == s.last());
                assert(s[s.len() - 1] == s.last());
            }
        }
    }
}

/// Copies a task status.
pub fn clone_status(s: &TaskStatus) -> (r: TaskStatus)
    ensures
        r == *s,
{
    match s {
        TaskStatus::Pending => TaskStatus::Pending,
        TaskStatus::Downloading => TaskStatus::Downloading,
        TaskStatus::Transcribing(stage) => TaskStatus::Transcribing(stage.clone()),
        TaskStatus::Completed => TaskStatus::Completed,
        TaskStatus::Error => TaskStatus::Error,
        TaskStatus::Cancelled => TaskStatus::Cancelled,
    }
}

/// Copies a task record.
pub fn clone_task(t: &Task) -> (r: Task)
    ensures
        r == *t,
{
    Task {
        id: t.id.clone(),
        url: t.url.clone(),
        title: t.title.clone(),
        status: clone_status(&t.status),
        progress: t.progress,
        speed: clone_opt_string(&t.speed),
        eta: clone_opt_string(&t.eta),
        output_path: clone_opt_string(&t.output_path),
        format: t.format.clone(),
        error: clone_opt_string(&t.error),
        duration_ms: t.duration_ms,
        engine: clone_opt_string(&t.engine),
        model: clone_opt_string(&t.model),
        transcription_progress: t.transcription_progress,
        transcription_message: clone_opt_string(&t.transcription_message),
        kind: t.kind,
        source_path: clone_opt_string(&t.source_path),
    }
}

/// Copies a string.
pub fn clone_string(s: &String) -> (r: String)
    ensures
        r == *s,
{
    s.clone()
}

/// Copies an optional string.
pub fn clone_opt_string(s: &Option<String>) -> (r: Option<String>)
    ensures
        r == *s,
{
    match s {
        Some(v) => Some(v.clone()),
        None => None,
    }
}

fn string_eq(a: &String, b: &str) -> (r: bool)
    ensures
        r == (a@ == b@),
{
    let bs = String::from_str(b);
    a.eq(&bs)
}


impl TaskStatus {
    /// The conventional string form of a status; a transcription phase is
    /// carried after a colon.
    pub open spec fn spec_text(&self) -> Seq<char> {
        match self {
            TaskStatus::Pending => "pending"@,
            TaskStatus::Downloading => "downloading"@,
            TaskStatus::Transcribing(stage) => "transcribing:"@ + stage@,
            TaskStatus::Completed => "completed"@,
            TaskStatus::Error => "error"@,
            TaskStatus::Cancelled => "cancelled"@,
        }
    }

    pub fn text(&self) -> (r: String)
        ensures
            r@ == self.spec_text(),
    {
        match self {
            TaskStatus::Pending => String::from_str("pending"),
            TaskStatus::Downloading => String::from_str("downloading"),
            TaskStatus::Transcribing(stage) => String::from_str("transcribing:").concat(
                stage.as_str(),
            ),
            TaskStatus::Completed => String::from_str("completed"),
            TaskStatus::Error => String::from_str("error"),
            TaskStatus::Cancelled => String::from_str("cancelled"),
        }
    }
}

impl TaskRegistry {
    /// Drops every task that reached a terminal state; running tasks stay.
    pub fn clear_completed(&mut self)
        requires
            old(self).wf(),
        ensures
            final(self).wf(),
            final(self).cancel_flags@ == old(self).cancel_flags@,
            final(self).tasks@ == old(self).tasks@.filter(
                |t: Task| !spec_is_terminal(t.status),
            ),
    {
        let ghost src = self.tasks@;
        let mut kept: Vec<Task> = Vec::new();
        let n = self.tasks.len();
        proof {
            reveal(Seq::filter);
            assert(src.take(0) =~= Seq::<Task>::empty());
        }
        for i in 0..n
            invariant
                n == self.tasks@.len(),
                old(self).wf(),
                src == self.tasks@,
                self.tasks@ == old(self).tasks@,
                self.cancel_flags@ == old(self).cancel_flags@,
                kept@ == src.take(i as int).filter(|t: Task| !spec_is_terminal(t.status)),
        {
            let ghost prev = kept@;
            let keep = !is_terminal_status(&self.tasks[i].status);
            proof {
                reveal(Seq::filter);
                assert(src.take(i + 1).drop_last() =~= src.take(i as int));
                assert(src.take(i + 1).last() == src[i as int]);
            }
            if keep {
                let copied = clone_task(&self.tasks[i]);
                proof {
                    assert(copied == src[i as int]);
                }
                kept.push(copied);
                proof {
                    assert(kept@ =~= prev.push(src[i as int]));
                }
            }
        }
        proof {
            assert(src.take(n as int) =~= src);
        }
        self.tasks = kept;
        proof {
            lemma_task_filter_unique(src, |t: Task| !spec_is_terminal(t.status));
        }
    }

    /// Changes the caption settings of a task that has not started yet; any
    /// other state refuses the change.
    pub fn update_settings(&mut self, id: &String, engine: Option<String>, model: Option<String>) -> (r: Result<(), String>)
        requires
            old(self).wf(),
        ensures
            final(self).wf(),
            final(self).cancel_flags@ == old(self).cancel_flags@,
            final(self).tasks@.len() == old(self).tasks@.len(),
            forall|j: int|
                0 <= j < old(self).tasks@.len() && (#[trigger] old(self).tasks@[j]).id@ != id@
                    ==> final(self).tasks@[j] == old(self).tasks@[j],
            !old(self).spec_has_task(id@) ==> (r matches Err(e) && e@ == "Task not found"@
                && final(self).tasks@ == old(self).tasks@),
            forall|j: int|
                0 <= j < old(self).tasks@.len() && (#[trigger] old(self).tasks@[j]).id@ == id@
                    ==> if !(old(self).tasks@[j].status is Pending) {
                    final(self).tasks@[j] == old(self).tasks@[j] && (r matches Err(e) && e@
                        == "Can only update settings for pending tasks"@)
                } else {
                    let t = final(self).tasks@[j];
                    let o = old(self).tasks@[j];
                    &&& r is Ok
                    &&& t.id == o.id
                    &&& t.url == o.url
                    &&& t.title == o.title
                    &&& t.status is Pending
                    &&& t.progress == o.progress
                    &&& t.speed == o.speed
                    &&& t.eta == o.eta
                    &&& t.output_path == o.output_path
                    &&& t.format == o.format
                    &&& t.error == o.error
                    &&& t.duration_ms == o.duration_ms
                    &&& t.transcription_progress == o.transcription_progress
                    &&& t.transcription_message == o.transcription_message
                    &&& t.kind == o.kind
                    &&& t.source_path == o.source_path
                    &&& t.engine == if engine is Some {
                        engine
                    } else {
                        o.engine
                    }
                    &&& t.model == if model is Some {
                        model
                    } else {
                        o.model
                    }
                },
    {
        let n = self.tasks.len();
        for i in 0..n
            invariant
                old(self).wf(),
                *self == *old(self),
                n == self.tasks@.len(),
                forall|j: int| 0 <= j < i ==> (#[trigger] self.tasks@[j]).id@ != id@,
        {
            if self.tasks[i].id == *id {
                if !matches!(self.tasks[i].status, TaskStatus::Pending) {
                    return Err(String::from_str("Can only update settings for pending tasks"));
                }
                let mut u = clone_task(&self.tasks[i]);
                if let Some(e) = engine {
                    u.engine = Some(e);
                }
                if let Some(m) = model {
                    u.model = Some(m);
                }
                self.tasks.set(i, u);
                proof {
                    assert forall|a: int, b: int|
                        0 <= a < b < self.tasks@.len() implies self.tasks@[a].id@
                        != self.tasks@[b].id@ by {
                        assert(old(self).tasks@[a].id@ != old(self).tasks@[b].id@);
                    }
                }
                return Ok(());
            }
        }
        Err(String::from_str("Task not found"))
    }
}

/// A filter keeps task ids unique.
proof fn lemma_task_filter_unique(s: Seq<Task>, pred: spec_fn(Task) -> bool)
    requires
        forall|i: int, j: int| 0 <= i < j < s.len() ==> s[i].id@ != s[j].id@,
    ensures
        forall|i: int, j: int|
            0 <= i < j < s.filter(pred).len() ==> s.filter(pred)[i].id@ != s.filter(pred)[j].id@,
    decreases s.len(),
{
    reveal(Seq::filter);
    if s.len() > 0 {
        let sub = s.drop_last();
        lemma_task_filter_unique(sub, pred);
        let out = s.filter(pred);
        let sub_out = sub.filter(pred);
        lemma_task_filter_membership(sub, pred);
        assert forall|i: int, j: int| 0 <= i < j < out.len() implies out[i].id@ != out[j].id@ by {
            if pred(s.last()) && j == out.len() - 1 {
                assert(out[j] == s.last());
                assert(out[i] == sub_out[i]);
                assert(sub.contains(sub_out[i]));
                let w = choose|w: int| 0 <= w < sub.len() && sub[w] == sub_out[i];
                assert(s[w] == out[i]);
                assert(s[s.len() - 1] == s.last());
            } else {
                assert(out[i] == sub_out[i]);
                assert(out[j] == sub_out[j]);
            }
        }
    }
}

proof fn lemma_task_filter_membership(s: Seq<Task>, pred: spec_fn(Task) -> bool)
    ensures
        forall|i: int|
            0 <= i < s.filter(pred).len() ==> s.contains(#[trigger] s.filter(pred)[i]),
    decreases s.len(),
{
    reveal(Seq::filter);
    if s.len() > 0 {
        lemma_task_filter_membership(s.drop_last(), pred);
        let out = s.filter(pred);
        let sub = s.drop_last().filter(pred);
        assert forall|i: int| 0 <= i < out.len() implies s.contains(#[trigger] out[i]) by {
            if i < sub.len() {
                assert(s.drop_last().contains(sub[i]));
                let j = choose|j: int|
                    0 <= j < s.drop_last().len() && s.drop_last()[j] == sub[i];
                assert(s[j] == out[i]);
            } else {
                assert(out[i] == s.last());
                assert(s[s.len() - 1] == s.last());
            }
        }
    }
}

/// The caption choice made at submission: the per-task settings when given,
/// else the saved preferences with the sentence style.
pub fn resolve_subtitle_choice(
    settings: &Option<SubtitleSettings>,
    cfg_generate: bool,
    cfg_engine: &String,
    cfg_model: &String,
) -> (r: (bool, String, String, String))
    ensures
        settings matches Some(s) ==> r.0 == s.enabled && r.1@ == s.engine@ && r.2@ == s.model@
            && r.3@ == s.style@,
        settings is None ==> r.0 == cfg_generate && r.1@ == cfg_engine@ && r.2@ == cfg_model@
            && r.3@ == "sentence"@,
{
    match settings {
        Some(s) => (s.enabled, clone_string(&s.engine), clone_string(&s.model), clone_string(
            &s.style,
        )),
        None => (cfg_generate, clone_string(cfg_engine), clone_string(cfg_model), String::from_str(
            "sentence",
        )),
    }
}

/// Whether a quality selection fetches audio alone.
pub fn is_audio_only(quality: &str) -> (r: bool)
    ensures
        r == (quality@ == "audio"@ || quality@ == "mp3"@),
{
    str_eq(quality, "audio") || str_eq(quality, "mp3")
}

/// The container the merged output is remuxed into: an explicit choice
/// stands (`original` meaning none), an audio-only fetch takes none, and
/// otherwise the saved default applies.
pub fn container_format_choice(
    container: &Option<String>,
    audio_only: bool,
    default_format: &String,
) -> (r: Option<String>)
    ensures
        ({
            match container {
                Some(c) => if c@ == "original"@ {
                    r is None
                } else {
                    r matches Some(rc) && rc@ == c@
                },
                None => if audio_only {
                    r is None
                } else {
                    r matches Some(rc) && rc@ == default_format@
                },
            }
        }),
{
    match container {
        Some(c) => {
            if str_eq(c.as_str(), "original") {
                None
            } else {
                Some(clone_string(c))
            }
        },
        None => {
            if audio_only {
                None
            } else {
                Some(clone_string(default_format))
            }
        },
    }
}

/// Checks that a task may start its local captioning run, handing back what
/// the pipeline needs; mirrors the order of the submission checks.
pub fn check_local_start(task: &Task) -> (r: Result<(String, String, String), String>)
    ensures
        !(task.kind is LocalTranscribe) ==> (r matches Err(e) && e@
            == "Not a local transcription task"@),
        task.kind is LocalTranscribe && !(task.status is Pending) ==> (r matches Err(e) && e@
            == "Task is not pending, status: "@ + task.status.spec_text()),
        task.kind is LocalTranscribe && task.status is Pending && task.source_path is None ==> (r
            matches Err(e) && e@ == "No source path"@),
        task.kind is LocalTranscribe && task.status is Pending && task.source_path is Some
            && task.engine is None ==> (r matches Err(e) && e@ == "No engine specified"@),
        task.kind is LocalTranscribe && task.status is Pending && task.source_path is Some
            && task.engine is Some && task.model is None ==> (r matches Err(e) && e@
            == "No model specified"@),
        task.source_path matches Some(sp) ==> task.engine matches Some(en)
            ==> task.model matches Some(mo) ==> ((task.kind is LocalTranscribe
            && task.status is Pending) ==> (r matches Ok(t) && t.0@ == sp@ && t.1@ == en@
            && t.2@ == mo@)),
{
    if !matches!(task.kind, TaskKind::LocalTranscribe) {
        return Err(String::from_str("Not a local transcription task"));
    }
    if !matches!(task.status, TaskStatus::Pending) {
        return Err(String::from_str("Task is not pending, status: ").concat(
            task.status.text().as_str(),
        ));
    }
    let source = match &task.source_path {
        Some(s) => clone_string(s),
        None => {
            return Err(String::from_str("No source path"));
        },
    };
    let engine = match &task.engine {
        Some(e) => clone_string(e),
        None => {
            return Err(String::from_str("No engine specified"));
        },
    };
    let model = match &task.model {
        Some(m) => clone_string(m),
        None => {
            return Err(String::from_str("No model specified"));
        },
    };
    Ok((source, engine, model))
}


/// The record a fresh remote fetch enters the table with: pending, no
/// progress, the caption choice recorded only when captioning is on.
pub fn make_fetch_task(
    id: String,
    url: String,
    title: String,
    format: String,
    duration_ms: Option<u64>,
    generate_subtitles: bool,
    engine: String,
    model: String,
) -> (r: Task)
    ensures
        r.id@ == id@,
        r.url@ == url@,
        r.title@ == title@,
        r.status is Pending,
        r.progress == 0,
        r.speed is None && r.eta is None && r.output_path is None && r.error is None,
        r.format@ == format@,
        r.duration_ms == duration_ms,
        r.engine == if generate_subtitles {
            Some(engine)
        } else {
            None::<String>
        },
        r.model == if generate_subtitles {
            Some(model)
        } else {
            None::<String>
        },
        r.transcription_progress is None && r.transcription_message is None,
        r.kind is RemoteFetch,
        r.source_path is None,
{
    Task {
        id,
        url,
        title,
        status: TaskStatus::Pending,
        progress: 0,
        speed: None,
        eta: None,
        output_path: None,
        format,
        error: None,
        duration_ms,
        engine: if generate_subtitles {
            Some(engine)
        } else {
            None
        },
        model: if generate_subtitles {
            Some(model)
        } else {
            None
        },
        transcription_progress: None,
        transcription_message: None,
        kind: TaskKind::RemoteFetch,
        source_path: None,
    }
}

/// The record a local captioning request enters the table with: pending,
/// the file standing as both source and output.
pub fn make_local_task(
    id: String,
    title: String,
    file_path: String,
    engine: String,
    model: String,
) -> (r: Task)
    ensures
        r.id@ == id@,
        r.url@.len() == 0,
        r.title@ == title@,
        r.status is Pending,
        r.progress == 0,
        r.speed is None && r.eta is None && r.error is None,
        (r.output_path matches Some(p) && p@ == file_path@),
        r.format@.len() == 0,
        r.duration_ms is None,
        (r.engine matches Some(e) && e@ == engine@),
        (r.model matches Some(m) && m@ == model@),
        r.transcription_progress is None && r.transcription_message is None,
        r.kind is LocalTranscribe,
        (r.source_path matches Some(s) && s@ == file_path@),
{
    let source = clone_string(&file_path);
    Task {
        id,
        url: String::new(),
        title,
        status: TaskStatus::Pending,
        progress: 0,
        speed: None,
        eta: None,
        output_path: Some(file_path),
        format: String::new(),
        error: None,
        duration_ms: None,
        engine: Some(engine),
        model: Some(model),
        transcription_progress: None,
        transcription_message: None,
        kind: TaskKind::LocalTranscribe,
        source_path: Some(source),
    }
}

} // verus!
