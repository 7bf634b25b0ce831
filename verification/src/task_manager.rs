//! The table of download tasks and the transitions each task goes through.
//!
//! A task is created `Pending`, becomes `Running` while it advances through stages,
//! and ends `Completed`, `Failed` or `Cancelled`. A cancel request is remembered on the
//! task: every later attempt to complete or fail it turns it `Cancelled` instead.
use vstd::prelude::*;
use crate::models::{CreateTaskRequest, OutputFile, Progress, TaskState, TaskStatusResponse};
use crate::text::{chars_eq, chars_of, opt_view};

verus! {

/// A task and everything reported about it so far.
#[derive(Debug)]
pub struct TaskRecord {
    pub task_id: String,
    pub request: CreateTaskRequest,
    pub status: TaskState,
    pub stage: Option<String>,
    pub progress: Option<Progress>,
    pub downloaded_bytes: Option<u64>,
    pub total_bytes: Option<u64>,
    pub speed_bytes: Option<u64>,
    pub eta_seconds: Option<u64>,
    pub manifest_path: Option<String>,
    pub target_path: Option<String>,
    pub output_files: Vec<OutputFile>,
    pub error: Option<String>,
    pub cancel_requested: bool,
}

/// A task record with its texts taken as character sequences.
pub struct TaskRecordView {
    pub task_id: Seq<char>,
    pub request: CreateTaskRequest,
    pub status: TaskState,
    pub stage: Option<Seq<char>>,
    pub progress: Option<Progress>,
    pub downloaded_bytes: Option<u64>,
    pub total_bytes: Option<u64>,
    pub speed_bytes: Option<u64>,
    pub eta_seconds: Option<u64>,
    pub manifest_path: Option<Seq<char>>,
    pub target_path: Option<Seq<char>>,
    pub output_files: Seq<OutputFile>,
    pub error: Option<Seq<char>>,
    pub cancel_requested: bool,
}

impl View for TaskRecord {
    type V = TaskRecordView;

    open spec fn view(&self) -> TaskRecordView {
        TaskRecordView {
            task_id: self.task_id@,
            request: self.request,
            status: self.status,
            stage: opt_view(self.stage),
            progress: self.progress,
            downloaded_bytes: self.downloaded_bytes,
            total_bytes: self.total_bytes,
            speed_bytes: self.speed_bytes,
            eta_seconds: self.eta_seconds,
            manifest_path: opt_view(self.manifest_path),
            target_path: opt_view(self.target_path),
            output_files: self.output_files@,
            error: opt_view(self.error),
            cancel_requested: self.cancel_requested,
        }
    }
}

/// A task as it is created: pending, queued, at 0%.
pub open spec fn created(task_id: Seq<char>, request: CreateTaskRequest) -> TaskRecordView {
    TaskRecordView {
        task_id,
        request,
        status: TaskState::Pending,
        stage: Some("queued"@),
        progress: Some(Progress::Percent(0)),
        downloaded_bytes: None,
        total_bytes: None,
        speed_bytes: None,
        eta_seconds: None,
        manifest_path: None,
        target_path: None,
        output_files: Seq::empty(),
        error: None,
        cancel_requested: false,
    }
}

/// The task marked cancelled (status, stage and error), all else kept.
pub open spec fn marked_cancelled(t: TaskRecordView) -> TaskRecordView {
    TaskRecordView {
        status: TaskState::Cancelled,
        stage: Some("cancelled"@),
        error: Some("task cancelled"@),
        ..t
    }
}

/// A cancel request: remembered on the task; a pending or running task is cancelled
/// at once and keeps its progress (0% when it had none).
pub open spec fn after_cancel_request(t: TaskRecordView) -> TaskRecordView {
    let t1 = TaskRecordView { cancel_requested: true, ..t };
    if t.status == TaskState::Pending || t.status == TaskState::Running {
        TaskRecordView {
            progress: Some(
                match t.progress {
                    Some(p) => p,
                    None => Progress::Percent(0),
                },
            ),
            ..marked_cancelled(t1)
        }
    } else {
        t1
    }
}

/// A cancel request not yet acted upon.
pub open spec fn cancel_pending(t: TaskRecordView) -> bool {
    t.cancel_requested && t.status != TaskState::Cancelled
}

/// A new stage with its percentage (capped at 100); a pending cancel request is acted
/// upon instead.
pub open spec fn after_stage(t: TaskRecordView, stage: Seq<char>, percent: u64) -> TaskRecordView {
    if cancel_pending(t) {
        marked_cancelled(t)
    } else {
        TaskRecordView {
            status: TaskState::Running,
            stage: Some(stage),
            progress: Some(Progress::Percent(if percent > 100 { 100 } else { percent })),
            ..t
        }
    }
}

/// A download progress report; a pending cancel request is acted upon instead.
/// The percentage comes from `percent` when given, else from the byte counts when
/// the total is known and above zero, else it is kept.
pub open spec fn after_download_progress(
    t: TaskRecordView,
    percent: Option<u64>,
    downloaded_bytes: Option<u64>,
    total_bytes: Option<u64>,
    speed_bytes: Option<u64>,
    eta_seconds: Option<u64>,
) -> TaskRecordView {
    if cancel_pending(t) {
        marked_cancelled(t)
    } else {
        TaskRecordView {
            status: TaskState::Running,
            stage: Some("downloading"@),
            progress: match percent {
                Some(p) => Some(Progress::Percent(if p > 100 { 100 } else { p })),
                None => match (downloaded_bytes, total_bytes) {
                    (Some(d), Some(n)) => if n > 0 {
                        Some(Progress::Ratio(d, n))
                    } else {
                        t.progress
                    },
                    _ => t.progress,
                },
            },
            downloaded_bytes: match downloaded_bytes {
                Some(d) => Some(d),
                None => t.downloaded_bytes,
            },
            total_bytes: match total_bytes {
                Some(n) => Some(n),
                None => t.total_bytes,
            },
            speed_bytes,
            eta_seconds,
            ..t
        }
    }
}

/// The largest known size among `files`.
pub open spec fn max_size(files: Seq<OutputFile>) -> Option<u64>
    decreases files.len(),
{
    if files.len() == 0 {
        None
    } else {
        match (max_size(files.drop_last()), files.last().size_bytes) {
            (None, s) => s,
            (Some(a), None) => Some(a),
            (Some(a), Some(b)) => Some(if a > b { a } else { b }),
        }
    }
}

/// Completion: the task ends `Completed` at 100% with its outputs; when cancellation
/// was requested it ends `Cancelled` instead.
pub open spec fn after_complete(
    t: TaskRecordView,
    manifest_path: Option<Seq<char>>,
    target_path: Option<Seq<char>>,
    output_files: Seq<OutputFile>,
) -> TaskRecordView {
    if t.cancel_requested {
        marked_cancelled(t)
    } else {
        TaskRecordView {
            status: TaskState::Completed,
            stage: Some("completed"@),
            progress: Some(Progress::Percent(100)),
            downloaded_bytes: max_size(output_files),
            total_bytes: max_size(output_files),
            speed_bytes: None,
            eta_seconds: Some(0),
            manifest_path,
            target_path,
            output_files,
            error: None,
            ..t
        }
    }
}

/// Failure: the task ends `Failed` with the message; when cancellation was requested
/// it ends `Cancelled` instead.
pub open spec fn after_fail(t: TaskRecordView, message: Seq<char>) -> TaskRecordView {
    if t.cancel_requested {
        marked_cancelled(t)
    } else {
        TaskRecordView {
            status: TaskState::Failed,
            stage: Some("failed"@),
            error: Some(message),
            ..t
        }
    }
}

/// No two tasks share an id.
pub open spec fn distinct_ids(s: Seq<TaskRecord>) -> bool {
    forall|i: int, j: int|
        0 <= i < s.len() && 0 <= j < s.len() && i != j ==> #[trigger] s[i].task_id@ != #[trigger] s[j].task_id@
}

pub open spec fn has_task(s: Seq<TaskRecord>, id: Seq<char>) -> bool {
    exists|i: int| 0 <= i < s.len() && #[trigger] s[i].task_id@ == id
}

/// The task with id `id`, if there is one.
pub open spec fn lookup_in(s: Seq<TaskRecord>, id: Seq<char>) -> Option<TaskRecordView> {
    if has_task(s, id) {
        let i = choose|i: int| 0 <= i < s.len() && #[trigger] s[i].task_id@ == id;
        Some(s[i]@)
    } else {
        None
    }
}

proof fn lemma_lookup_at(s: Seq<TaskRecord>, i: int)
    requires
        distinct_ids(s),
        0 <= i < s.len(),
    ensures
        lookup_in(s, s[i].task_id@) == Some(s[i]@),
{
    assert(has_task(s, s[i].task_id@));
}

proof fn lemma_update_frame(s: Seq<TaskRecord>, i: int, x: TaskRecord)
    requires
        distinct_ids(s),
        0 <= i < s.len(),
        x.task_id@ == s[i].task_id@,
    ensures
        distinct_ids(s.update(i, x)),
        lookup_in(s.update(i, x), x.task_id@) == Some(x@),
        forall|id: Seq<char>| id != x.task_id@ ==> lookup_in(s.update(i, x), id) == lookup_in(s, id),
{
    let s2 = s.update(i, x);
    assert(distinct_ids(s2)) by {
        assert forall|a: int, b: int|
            0 <= a < s2.len() && 0 <= b < s2.len() && a != b implies #[trigger] s2[a].task_id@
            != #[trigger] s2[b].task_id@ by {
            assert(s[a].task_id@ != s[b].task_id@);
        }
    }
    lemma_lookup_at(s2, i);
    assert forall|id: Seq<char>| id != x.task_id@ implies lookup_in(s2, id) == lookup_in(s, id) by {
        if has_task(s, id) {
            let k = choose|k: int| 0 <= k < s.len() && #[trigger] s[k].task_id@ == id;
            assert(s2[k].task_id@ == id);
            lemma_lookup_at(s, k);
            lemma_lookup_at(s2, k);
        } else {
            assert(!has_task(s2, id)) by {
                if has_task(s2, id) {
                    let k = choose|k: int| 0 <= k < s2.len() && #[trigger] s2[k].task_id@ == id;
                    assert(s[k].task_id@ == id);
                }
            }
        }
    }
}

proof fn lemma_push_frame(s: Seq<TaskRecord>, x: TaskRecord)
    requires
        distinct_ids(s),
        !has_task(s, x.task_id@),
    ensures
        distinct_ids(s.push(x)),
        lookup_in(s.push(x), x.task_id@) == Some(x@),
        forall|id: Seq<char>| id != x.task_id@ ==> lookup_in(s.push(x), id) == lookup_in(s, id),
{
    let s2 = s.push(x);
    assert(distinct_ids(s2)) by {
        assert forall|a: int, b: int|
            0 <= a < s2.len() && 0 <= b < s2.len() && a != b implies #[trigger] s2[a].task_id@
            != #[trigger] s2[b].task_id@ by {
            if a < s.len() && b < s.len() {
                assert(s[a].task_id@ != s[b].task_id@);
            } else if a < s.len() {
                assert(s2[a] == s[a]);
            } else {
                assert(s2[b] == s[b]);
            }
        }
    }
    lemma_lookup_at(s2, s.len() as int);
    assert forall|id: Seq<char>| id != x.task_id@ implies lookup_in(s2, id) == lookup_in(s, id) by {
        if has_task(s, id) {
            let k = choose|k: int| 0 <= k < s.len() && #[trigger] s[k].task_id@ == id;
            assert(s2[k].task_id@ == id);
            lemma_lookup_at(s, k);
            lemma_lookup_at(s2, k);
        } else {
            assert(!has_task(s2, id)) by {
                if has_task(s2, id) {
                    let k = choose|k: int| 0 <= k < s2.len() && #[trigger] s2[k].task_id@ == id;
                    assert(k < s.len());
                    assert(s[k].task_id@ == id);
                }
            }
        }
    }
}

/// A lower-case hexadecimal digit.
pub open spec fn is_lower_hex(c: char) -> bool {
    ('0' <= c && c <= '9') || ('a' <= c && c <= 'f')
}

/// The text of a UUID of version 4 (random, RFC 4122 variant), hyphenated and in lower
/// case: 36 characters, hyphens at 8, 13, 18 and 23, lower-case hexadecimal digits
/// elsewhere, the version digit `4` at 14 and the variant digit (`8`, `9`, `a` or `b`)
/// at 19.
pub open spec fn is_uuid_v4_text(s: Seq<char>) -> bool {
    &&& s.len() == 36
    &&& forall|i: int|
        0 <= i < 36 ==> if i == 8 || i == 13 || i == 18 || i == 23 {
            #[trigger] s[i] == '-'
        } else {
            is_lower_hex(s[i])
        }
    &&& s[14] == '4'
    &&& (s[19] == '8' || s[19] == '9' || s[19] == 'a' || s[19] == 'b')
}

/// A fresh random task id: `Uuid::new_v4`, written by its `Display`, which is the
/// hyphenated lower-case form; `new_v4` sets the version and variant bits and takes the
/// rest from the system's random source, of which nothing is stated.
#[verifier::external_body]
fn new_task_id() -> (r: String)
    ensures
        is_uuid_v4_text(r@),
{
    uuid::Uuid::new_v4().to_string()
}

impl TaskRecord {
    /// The status report of the task.
    pub fn to_response(&self) -> (r: TaskStatusResponse)
        ensures
            r.task_id@ == self.task_id@,
            r.status == self.status,
            opt_view(r.stage) == opt_view(self.stage),
            r.progress == self.progress,
            r.downloaded_bytes == self.downloaded_bytes,
            r.total_bytes == self.total_bytes,
            r.speed_bytes == self.speed_bytes,
            r.eta_seconds == self.eta_seconds,
            opt_view(r.manifest_path) == opt_view(self.manifest_path),
            opt_view(r.target_path) == opt_view(self.target_path),
            r.output_files@ == self.output_files@,
            opt_view(r.error) == opt_view(self.error),
    {
        TaskStatusResponse {
            task_id: self.task_id.clone(),
            status: self.status,
            stage: clone_opt(&self.stage),
            progress: self.progress,
            downloaded_bytes: self.downloaded_bytes,
            total_bytes: self.total_bytes,
            speed_bytes: self.speed_bytes,
            eta_seconds: self.eta_seconds,
            manifest_path: clone_opt(&self.manifest_path),
            target_path: clone_opt(&self.target_path),
            output_files: clone_files(&self.output_files),
            error: clone_opt(&self.error),
        }
    }
}

/// A copy of an optional string.
pub fn clone_opt(o: &Option<String>) -> (r: Option<String>)
    ensures
        r == *o,
{
    match o {
        Some(s) => Some(s.clone()),
        None => None,
    }
}

/// A copy of a list of output files.
pub fn clone_files(v: &Vec<OutputFile>) -> (r: Vec<OutputFile>)
    ensures
        r@ == v@,
{
    let mut r: Vec<OutputFile> = Vec::new();
    let mut i: usize = 0;
    while i < v.len()
        invariant
            i <= v@.len(),
            r@ == v@.take(i as int),
        decreases v@.len() - i,
    {
        r.push(v[i].clone());
        i = i + 1;
        assert(r@ =~= v@.take(i as int));
    }
    assert(v@.take(v@.len() as int) =~= v@);
    r
}

/// The tasks of the service, by id.
pub struct TaskManager {
    tasks: Vec<TaskRecord>,
}

impl TaskManager {
    /// No two tasks share an id.
    pub closed spec fn wf(&self) -> bool {
        distinct_ids(self.tasks@)
    }

    /// The task with id `id`, if there is one.
    pub closed spec fn lookup(&self, id: Seq<char>) -> Option<TaskRecordView> {
        lookup_in(self.tasks@, id)
    }

    /// An empty table.
    pub fn new() -> (r: Self)
        ensures
            r.wf(),
            forall|id: Seq<char>| #[trigger] r.lookup(id) is None,
    {
        TaskManager { tasks: Vec::new() }
    }

    fn find_index(&self, task_id: &str) -> (r: Option<usize>)
        ensures
            match r {
                Some(i) => i < self.tasks@.len() && self.tasks@[i as int].task_id@ == task_id@,
                None => !has_task(self.tasks@, task_id@),
            },
    {
        let key = chars_of(task_id);
        let mut i: usize = 0;
        while i < self.tasks.len()
            invariant
                i <= self.tasks@.len(),
                key@ == task_id@,
                forall|k: int| 0 <= k < i ==> #[trigger] self.tasks@[k].task_id@ != task_id@,
            decreases self.tasks@.len() - i,
        {
            let name = chars_of(self.tasks[i].task_id.as_str());
            if chars_eq(&name, &key) {
                return Some(i);
            }
            i = i + 1;
        }
        None
    }

    /// Records a new task under `task_id` (a task already under that id is replaced).
    pub fn insert_task(&mut self, task_id: String, request: CreateTaskRequest)
        requires
            old(self).wf(),
        ensures
            final(self).wf(),
            final(self).lookup(task_id@) == Some(created(task_id@, request)),
            forall|id: Seq<char>| id != task_id@ ==> #[trigger] final(self).lookup(id) == old(self).lookup(id),
    {
        let found = self.find_index(task_id.as_str());
        let record = TaskRecord {
            task_id,
            request,
            status: TaskState::Pending,
            stage: Some(String::from_str("queued")),
            progress: Some(Progress::Percent(0)),
            downloaded_bytes: None,
            total_bytes: None,
            speed_bytes: None,
            eta_seconds: None,
            manifest_path: None,
            target_path: None,
            output_files: Vec::new(),
            error: None,
            cancel_requested: false,
        };
        assert(record@ == created(record.task_id@, request));
        match found {
            Some(i) => {
                let ghost old_tasks = self.tasks@;
                self.tasks.set(i, record);
                proof {
                    lemma_update_frame(old_tasks, i as int, self.tasks@[i as int]);
                }
            },
            None => {
                let ghost old_tasks = self.tasks@;
                self.tasks.push(record);
                proof {
                    lemma_push_frame(old_tasks, self.tasks@.last());
                }
            },
        }
    }

    /// Records a new task under a fresh random id and returns the id.
    pub fn create_task(&mut self, request: CreateTaskRequest) -> (r: String)
        requires
            old(self).wf(),
        ensures
            final(self).wf(),
            final(self).lookup(r@) == Some(created(r@, request)),
            forall|id: Seq<char>| id != r@ ==> #[trigger] final(self).lookup(id) == old(self).lookup(id),
            is_uuid_v4_text(r@),
    {
        let task_id = new_task_id();
        let returned = task_id.clone();
        self.insert_task(task_id, request);
        returned
    }

    /// The task with id `task_id`.
    pub fn get_task(&self, task_id: &str) -> (r: Option<&TaskRecord>)
        requires
            self.wf(),
        ensures
            match r {
                Some(t) => self.lookup(task_id@) == Some(t@),
                None => self.lookup(task_id@) is None,
            },
    {
        match self.find_index(task_id) {
            Some(i) => {
                proof {
                    lemma_lookup_at(self.tasks@, i as int);
                }
                Some(&self.tasks[i])
            },
            None => None,
        }
    }

    /// Whether cancellation was requested for the task (false for an unknown id).
    pub fn is_cancel_requested(&self, task_id: &str) -> (r: bool)
        requires
            self.wf(),
        ensures
            r == match self.lookup(task_id@) {
                Some(t) => t.cancel_requested,
                None => false,
            },
    {
        match self.get_task(task_id) {
            Some(t) => t.cancel_requested,
            None => false,
        }
    }

    /// Requests cancellation; returns whether the task exists.
    pub fn request_cancel(&mut self, task_id: &str) -> (r: bool)
        requires
            old(self).wf(),
        ensures
            final(self).wf(),
            r == old(self).lookup(task_id@) is Some,
            final(self).lookup(task_id@) == match old(self).lookup(task_id@) {
                Some(t) => Some(after_cancel_request(t)),
                None => None,
            },
            forall|id: Seq<char>| id != task_id@ ==> #[trigger] final(self).lookup(id) == old(self).lookup(id),
    {
        let i = match self.find_index(task_id) {
            Some(i) => i,
            None => return false,
        };
        let ghost old_tasks = self.tasks@;
        proof {
            lemma_lookup_at(old_tasks, i as int);
        }
        let mut t = self.tasks.remove(i);
        t.cancel_requested = true;
        if t.status == TaskState::Pending || t.status == TaskState::Running {
            t.status = TaskState::Cancelled;
            t.stage = Some(String::from_str("cancelled"));
            t.error = Some(String::from_str("task cancelled"));
            t.progress = Some(
                match t.progress {
                    Some(p) => p,
                    None => Progress::Percent(0),
                },
            );
        }
        assert(t@ == after_cancel_request(old_tasks[i as int]@));
        self.tasks.insert(i, t);
        proof {
            assert(self.tasks@ =~= old_tasks.update(i as int, self.tasks@[i as int]));
            lemma_update_frame(old_tasks, i as int, self.tasks@[i as int]);
        }
        true
    }

    /// Moves the task to a new stage; see [`after_stage`]. Nothing happens for an
    /// unknown id.
    pub fn update_stage(&mut self, task_id: &str, stage: &str, percent: u64)
        requires
            old(self).wf(),
        ensures
            final(self).wf(),
            final(self).lookup(task_id@) == match old(self).lookup(task_id@) {
                Some(t) => Some(after_stage(t, stage@, percent)),
                None => None,
            },
            forall|id: Seq<char>| id != task_id@ ==> #[trigger] final(self).lookup(id) == old(self).lookup(id),
    {
        let i = match self.find_index(task_id) {
            Some(i) => i,
            None => return,
        };
        let ghost old_tasks = self.tasks@;
        proof {
            lemma_lookup_at(old_tasks, i as int);
        }
        let mut t = self.tasks.remove(i);
        if t.cancel_requested && t.status != TaskState::Cancelled {
            mark_cancelled(&mut t);
        } else {
            t.status = TaskState::Running;
            t.stage = Some(String::from_str(stage));
            t.progress = Some(Progress::Percent(if percent > 100 { 100 } else { percent }));
        }
        assert(t@ == after_stage(old_tasks[i as int]@, stage@, percent));
        self.tasks.insert(i, t);
        proof {
            assert(self.tasks@ =~= old_tasks.update(i as int, self.tasks@[i as int]));
            lemma_update_frame(old_tasks, i as int, self.tasks@[i as int]);
        }
    }

    /// Records a download progress report; see [`after_download_progress`]. Nothing
    /// happens for an unknown id.
    pub fn update_download_progress(
        &mut self,
        task_id: &str,
        percent: Option<u64>,
        downloaded_bytes: Option<u64>,
        total_bytes: Option<u64>,
        speed_bytes: Option<u64>,
        eta_seconds: Option<u64>,
    )
        requires
            old(self).wf(),
        ensures
            final(self).wf(),
            final(self).lookup(task_id@) == match old(self).lookup(task_id@) {
                Some(t) => Some(
                    after_download_progress(
                        t,
                        percent,
                        downloaded_bytes,
                        total_bytes,
                        speed_bytes,
                        eta_seconds,
                    ),
                ),
                None => None,
            },
            forall|id: Seq<char>| id != task_id@ ==> #[trigger] final(self).lookup(id) == old(self).lookup(id),
    {
        let i = match self.find_index(task_id) {
            Some(i) => i,
            None => return,
        };
        let ghost old_tasks = self.tasks@;
        proof {
            lemma_lookup_at(old_tasks, i as int);
        }
        let mut t = self.tasks.remove(i);
        if t.cancel_requested && t.status != TaskState::Cancelled {
            mark_cancelled(&mut t);
        } else {
            t.status = TaskState::Running;
            t.stage = Some(String::from_str("downloading"));
            match percent {
                Some(p) => {
                    t.progress = Some(Progress::Percent(if p > 100 { 100 } else { p }));
                },
                None => {
                    match (downloaded_bytes, total_bytes) {
                        (Some(d), Some(n)) => {
                            if n > 0 {
                                t.progress = Some(Progress::Ratio(d, n));
                            }
                        },
                        _ => {},
                    }
                },
            }
            t.downloaded_bytes = match downloaded_bytes {
                Some(d) => Some(d),
                None => t.downloaded_bytes,
            };
            t.total_bytes = match total_bytes {
                Some(n) => Some(n),
                None => t.total_bytes,
            };
            t.speed_bytes = speed_bytes;
            t.eta_seconds = eta_seconds;
        }
        assert(t@ == after_download_progress(
            old_tasks[i as int]@,
            percent,
            downloaded_bytes,
            total_bytes,
            speed_bytes,
            eta_seconds,
        ));
        self.tasks.insert(i, t);
        proof {
            assert(self.tasks@ =~= old_tasks.update(i as int, self.tasks@[i as int]));
            lemma_update_frame(old_tasks, i as int, self.tasks@[i as int]);
        }
    }

    /// Completes the task; see [`after_complete`]. Nothing happens for an unknown id.
    pub fn complete(
        &mut self,
        task_id: &str,
        manifest_path: Option<String>,
        target_path: Option<String>,
        output_files: Vec<OutputFile>,
    )
        requires
            old(self).wf(),
        ensures
            final(self).wf(),
            final(self).lookup(task_id@) == match old(self).lookup(task_id@) {
                Some(t) => Some(
                    after_complete(t, opt_view(manifest_path), opt_view(target_path), output_files@),
                ),
                None => None,
            },
            forall|id: Seq<char>| id != task_id@ ==> #[trigger] final(self).lookup(id) == old(self).lookup(id),
    {
        let i = match self.find_index(task_id) {
            Some(i) => i,
            None => return,
        };
        let ghost old_tasks = self.tasks@;
        proof {
            lemma_lookup_at(old_tasks, i as int);
        }
        let mut t = self.tasks.remove(i);
        if t.cancel_requested {
            mark_cancelled(&mut t);
        } else {
            let largest = largest_size(&output_files);
            t.status = TaskState::Completed;
            t.stage = Some(String::from_str("completed"));
            t.progress = Some(Progress::Percent(100));
            t.downloaded_bytes = largest;
            t.total_bytes = largest;
            t.speed_bytes = None;
            t.eta_seconds = Some(0);
            t.manifest_path = manifest_path;
            t.target_path = target_path;
            t.output_files = output_files;
            t.error = None;
        }
        self.tasks.insert(i, t);
        proof {
            assert(self.tasks@ =~= old_tasks.update(i as int, self.tasks@[i as int]));
            lemma_update_frame(old_tasks, i as int, self.tasks@[i as int]);
        }
    }

    /// Fails the task with `message`; see [`after_fail`]. Nothing happens for an
    /// unknown id.
    pub fn fail(&mut self, task_id: &str, message: String)
        requires
            old(self).wf(),
        ensures
            final(self).wf(),
            final(self).lookup(task_id@) == match old(self).lookup(task_id@) {
                Some(t) => Some(after_fail(t, message@)),
                None => None,
            },
            forall|id: Seq<char>| id != task_id@ ==> #[trigger] final(self).lookup(id) == old(self).lookup(id),
    {
        let i = match self.find_index(task_id) {
            Some(i) => i,
            None => return,
        };
        let ghost old_tasks = self.tasks@;
        proof {
            lemma_lookup_at(old_tasks, i as int);
        }
        let mut t = self.tasks.remove(i);
        if t.cancel_requested {
            mark_cancelled(&mut t);
        } else {
            t.status = TaskState::Failed;
            t.stage = Some(String::from_str("failed"));
            t.error = Some(message);
        }
        assert(t@ == after_fail(old_tasks[i as int]@, message@));
        self.tasks.insert(i, t);
        proof {
            assert(self.tasks@ =~= old_tasks.update(i as int, self.tasks@[i as int]));
            lemma_update_frame(old_tasks, i as int, self.tasks@[i as int]);
        }
    }
}

fn mark_cancelled(t: &mut TaskRecord)
    ensures
        final(t)@ == marked_cancelled(old(t)@),
{
    t.status = TaskState::Cancelled;
    t.stage = Some(String::from_str("cancelled"));
    t.error = Some(String::from_str("task cancelled"));
}

/// The largest known size among `files`.
pub fn largest_size(files: &Vec<OutputFile>) -> (r: Option<u64>)
    ensures
        r == max_size(files@),
{
    let mut best: Option<u64> = None;
    let mut i: usize = 0;
    while i < files.len()
        invariant
            i <= files@.len(),
            best == max_size(files@.take(i as int)),
        decreases files@.len() - i,
    {
        proof {
            assert(files@.take(i + 1).drop_last() =~= files@.take(i as int));
        }
        best = match (best, files[i].size_bytes) {
            (None, s) => s,
            (Some(a), None) => Some(a),
            (Some(a), Some(b)) => Some(if a > b { a } else { b }),
        };
        i = i + 1;
    }
    assert(files@.take(files@.len() as int) =~= files@);
    best
}

/// Once cancellation has been requested it stays requested, whatever is reported next.
pub proof fn law_cancel_request_persists(
    t: TaskRecordView,
    stage: Seq<char>,
    percent: u64,
    progress_percent: Option<u64>,
    downloaded_bytes: Option<u64>,
    total_bytes: Option<u64>,
    speed_bytes: Option<u64>,
    eta_seconds: Option<u64>,
    manifest_path: Option<Seq<char>>,
    target_path: Option<Seq<char>>,
    output_files: Seq<OutputFile>,
    message: Seq<char>,
)
    requires
        t.cancel_requested,
    ensures
        after_cancel_request(t).cancel_requested,
        after_stage(t, stage, percent).cancel_requested,
        after_download_progress(t, progress_percent, downloaded_bytes, total_bytes, speed_bytes, eta_seconds).cancel_requested,
        after_complete(t, manifest_path, target_path, output_files).cancel_requested,
        after_fail(t, message).cancel_requested,
{
}

/// A task whose cancellation was requested can neither complete nor fail: both end
/// `Cancelled`, with the error "task cancelled".
pub proof fn law_cancelled_task_ends_cancelled(
    t: TaskRecordView,
    manifest_path: Option<Seq<char>>,
    target_path: Option<Seq<char>>,
    output_files: Seq<OutputFile>,
    message: Seq<char>,
)
    requires
        t.cancel_requested,
    ensures
        after_complete(t, manifest_path, target_path, output_files).status == TaskState::Cancelled,
        after_fail(t, message).status == TaskState::Cancelled,
        after_complete(t, manifest_path, target_path, output_files).error == Some("task cancelled"@),
        after_fail(t, message).error == Some("task cancelled"@),
{
}

/// A cancel request cancels a pending or running task at once and leaves a completed,
/// failed or cancelled task's status as it was.
pub proof fn law_cancel_request_outcome(t: TaskRecordView)
    ensures
        (t.status == TaskState::Pending || t.status == TaskState::Running) ==> after_cancel_request(
            t,
        ).status == TaskState::Cancelled,
        (t.status == TaskState::Completed || t.status == TaskState::Failed || t.status
            == TaskState::Cancelled) ==> after_cancel_request(t).status == t.status,
        after_cancel_request(t).task_id == t.task_id,
{
}

/// A completed task reports 100% and, as its size, the largest of its outputs.
pub proof fn law_completion_reports_full_progress(
    t: TaskRecordView,
    manifest_path: Option<Seq<char>>,
    target_path: Option<Seq<char>>,
    output_files: Seq<OutputFile>,
)
    requires
        !t.cancel_requested,
    ensures
        after_complete(t, manifest_path, target_path, output_files).status == TaskState::Completed,
        after_complete(t, manifest_path, target_path, output_files).progress == Some(Progress::Percent(100)),
        after_complete(t, manifest_path, target_path, output_files).downloaded_bytes == max_size(output_files),
        max_size(output_files) matches Some(m) ==> forall|i: int| 0 <= i < output_files.len() && output_files[i].size_bytes is Some ==> output_files[i].size_bytes->0 <= m,
{
    lemma_max_size_bound(output_files);
}

proof fn lemma_max_size_bound(files: Seq<OutputFile>)
    ensures
        max_size(files) matches Some(m) ==> forall|i: int| 0 <= i < files.len() && files[i].size_bytes is Some ==> files[i].size_bytes->0 <= m,
        max_size(files) is None ==> forall|i: int| 0 <= i < files.len() ==> files[i].size_bytes is None,
    decreases files.len(),
{
    if files.len() > 0 {
        lemma_max_size_bound(files.drop_last());
        assert forall|i: int| 0 <= i < files.len() - 1 implies files[i] == files.drop_last()[i] by {}
    }
}

} // verus!
