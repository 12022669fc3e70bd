//! The registry of compression tasks: creation, the state changes a run
//! goes through, lookups and the status listing.

use std::collections::HashMap;
use vstd::prelude::*;
use vstd::string::*;
use crate::error::AppError;
use crate::model::{MeshInfo, TaskStatus, Timestamp, ts_before};
use crate::text::{get_extension, join_path, join_path_spec, lower_extension, uuid_text, uuid_text_spec};

verus! {

/// A compression task. `P` is the progress figure and `O` the
/// compression options, both carried as given.
pub struct CompressionTask<P, O> {
    pub task_id: u128,
    pub original_filename: String,
    pub stored_filename: String,
    pub original_path: String,
    pub output_path: Option<String>,
    pub status: TaskStatus,
    pub progress: P,
    pub created_at: Timestamp,
    pub started_at: Option<Timestamp>,
    pub completed_at: Option<Timestamp>,
    pub original_info: Option<MeshInfo>,
    pub compressed_info: Option<MeshInfo>,
    pub options: O,
    pub error_message: Option<String>,
}

/// The text of an optional string.
pub open spec fn opt_text(o: Option<String>) -> Option<Seq<char>> {
    match o {
        Some(s) => Some(s@),
        None => None,
    }
}

/// The extension an upload is stored under: the file name's lowercased
/// extension, or `obj`.
pub open spec fn stored_extension(filename: Seq<char>) -> Seq<char> {
    match lower_extension(filename) {
        Some(e) => e,
        None => "obj"@,
    }
}

/// The stored file name of a task: its identifier, a dot, the extension.
pub open spec fn stored_name_spec(id: u128, filename: Seq<char>) -> Seq<char> {
    uuid_text_spec(id) + "."@ + stored_extension(filename)
}

/// The output file name of a task.
pub open spec fn output_name_spec(id: u128) -> Seq<char> {
    uuid_text_spec(id) + "_compressed.obj"@
}

/// `t` is the queued task made for an upload.
pub open spec fn is_new_task<P, O>(
    t: CompressionTask<P, O>,
    id: u128,
    filename: Seq<char>,
    upload_dir: Seq<char>,
    output_dir: Seq<char>,
    options: O,
    now: Timestamp,
    progress: P,
) -> bool {
    &&& t.task_id == id
    &&& t.original_filename@ == filename
    &&& t.stored_filename@ == stored_name_spec(id, filename)
    &&& t.original_path@ == join_path_spec(upload_dir, stored_name_spec(id, filename))
    &&& opt_text(t.output_path) == Some(join_path_spec(output_dir, output_name_spec(id)))
    &&& t.status == TaskStatus::Queued
    &&& t.progress == progress
    &&& t.created_at == now
    &&& t.started_at is None
    &&& t.completed_at is None
    &&& t.original_info is None
    &&& t.compressed_info is None
    &&& t.options == options
    &&& t.error_message is None
}

/// The task once its run has started.
pub open spec fn started<P, O>(t: CompressionTask<P, O>, now: Timestamp, progress: P) -> CompressionTask<P, O> {
    CompressionTask { status: TaskStatus::Processing, started_at: Some(now), progress, ..t }
}

/// The task with a new progress figure.
pub open spec fn progressed<P, O>(t: CompressionTask<P, O>, progress: P) -> CompressionTask<P, O> {
    CompressionTask { progress, ..t }
}

/// The task once its run has succeeded.
pub open spec fn completed<P, O>(
    t: CompressionTask<P, O>,
    now: Timestamp,
    progress: P,
    original: MeshInfo,
    compressed: MeshInfo,
) -> CompressionTask<P, O> {
    CompressionTask {
        status: TaskStatus::Completed,
        completed_at: Some(now),
        progress,
        original_info: Some(original),
        compressed_info: Some(compressed),
        ..t
    }
}

/// The task once its run has failed with `message`.
pub open spec fn failed<P, O>(t: CompressionTask<P, O>, now: Timestamp, message: String) -> CompressionTask<P, O> {
    CompressionTask {
        status: TaskStatus::Failed,
        completed_at: Some(now),
        error_message: Some(message),
        ..t
    }
}

/// The task with the statistics of its uploaded mesh.
pub open spec fn with_original_info<P, O>(t: CompressionTask<P, O>, info: MeshInfo) -> CompressionTask<P, O> {
    CompressionTask { original_info: Some(info), ..t }
}

/// The change `f` applied to task `id` of `m`, when `m` has it.
pub open spec fn update_task<P, O>(
    m: Map<u128, CompressionTask<P, O>>,
    id: u128,
    t: CompressionTask<P, O>,
) -> Map<u128, CompressionTask<P, O>> {
    if m.contains_key(id) {
        m.insert(id, t)
    } else {
        m
    }
}

/// The error answered for an unknown task.
pub open spec fn is_not_found(e: AppError, id: u128) -> bool {
    e is TaskNotFound && e.detail() == uuid_text_spec(id)
}

/// The tasks of the service, by identifier.
pub struct TaskRegistry<P, O> {
    upload_dir: String,
    output_dir: String,
    tasks: HashMap<u128, CompressionTask<P, O>>,
    order: Vec<u128>,
}

impl<P, O> View for TaskRegistry<P, O> {
    type V = Map<u128, CompressionTask<P, O>>;

    closed spec fn view(&self) -> Map<u128, CompressionTask<P, O>> {
        self.tasks@
    }
}

fn clone_opt_string(o: &Option<String>) -> (c: Option<String>)
    ensures
        c == *o,
{
    match o {
        Some(s) => Some(s.clone()),
        None => None,
    }
}

/// A copy of the task.
pub fn clone_task<P: Copy, O: Copy>(t: &CompressionTask<P, O>) -> (c: CompressionTask<P, O>)
    ensures
        c == *t,
{
    CompressionTask {
        task_id: t.task_id,
        original_filename: t.original_filename.clone(),
        stored_filename: t.stored_filename.clone(),
        original_path: t.original_path.clone(),
        output_path: clone_opt_string(&t.output_path),
        status: t.status,
        progress: t.progress,
        created_at: t.created_at,
        started_at: t.started_at,
        completed_at: t.completed_at,
        original_info: t.original_info,
        compressed_info: t.compressed_info,
        options: t.options,
        error_message: clone_opt_string(&t.error_message),
    }
}

impl<P: Copy, O: Copy> TaskRegistry<P, O> {
    /// The directory uploads are stored in.
    pub closed spec fn upload_dir(&self) -> Seq<char> {
        self.upload_dir@
    }

    /// The directory results are written to.
    pub closed spec fn output_dir(&self) -> Seq<char> {
        self.output_dir@
    }

    /// Each task is filed under its own identifier.
    pub closed spec fn wf(&self) -> bool {
        &&& self.order@.no_duplicates()
        &&& forall|k: u128| #[trigger] self.tasks@.contains_key(k) <==> self.order@.contains(k)
        &&& forall|k: u128| #[trigger] self.tasks@.contains_key(k) ==> self.tasks@[k].task_id == k
    }

    /// Every task is filed under its own identifier.
    pub proof fn lemma_keys_are_ids(&self)
        requires
            self.wf(),
        ensures
            forall|k: u128| #[trigger] self@.contains_key(k) ==> self@[k].task_id == k,
            self@.dom().finite(),
    {
        broadcast use vstd::std_specs::hash::group_hash_axioms;

    }

    /// An empty registry storing uploads under `upload_dir` and results
    /// under `output_dir`.
    pub fn new(upload_dir: String, output_dir: String) -> (r: TaskRegistry<P, O>)
        ensures
            r.wf(),
            r@ == Map::<u128, CompressionTask<P, O>>::empty(),
            r.upload_dir() == upload_dir@,
            r.output_dir() == output_dir@,
    {
        TaskRegistry { upload_dir, output_dir, tasks: HashMap::new(), order: Vec::new() }
    }

    /// Files a queued task for an upload of `filename` under `task_id`:
    /// stored as `<id>.<extension or obj>` in the upload directory, with
    /// its result due as `<id>_compressed.obj` in the output directory.
    pub fn create_task(
        &mut self,
        task_id: u128,
        filename: &str,
        options: O,
        now: Timestamp,
        progress: P,
    ) -> (id: u128)
        requires
            old(self).wf(),
        ensures
            final(self).wf(),
            id == task_id,
            final(self).upload_dir() == old(self).upload_dir(),
            final(self).output_dir() == old(self).output_dir(),
            final(self)@ == old(self)@.insert(task_id, final(self)@[task_id]),
            is_new_task(
                final(self)@[task_id],
                task_id,
                filename@,
                old(self).upload_dir(),
                old(self).output_dir(),
                options,
                now,
                progress,
            ),
    {
        broadcast use vstd::std_specs::hash::group_hash_axioms;

        let ext = match get_extension(filename) {
            Some(e) => e,
            None => String::from_str("obj"),
        };
        let mut stored = uuid_text(task_id);
        stored.append(".");
        stored.append(ext.as_str());
        let original_path = join_path(self.upload_dir.as_str(), stored.as_str());
        let mut output_name = uuid_text(task_id);
        output_name.append("_compressed.obj");
        let output_path = join_path(self.output_dir.as_str(), output_name.as_str());
        let task = CompressionTask {
            task_id,
            original_filename: String::from_str(filename),
            stored_filename: stored,
            original_path,
            output_path: Some(output_path),
            status: TaskStatus::Queued,
            progress,
            created_at: now,
            started_at: None,
            completed_at: None,
            original_info: None,
            compressed_info: None,
            options,
            error_message: None,
        };
        let known = self.tasks.contains_key(&task_id);
        self.tasks.insert(task_id, task);
        if !known {
            self.order.push(task_id);
            proof {
                assert forall|i: int, j: int| 0 <= i < j < self.order@.len() implies self.order@[i] != self.order@[j] by {
                    if j == self.order@.len() - 1 {
                        assert(old(self).order@.contains(self.order@[i]));
                    }
                }
            }
        }
        proof {
            assert forall|k: u128| #[trigger] self.tasks@.contains_key(k) <==> self.order@.contains(k) by {
                if k != task_id {
                    assert(old(self).tasks@.contains_key(k) <==> old(self).order@.contains(k));
                    if self.order@.contains(k) && !known {
                        let i = choose|i: int| 0 <= i < self.order@.len() && self.order@[i] == k;
                        assert(old(self).order@[i] == k);
                    }
                    if old(self).order@.contains(k) && !known {
                        let i = choose|i: int| 0 <= i < old(self).order@.len() && old(self).order@[i] == k;
                        assert(self.order@[i] == k);
                    }
                } else if !known {
                    assert(self.order@[self.order@.len() - 1] == k);
                }
            }
        }
        task_id
    }

    /// The task filed under `id`.
    pub fn get_task(&self, id: u128) -> (r: Result<CompressionTask<P, O>, AppError>)
        requires
            self.wf(),
        ensures
            match r {
                Ok(t) => self@.contains_key(id) && t == self@[id],
                Err(e) => !self@.contains_key(id) && is_not_found(e, id),
            },
    {
        broadcast use vstd::std_specs::hash::group_hash_axioms;

        match self.tasks.get(&id) {
            Some(t) => Ok(clone_task(t)),
            None => Err(AppError::TaskNotFound(uuid_text(id))),
        }
    }

    fn replace_task(&mut self, id: u128, t: CompressionTask<P, O>)
        requires
            old(self).wf(),
            old(self)@.contains_key(id),
            t.task_id == id,
        ensures
            final(self).wf(),
            final(self)@ == old(self)@.insert(id, t),
            final(self).upload_dir() == old(self).upload_dir(),
            final(self).output_dir() == old(self).output_dir(),
    {
        broadcast use vstd::std_specs::hash::group_hash_axioms;

        self.tasks.insert(id, t);
        assert forall|k: u128| #[trigger] self.tasks@.contains_key(k) <==> self.order@.contains(k) by {
            assert(old(self).tasks@.contains_key(k) <==> old(self).order@.contains(k));
        }
    }

    /// Marks task `id` as processing, started at `now`, at `progress`.
    pub fn start_task(&mut self, id: u128, now: Timestamp, progress: P)
        requires
            old(self).wf(),
        ensures
            final(self).wf(),
            final(self).upload_dir() == old(self).upload_dir(),
            final(self).output_dir() == old(self).output_dir(),
            final(self)@ == update_task(old(self)@, id, started(old(self)@[id], now, progress)),
    {
        broadcast use vstd::std_specs::hash::group_hash_axioms;

        match self.tasks.get(&id) {
            Some(t) => {
                let mut t = clone_task(t);
                t.status = TaskStatus::Processing;
                t.started_at = Some(now);
                t.progress = progress;
                self.replace_task(id, t);
            },
            None => {},
        }
    }

    /// Records `progress` for task `id`.
    pub fn set_progress(&mut self, id: u128, progress: P)
        requires
            old(self).wf(),
        ensures
            final(self).wf(),
            final(self).upload_dir() == old(self).upload_dir(),
            final(self).output_dir() == old(self).output_dir(),
            final(self)@ == update_task(old(self)@, id, progressed(old(self)@[id], progress)),
    {
        broadcast use vstd::std_specs::hash::group_hash_axioms;

        match self.tasks.get(&id) {
            Some(t) => {
                let mut t = clone_task(t);
                t.progress = progress;
                self.replace_task(id, t);
            },
            None => {},
        }
    }

    /// Marks task `id` as completed at `now` with both meshes' statistics.
    pub fn complete_task(
        &mut self,
        id: u128,
        now: Timestamp,
        progress: P,
        original_info: MeshInfo,
        compressed_info: MeshInfo,
    )
        requires
            old(self).wf(),
        ensures
            final(self).wf(),
            final(self).upload_dir() == old(self).upload_dir(),
            final(self).output_dir() == old(self).output_dir(),
            final(self)@ == update_task(
                old(self)@,
                id,
                completed(old(self)@[id], now, progress, original_info, compressed_info),
            ),
    {
        broadcast use vstd::std_specs::hash::group_hash_axioms;

        match self.tasks.get(&id) {
            Some(t) => {
                let mut t = clone_task(t);
                t.status = TaskStatus::Completed;
                t.completed_at = Some(now);
                t.progress = progress;
                t.original_info = Some(original_info);
                t.compressed_info = Some(compressed_info);
                self.replace_task(id, t);
            },
            None => {},
        }
    }

    /// Marks task `id` as failed at `now` with the error's message.
    pub fn fail_task(&mut self, id: u128, now: Timestamp, message: String)
        requires
            old(self).wf(),
        ensures
            final(self).wf(),
            final(self).upload_dir() == old(self).upload_dir(),
            final(self).output_dir() == old(self).output_dir(),
            final(self)@ == update_task(old(self)@, id, failed(old(self)@[id], now, message)),
    {
        broadcast use vstd::std_specs::hash::group_hash_axioms;

        match self.tasks.get(&id) {
            Some(t) => {
                let mut t = clone_task(t);
                t.status = TaskStatus::Failed;
                t.completed_at = Some(now);
                t.error_message = Some(message);
                self.replace_task(id, t);
            },
            None => {},
        }
    }

    /// Records the statistics of task `id`'s uploaded mesh.
    pub fn fill_original_info(&mut self, id: u128, info: MeshInfo)
        requires
            old(self).wf(),
        ensures
            final(self).wf(),
            final(self).upload_dir() == old(self).upload_dir(),
            final(self).output_dir() == old(self).output_dir(),
            final(self)@ == update_task(old(self)@, id, with_original_info(old(self)@[id], info)),
    {
        broadcast use vstd::std_specs::hash::group_hash_axioms;

        match self.tasks.get(&id) {
            Some(t) => {
                let mut t = clone_task(t);
                t.original_info = Some(info);
                self.replace_task(id, t);
            },
            None => {},
        }
    }

    /// Where task `id`'s upload is stored.
    pub fn original_path(&self, id: u128) -> (r: Result<String, AppError>)
        requires
            self.wf(),
        ensures
            match r {
                Ok(p) => self@.contains_key(id) && p == self@[id].original_path,
                Err(e) => !self@.contains_key(id) && is_not_found(e, id),
            },
    {
        broadcast use vstd::std_specs::hash::group_hash_axioms;

        match self.tasks.get(&id) {
            Some(t) => Ok(t.original_path.clone()),
            None => Err(AppError::TaskNotFound(uuid_text(id))),
        }
    }

    /// What a run of task `id` needs: the upload's path, the output path
    /// and the options.
    pub fn task_job(&self, id: u128) -> (r: Result<(String, String, O), AppError>)
        requires
            self.wf(),
        ensures
            match r {
                Ok((input, output, options)) => {
                    &&& self@.contains_key(id)
                    &&& input == self@[id].original_path
                    &&& self@[id].output_path == Some(output)
                    &&& options == self@[id].options
                },
                Err(e) => if self@.contains_key(id) {
                    self@[id].output_path is None && e is Internal && e.detail()
                        == "No output path set"@
                } else {
                    is_not_found(e, id)
                },
            },
    {
        broadcast use vstd::std_specs::hash::group_hash_axioms;

        match self.tasks.get(&id) {
            Some(t) => match &t.output_path {
                Some(o) => Ok((t.original_path.clone(), o.clone(), t.options)),
                None => Err(AppError::Internal(String::from_str("No output path set"))),
            },
            None => Err(AppError::TaskNotFound(uuid_text(id))),
        }
    }
}

/// What the service reports about a task.
pub struct TaskStatusResponse<P> {
    pub task_id: u128,
    pub status: TaskStatus,
    pub progress: P,
    pub original_filename: String,
    pub created_at: Timestamp,
    pub started_at: Option<Timestamp>,
    pub completed_at: Option<Timestamp>,
    pub original_info: Option<MeshInfo>,
    pub compressed_info: Option<MeshInfo>,
    pub error_message: Option<String>,
    pub download_url: Option<String>,
}

/// All tasks' reports, newest first, and how many there are.
pub struct TaskListResponse<P> {
    pub tasks: Vec<TaskStatusResponse<P>>,
    pub total: usize,
}

/// Where a completed task's result can be fetched; none before it
/// completes or when it has no output path.
pub open spec fn download_url_spec<P, O>(t: CompressionTask<P, O>) -> Option<Seq<char>> {
    if t.status == TaskStatus::Completed && t.output_path is Some {
        Some("/api/tasks/"@ + uuid_text_spec(t.task_id) + "/download"@)
    } else {
        None
    }
}

/// `r` reports task `t`.
pub open spec fn reports<P, O>(r: TaskStatusResponse<P>, t: CompressionTask<P, O>) -> bool {
    &&& r.task_id == t.task_id
    &&& r.status == t.status
    &&& r.progress == t.progress
    &&& r.original_filename == t.original_filename
    &&& r.created_at == t.created_at
    &&& r.started_at == t.started_at
    &&& r.completed_at == t.completed_at
    &&& r.original_info == t.original_info
    &&& r.compressed_info == t.compressed_info
    &&& r.error_message == t.error_message
    &&& opt_text(r.download_url) == download_url_spec(t)
}

/// The report of a task.
pub fn task_to_status_response<P: Copy, O: Copy>(t: &CompressionTask<P, O>) -> (r: TaskStatusResponse<P>)
    ensures
        reports(r, *t),
{
    let download_url = if t.status == TaskStatus::Completed && t.output_path.is_some() {
        let mut u = String::from_str("/api/tasks/");
        let id = uuid_text(t.task_id);
        u.append(id.as_str());
        u.append("/download");
        Some(u)
    } else {
        None
    };
    TaskStatusResponse {
        task_id: t.task_id,
        status: t.status,
        progress: t.progress,
        original_filename: t.original_filename.clone(),
        created_at: t.created_at,
        started_at: t.started_at,
        completed_at: t.completed_at,
        original_info: t.original_info,
        compressed_info: t.compressed_info,
        error_message: clone_opt_string(&t.error_message),
        download_url,
    }
}

/// Some report in `s` is about task `k`.
pub open spec fn has_report<P>(s: Seq<TaskStatusResponse<P>>, k: u128) -> bool {
    exists|x: int| 0 <= x < s.len() && s[x].task_id == k
}

/// The reports run from newest to oldest.
pub open spec fn newest_first<P>(s: Seq<TaskStatusResponse<P>>) -> bool {
    forall|i: int, j: int| 0 <= i < j < s.len() ==> !ts_before(s[i].created_at, s[j].created_at)
}

/// The reports cover the tasks of `m`, each once.
pub open spec fn reports_all<P, O>(s: Seq<TaskStatusResponse<P>>, m: Map<u128, CompressionTask<P, O>>) -> bool {
    &&& s.len() == m.dom().len()
    &&& forall|i: int| 0 <= i < s.len() ==> m.contains_key(#[trigger] s[i].task_id) && reports(s[i], m[s[i].task_id])
    &&& forall|i: int, j: int| 0 <= i < j < s.len() ==> s[i].task_id != s[j].task_id
    &&& forall|k: u128| #[trigger] m.contains_key(k) ==> has_report(s, k)
}

impl<P: Copy, O: Copy> TaskRegistry<P, O> {
    /// The report of task `id`.
    pub fn get_task_status(&self, id: u128) -> (r: Result<TaskStatusResponse<P>, AppError>)
        requires
            self.wf(),
        ensures
            match r {
                Ok(s) => self@.contains_key(id) && reports(s, self@[id]),
                Err(e) => !self@.contains_key(id) && is_not_found(e, id),
            },
    {
        let t = self.get_task(id)?;
        Ok(task_to_status_response(&t))
    }

    /// The reports of all tasks, newest first, with their number.
    pub fn list_tasks(&self) -> (r: TaskListResponse<P>)
        requires
            self.wf(),
        ensures
            reports_all(r.tasks@, self@),
            newest_first(r.tasks@),
            r.total == r.tasks@.len(),
    {
        broadcast use vstd::std_specs::hash::group_hash_axioms;

        let mut list: Vec<TaskStatusResponse<P>> = Vec::new();
        let n = self.order.len();
        for i in 0..n
            invariant
                n == self.order@.len(),
                self.wf(),
                list@.len() == i,
                newest_first(list@),
                forall|x: int| 0 <= x < list@.len() ==> self@.contains_key(#[trigger] list@[x].task_id) && reports(list@[x], self@[list@[x].task_id]),
                forall|x: int, y: int| 0 <= x < y < list@.len() ==> list@[x].task_id != list@[y].task_id,
                forall|x: int| 0 <= x < list@.len() ==> self.order@.take(i as int).contains(#[trigger] list@[x].task_id),
                forall|y: int| 0 <= y < i ==> has_report(list@, #[trigger] self.order@[y]),
        {
            let k = self.order[i];
            assert(self.order@.contains(k));
            let t = self.tasks.get(&k).unwrap();
            let r = task_to_status_response(t);
            let len = list.len();
            let mut p: usize = 0;
            while p < len && !list[p].created_at.is_before(&r.created_at)
                invariant
                    p <= len == list@.len(),
                    forall|x: int| 0 <= x < p ==> !ts_before(#[trigger] list@[x].created_at, r.created_at),
                decreases len - p,
            {
                p = p + 1;
            }
            let ghost old_list = list@;
            list.insert(p, r);
            proof {
                assert(list@ == old_list.insert(p as int, r));
                assert forall|x: int, y: int| 0 <= x < y < list@.len() implies !ts_before(list@[x].created_at, list@[y].created_at) by {
                    if y < p {
                    } else if y == p {
                    } else if x == p {
                        assert(ts_before(old_list[p as int].created_at, r.created_at));
                        assert(!ts_before(old_list[p as int].created_at, old_list[y - 1].created_at) || y - 1 == p);
                    } else if x < p {
                    } else {
                    }
                }
                assert forall|x: int| 0 <= x < list@.len() implies self.order@.take(i + 1).contains(#[trigger] list@[x].task_id) by {
                    if x == p {
                        assert(self.order@.take(i + 1)[i as int] == k);
                    } else {
                        let ox = if x < p { x } else { x - 1 };
                        assert(list@[x] == old_list[ox]);
                        let w = choose|w: int| 0 <= w < i && self.order@.take(i as int)[w] == old_list[ox].task_id;
                        assert(self.order@.take(i + 1)[w] == old_list[ox].task_id);
                    }
                }
                assert forall|x: int, y: int| 0 <= x < y < list@.len() implies list@[x].task_id != list@[y].task_id by {
                    if x == p || y == p {
                        let other = if x == p { y } else { x };
                        let ox = if other < p { other } else { other - 1 };
                        assert(list@[other] == old_list[ox]);
                        let w = choose|w: int| 0 <= w < i && self.order@.take(i as int)[w] == old_list[ox].task_id;
                        assert(self.order@[w] == old_list[ox].task_id);
                        assert(self.order@[i as int] == k);
                    }
                }
                assert forall|y: int| 0 <= y < i + 1 implies has_report(list@, #[trigger] self.order@[y]) by {
                    if y == i {
                        assert(list@[p as int].task_id == k);
                    } else {
                        assert(has_report(old_list, self.order@[y]));
                        let x = choose|x: int| 0 <= x < old_list.len() && old_list[x].task_id == self.order@[y];
                        if x < p {
                            assert(list@[x] == old_list[x]);
                        } else {
                            assert(list@[x + 1] == old_list[x]);
                        }
                    }
                }
            }
        }
        proof {
            self.order@.unique_seq_to_set();
            assert(self.order@.to_set() =~= self@.dom());
            assert forall|k: u128| #[trigger] self@.contains_key(k) implies has_report(list@, k) by {
                assert(self.order@.contains(k));
                let y = choose|y: int| 0 <= y < n && self.order@[y] == k;
                assert(has_report(list@, self.order@[y]));
            }
        }
        let total = list.len();
        TaskListResponse { tasks: list, total }
    }
}

/// A report carries a download link exactly when its task has completed
/// and has an output path.
pub proof fn lemma_download_only_when_completed<P, O>(r: TaskStatusResponse<P>, t: CompressionTask<P, O>)
    requires
        reports(r, t),
    ensures
        r.download_url is Some <==> (t.status == TaskStatus::Completed && t.output_path is Some),
{
}

/// A task goes from queued to processing to completed; only the
/// completed task is offered for download, at
/// `/api/tasks/<id>/download`, and a failed one never is. Each step keeps
/// the task's identity, names and paths.
pub proof fn lemma_task_lifecycle<P, O>(
    t: CompressionTask<P, O>,
    id: u128,
    filename: Seq<char>,
    upload_dir: Seq<char>,
    output_dir: Seq<char>,
    options: O,
    created: Timestamp,
    p0: P,
    started_at: Timestamp,
    p1: P,
    done_at: Timestamp,
    p2: P,
    original: MeshInfo,
    compressed: MeshInfo,
    message: String,
)
    requires
        is_new_task(t, id, filename, upload_dir, output_dir, options, created, p0),
    ensures
        download_url_spec(t) is None,
        started(t, started_at, p1).status == TaskStatus::Processing,
        download_url_spec(started(t, started_at, p1)) is None,
        ({
            let c = completed(started(t, started_at, p1), done_at, p2, original, compressed);
            &&& c.status == TaskStatus::Completed
            &&& c.task_id == id
            &&& c.original_filename == t.original_filename
            &&& c.original_path == t.original_path
            &&& c.output_path == t.output_path
            &&& c.created_at == created
            &&& c.started_at == Some(started_at)
            &&& c.completed_at == Some(done_at)
            &&& c.original_info == Some(original)
            &&& c.compressed_info == Some(compressed)
            &&& download_url_spec(c) == Some("/api/tasks/"@ + uuid_text_spec(id) + "/download"@)
        }),
        ({
            let f = failed(started(t, started_at, p1), done_at, message);
            &&& f.status == TaskStatus::Failed
            &&& f.error_message == Some(message)
            &&& download_url_spec(f) is None
        }),
{
}

/// Changing one task leaves every other task as it was.
pub proof fn lemma_update_touches_one_task<P, O>(
    m: Map<u128, CompressionTask<P, O>>,
    id: u128,
    t: CompressionTask<P, O>,
    k: u128,
)
    requires
        k != id,
    ensures
        update_task(m, id, t).contains_key(k) == m.contains_key(k),
        m.contains_key(k) ==> update_task(m, id, t)[k] == m[k],
        update_task(m, id, t).dom() == m.dom(),
{
    if m.contains_key(id) {
        assert(m.insert(id, t).dom() =~= m.dom());
    }
}

/// Reading a task back after filing it: the registry holds the queued
/// task just filed under its identifier, and every other task as before.
pub proof fn lemma_read_after_create<P, O>(
    before: Map<u128, CompressionTask<P, O>>,
    after: Map<u128, CompressionTask<P, O>>,
    id: u128,
    filename: Seq<char>,
    upload_dir: Seq<char>,
    output_dir: Seq<char>,
    options: O,
    now: Timestamp,
    progress: P,
)
    requires
        after == before.insert(id, after[id]),
        is_new_task(after[id], id, filename, upload_dir, output_dir, options, now, progress),
    ensures
        after.contains_key(id),
        after[id].task_id == id,
        after[id].status == TaskStatus::Queued,
        after[id].original_filename@ == filename,
        after[id].options == options,
        download_url_spec(after[id]) is None,
        forall|k: u128| k != id ==> (#[trigger] after.contains_key(k) <==> before.contains_key(k)),
        forall|k: u128| k != id && before.contains_key(k) ==> #[trigger] after[k] == before[k],
{
}

} // verus!
